//! The login/verification orchestrator: the state machine that ties the
//! value types, the three stores and the token codec into request-level
//! operations. Each function takes the raw request values, consults the
//! stores it is given, and answers with the public error taxonomy.

use vstd::prelude::*;

use crate::data_stores::{
    challenge_matches, uuid_canon, uuid_ok, valid_code, BannedTokenStore, LoginAttemptId,
    TwoFACode, TwoFACodeStore, UserStore, UserStoreError,
};
use crate::email_client::EmailClient;
use crate::errors::AuthAPIError;
use crate::token;
use crate::token::{token_accepted, token_of, TOKEN_TTL_SECONDS};
use crate::user::{valid_email, Email, Password, User};

verus! {

#[derive(Debug)]
pub struct SignupRequest {
    pub email: String,
    pub password: String,
    pub requires_2fa: bool,
}

#[derive(Debug, PartialEq)]
pub struct SignupResponse {
    pub message: String,
}

#[derive(Debug)]
pub struct LoginRequest {
    pub email: String,
    pub password: String,
}

/// The two success shapes of a login: a plain session, or a pending
/// second factor.
#[derive(Debug)]
pub enum LoginResponse {
    RegularAuth,
    TwoFactorAuth(TwoFactorAuthResponse),
}

/// What a caller gets back when a second factor is required: a message
/// and the challenge identifier — never the code itself.
#[derive(Debug)]
pub struct TwoFactorAuthResponse {
    pub message: String,
    pub login_attempt_id: String,
}

#[derive(Debug)]
pub struct Verify2FARequest {
    pub email: String,
    pub login_attempt_id: String,
    pub two_fa_code: String,
}

#[derive(Debug)]
pub struct VerifyToken {
    pub token: String,
}

/// Registers a new identity: rejects malformed inputs, never overwrites
/// an existing address.
pub fn signup<U: UserStore>(user_store: &mut U, request: SignupRequest) -> (r: Result<
    SignupResponse,
    AuthAPIError,
>)
    ensures
        !(valid_email(request.email@) && request.password@.len() >= 8) ==> r == Err::<
            SignupResponse,
            AuthAPIError,
        >(AuthAPIError::BadRequest) && final(user_store).users() == old(user_store).users(),
        valid_email(request.email@) && request.password@.len() >= 8 && old(user_store).users().contains_key(request.email@) ==> r == Err::<SignupResponse, AuthAPIError>(
            AuthAPIError::UserAlreadyExists,
        ) && final(user_store).users() == old(user_store).users(),
        valid_email(request.email@) && request.password@.len() >= 8 && !old(user_store).users().contains_key(request.email@) ==> (r matches Ok(resp) && resp.message@
            == "User created successfully!"@ && final(user_store).users() == old(user_store).users().insert(request.email@, (request.password@, request.requires_2fa))),
{
    let email = Email::parse(request.email.as_str());
    let password = Password::parse(request.password.as_str());

    if email.is_err() || password.is_err() {
        return Err(AuthAPIError::BadRequest);
    }
    let user = User {
        email: email.unwrap(),
        password: password.unwrap(),
        requires_2fa: request.requires_2fa,
    };

    match user_store.get_user(&user.email) {
        Ok(_) => Err(AuthAPIError::UserAlreadyExists),
        Err(UserStoreError::UserNotFound) => {
            user_store.add_user(user).unwrap();
            Ok(SignupResponse { message: "User created successfully!".to_owned() })
        },
        Err(_) => Err(AuthAPIError::UnexpectedError),
    }
}

/// Primary credential check: on success either mints a session token at
/// once, or stores a fresh challenge and reports its identifier.
///
/// On success the pair holds the response and, for a plain session, the
/// token to attach as a cookie; a pending second factor never exposes
/// the code.
pub fn login<U: UserStore, T: TwoFACodeStore, E: EmailClient>(
    user_store: &U,
    two_fa_code_store: &mut T,
    email_client: &E,
    request: LoginRequest,
    now: u64,
) -> (r: Result<(LoginResponse, Option<String>), AuthAPIError>)
    requires
        now + TOKEN_TTL_SECONDS <= u64::MAX,
    ensures
        !(valid_email(request.email@) && request.password@.len() >= 8) ==> r == Err::<
            (LoginResponse, Option<String>),
            AuthAPIError,
        >(AuthAPIError::InvalidCredentials) && final(two_fa_code_store).codes() == old(two_fa_code_store).codes(),
        valid_email(request.email@) && request.password@.len() >= 8 && !(
        user_store.users().contains_key(request.email@) && user_store.users()[request.email@].0
            == request.password@) ==> r == Err::<
            (LoginResponse, Option<String>),
            AuthAPIError,
        >(AuthAPIError::IncorrectCredentials) && final(two_fa_code_store).codes() == old(two_fa_code_store).codes(),
        valid_email(request.email@) && request.password@.len() >= 8
            && user_store.users().contains_key(request.email@)
            && user_store.users()[request.email@].0 == request.password@
            && !user_store.users()[request.email@].1 ==> (r matches Ok(p) && p.0
            == LoginResponse::RegularAuth && (p.1 matches Some(tok) && tok@ == token_of(
            request.email@,
            (now + TOKEN_TTL_SECONDS) as nat,
        )) && final(two_fa_code_store).codes() == old(two_fa_code_store).codes()),
        valid_email(request.email@) && request.password@.len() >= 8
            && user_store.users().contains_key(request.email@)
            && user_store.users()[request.email@].0 == request.password@
            && user_store.users()[request.email@].1 ==> match r {
            Ok(p) => p.1 is None && (p.0 matches LoginResponse::TwoFactorAuth(t) && t.message@
                == "2FA required"@ && uuid_ok(t.login_attempt_id@) && exists|c: Seq<char>|
                valid_code(c) && final(two_fa_code_store).codes() == old(two_fa_code_store).codes().insert(request.email@, (t.login_attempt_id@, c))),
            Err(e) => e == AuthAPIError::UnexpectedError && exists|id: Seq<char>, c: Seq<char>|
                uuid_ok(id) && valid_code(c) && final(two_fa_code_store).codes() == old(two_fa_code_store).codes().insert(request.email@, (id, c)),
        },
{
    let email = match Email::parse(request.email.as_str()) {
        Ok(e) => e,
        Err(_) => {
            return Err(AuthAPIError::InvalidCredentials);
        },
    };
    let password = match Password::parse(request.password.as_str()) {
        Ok(p) => p,
        Err(_) => {
            return Err(AuthAPIError::InvalidCredentials);
        },
    };

    if user_store.validate_user(&email, &password).is_err() {
        return Err(AuthAPIError::IncorrectCredentials);
    }

    let user = match user_store.get_user(&email) {
        Ok(user) => user,
        Err(_) => {
            return Err(AuthAPIError::IncorrectCredentials);
        },
    };

    if user.requires_2fa {
        handle_2fa(&user.email, two_fa_code_store, email_client)
    } else {
        handle_no_2fa(&user.email, now)
    }
}

/// Stores a fresh challenge for the address, hands the code to the
/// notifier, and reports the challenge identifier to the caller.
fn handle_2fa<T: TwoFACodeStore, E: EmailClient>(
    email: &Email,
    two_fa_code_store: &mut T,
    email_client: &E,
) -> (r: Result<(LoginResponse, Option<String>), AuthAPIError>)
    ensures
        match r {
            Ok(p) => p.1 is None && (p.0 matches LoginResponse::TwoFactorAuth(t) && t.message@
                == "2FA required"@ && uuid_ok(t.login_attempt_id@) && exists|c: Seq<char>|
                valid_code(c) && final(two_fa_code_store).codes() == old(two_fa_code_store).codes().insert(email@, (t.login_attempt_id@, c))),
            Err(e) => e == AuthAPIError::UnexpectedError && exists|id: Seq<char>, c: Seq<char>|
                uuid_ok(id) && valid_code(c) && final(two_fa_code_store).codes() == old(two_fa_code_store).codes().insert(email@, (id, c)),
        },
{
    let login_attempt_id = LoginAttemptId::default();
    let two_fa_code = TwoFACode::default();

    match two_fa_code_store.add_code(email.clone(), login_attempt_id.clone(), two_fa_code.clone()) {
        Ok(_) => {},
        Err(_) => {
            return Err(AuthAPIError::UnexpectedError);
        },
    }

    match email_client.send_email(email, "Verification Code", two_fa_code.as_ref()) {
        Ok(_) => {},
        Err(_) => {
            return Err(AuthAPIError::UnexpectedError);
        },
    }

    Ok(
        (
            LoginResponse::TwoFactorAuth(
                TwoFactorAuthResponse {
                    message: "2FA required".to_owned(),
                    login_attempt_id: login_attempt_id.as_ref().to_owned(),
                },
            ),
            None,
        ),
    )
}

/// Mints a session token for an identity with no second factor.
fn handle_no_2fa(email: &Email, now: u64) -> (r: Result<
    (LoginResponse, Option<String>),
    AuthAPIError,
>)
    requires
        now + TOKEN_TTL_SECONDS <= u64::MAX,
    ensures
        r matches Ok(p) && p.0 == LoginResponse::RegularAuth && (p.1 matches Some(tok) && tok@
            == token_of(email@, (now + TOKEN_TTL_SECONDS) as nat)),
{
    let token = token::issue(email, now);
    Ok((LoginResponse::RegularAuth, Some(token)))
}

/// Redeems a stored challenge: an exact match on both identifier and
/// code mints a session token and consumes the challenge; any mismatch
/// leaves it untouched so the caller may retry.
///
/// The exclusive borrow of the store spans the whole get, compare and
/// remove, so redemption is a single critical section: two concurrent
/// attempts cannot both succeed against the same challenge.
pub fn verify_2fa<T: TwoFACodeStore>(
    two_fa_code_store: &mut T,
    request: Verify2FARequest,
    now: u64,
) -> (r: Result<String, AuthAPIError>)
    requires
        now + TOKEN_TTL_SECONDS <= u64::MAX,
    ensures
        !(valid_email(request.email@) && uuid_ok(request.login_attempt_id@) && valid_code(
            request.two_fa_code@,
        )) ==> r == Err::<String, AuthAPIError>(AuthAPIError::BadRequest) && final(two_fa_code_store).codes() == old(two_fa_code_store).codes(),
        valid_email(request.email@) && uuid_ok(request.login_attempt_id@) && valid_code(
            request.two_fa_code@,
        ) && !challenge_matches(
            old(two_fa_code_store).codes(),
            request.email@,
            uuid_canon(request.login_attempt_id@),
            request.two_fa_code@,
        ) ==> r == Err::<String, AuthAPIError>(AuthAPIError::IncorrectCredentials) && final(two_fa_code_store).codes() == old(two_fa_code_store).codes(),
        valid_email(request.email@) && uuid_ok(request.login_attempt_id@) && valid_code(
            request.two_fa_code@,
        ) && challenge_matches(
            old(two_fa_code_store).codes(),
            request.email@,
            uuid_canon(request.login_attempt_id@),
            request.two_fa_code@,
        ) ==> (r matches Ok(tok) && tok@ == token_of(
            request.email@,
            (now + TOKEN_TTL_SECONDS) as nat,
        ) && final(two_fa_code_store).codes() == old(two_fa_code_store).codes().remove(
            request.email@,
        )),
{
    let email = match Email::parse(request.email.as_str()) {
        Ok(e) => e,
        Err(_) => {
            return Err(AuthAPIError::BadRequest);
        },
    };
    let login_attempt_id = match LoginAttemptId::parse(request.login_attempt_id) {
        Ok(id) => id,
        Err(_) => {
            return Err(AuthAPIError::BadRequest);
        },
    };
    let two_fa_code = match TwoFACode::parse(request.two_fa_code) {
        Ok(code) => code,
        Err(_) => {
            return Err(AuthAPIError::BadRequest);
        },
    };

    let (attempt_id, code) = match two_fa_code_store.get_code(&email) {
        Ok(tuple) => tuple,
        Err(_) => {
            return Err(AuthAPIError::IncorrectCredentials);
        },
    };

    if login_attempt_id != attempt_id || two_fa_code != code {
        return Err(AuthAPIError::IncorrectCredentials);
    }

    let token = token::issue(&email, now);
    match two_fa_code_store.remove_code(&email) {
        Ok(_) => {},
        Err(_) => {
            return Err(AuthAPIError::UnexpectedError);
        },
    }
    Ok(token)
}

/// Revokes the session carried by the cookie value, if it still
/// verifies; the token string joins the revocation set for good.
pub fn logout<B: BannedTokenStore>(
    banned_token_store: &mut B,
    cookie: Option<&str>,
    now: u64,
) -> (r: Result<(), AuthAPIError>)
    ensures
        cookie is None ==> r == Err::<(), AuthAPIError>(AuthAPIError::MissingToken) && final(banned_token_store).tokens() == old(banned_token_store).tokens(),
        cookie matches Some(t) ==> {
            &&& old(banned_token_store).tokens().contains(t@) ==> r == Err::<(), AuthAPIError>(
                AuthAPIError::InvalidToken,
            ) && final(banned_token_store).tokens() == old(banned_token_store).tokens()
            &&& !old(banned_token_store).tokens().contains(t@) && !token_accepted(t@, now) ==> r
                == Err::<(), AuthAPIError>(AuthAPIError::InvalidToken) && final(banned_token_store).tokens() == old(banned_token_store).tokens()
            &&& !old(banned_token_store).tokens().contains(t@) && token_accepted(t@, now) ==> r
                == Ok::<(), AuthAPIError>(()) && final(banned_token_store).tokens() == old(banned_token_store).tokens().insert(t@)
        },
{
    let token = match cookie {
        Some(t) => t,
        None => {
            return Err(AuthAPIError::MissingToken);
        },
    };

    match token::verify(token, banned_token_store, now) {
        Ok(_claims) => {
            banned_token_store.add_token(token.to_owned()).unwrap();
            Ok(())
        },
        Err(_) => Err(AuthAPIError::InvalidToken),
    }
}

/// Pure token check for other services: consults the revocation set,
/// mutates nothing.
pub fn verify_token<B: BannedTokenStore>(
    banned_token_store: &B,
    request: VerifyToken,
    now: u64,
) -> (r: Result<(), AuthAPIError>)
    ensures
        banned_token_store.tokens().contains(request.token@) ==> r == Err::<(), AuthAPIError>(
            AuthAPIError::InvalidToken,
        ),
        !banned_token_store.tokens().contains(request.token@) && token_accepted(
            request.token@,
            now,
        ) ==> r == Ok::<(), AuthAPIError>(()),
        !banned_token_store.tokens().contains(request.token@) && !token_accepted(
            request.token@,
            now,
        ) ==> r == Err::<(), AuthAPIError>(AuthAPIError::InvalidToken),
{
    match token::verify(request.token.as_str(), banned_token_store, now) {
        Ok(_) => Ok(()),
        Err(_) => Err(AuthAPIError::InvalidToken),
    }
}

} // verus!
