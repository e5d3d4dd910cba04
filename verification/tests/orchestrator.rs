use auth_service::data_stores::TwoFACodeStore;
use auth_service::email_client::{EmailClient, MockEmailClient};
use auth_service::errors::AuthAPIError;
use auth_service::hashmap_two_fa_code_store::HashmapTwoFACodeStore;
use auth_service::hashmap_user_store::HashmapUserStore;
use auth_service::hashset_banned_token_store::HashsetBannedTokenStore;
use auth_service::routes::{
    login, logout, signup, verify_2fa, verify_token, LoginRequest, LoginResponse, SignupRequest,
    Verify2FARequest, VerifyToken,
};
use auth_service::user::Email;

const NOW: u64 = 1_700_000_000;

struct FailingEmailClient;

impl EmailClient for FailingEmailClient {
    fn send_email(&self, _recipient: &Email, _subject: &str, _content: &str) -> Result<(), String> {
        Err("notifier unavailable".to_owned())
    }
}

#[test]
fn signup_creates_a_new_identity() {
    let mut users = HashmapUserStore::new();
    let response = signup(
        &mut users,
        SignupRequest {
            email: "test@email.com".to_owned(),
            password: "password123".to_owned(),
            requires_2fa: false,
        },
    )
    .unwrap();
    assert_eq!(response.message, "User created successfully!");
}

#[test]
fn signup_rejects_bad_input() {
    let mut users = HashmapUserStore::new();
    // not an email address
    let r = signup(
        &mut users,
        SignupRequest {
            email: "emailemail.com".to_owned(),
            password: "password123".to_owned(),
            requires_2fa: false,
        },
    );
    assert_eq!(r.unwrap_err(), AuthAPIError::BadRequest);
    // password shorter than eight characters
    let r = signup(
        &mut users,
        SignupRequest {
            email: "email@email.com".to_owned(),
            password: "pass".to_owned(),
            requires_2fa: false,
        },
    );
    assert_eq!(r.unwrap_err(), AuthAPIError::BadRequest);
}

#[test]
fn signup_existing_address_always_fails_and_never_overwrites() {
    let mut users = HashmapUserStore::new();
    let mut codes = HashmapTwoFACodeStore::new();
    signup(
        &mut users,
        SignupRequest {
            email: "a@x.com".to_owned(),
            password: "password123".to_owned(),
            requires_2fa: false,
        },
    )
    .unwrap();

    let r = signup(
        &mut users,
        SignupRequest {
            email: "a@x.com".to_owned(),
            password: "otherpassword".to_owned(),
            requires_2fa: true,
        },
    );
    assert_eq!(r.unwrap_err(), AuthAPIError::UserAlreadyExists);

    // the original identity is untouched: its password still logs in,
    // and no second factor is demanded
    let r = login(
        &users,
        &mut codes,
        &MockEmailClient,
        LoginRequest { email: "a@x.com".to_owned(), password: "password123".to_owned() },
        NOW,
    )
    .unwrap();
    assert!(matches!(r.0, LoginResponse::RegularAuth));
}

#[test]
fn login_login() {
    let mut users = HashmapUserStore::new();
    let mut codes = HashmapTwoFACodeStore::new();
    signup(
        &mut users,
        SignupRequest {
            email: "test@email.com".to_owned(),
            password: "password123".to_owned(),
            requires_2fa: true,
        },
    )
    .unwrap();

    let r = login(
        &users,
        &mut codes,
        &MockEmailClient,
        LoginRequest { email: "test@email.com".to_owned(), password: "password1234".to_owned() },
        NOW,
    );
    assert_eq!(r.unwrap_err(), AuthAPIError::IncorrectCredentials);
}

#[test]
fn login_should_return_400_if_invalid_input() {
    let users = HashmapUserStore::new();
    let mut codes = HashmapTwoFACodeStore::new();

    let r = login(
        &users,
        &mut codes,
        &MockEmailClient,
        LoginRequest { email: "emailemail.com".to_owned(), password: "password123".to_owned() },
        NOW,
    );
    assert_eq!(r.unwrap_err(), AuthAPIError::InvalidCredentials);

    let r = login(
        &users,
        &mut codes,
        &MockEmailClient,
        LoginRequest { email: "email@email.com".to_owned(), password: "pass".to_owned() },
        NOW,
    );
    assert_eq!(r.unwrap_err(), AuthAPIError::InvalidCredentials);
}

#[test]
fn should_return_200_if_valid_credentials_and_2fa_disabled() {
    let mut users = HashmapUserStore::new();
    let mut codes = HashmapTwoFACodeStore::new();
    signup(
        &mut users,
        SignupRequest {
            email: "a@x.com".to_owned(),
            password: "password123".to_owned(),
            requires_2fa: false,
        },
    )
    .unwrap();

    let (response, cookie) = login(
        &users,
        &mut codes,
        &MockEmailClient,
        LoginRequest { email: "a@x.com".to_owned(), password: "password123".to_owned() },
        NOW,
    )
    .unwrap();
    assert!(matches!(response, LoginResponse::RegularAuth));
    assert!(!cookie.expect("No auth cookie found").is_empty());
}

#[test]
fn should_return_206_if_valid_credentials_and_2fa_enabled() {
    let mut users = HashmapUserStore::new();
    let mut codes = HashmapTwoFACodeStore::new();
    signup(
        &mut users,
        SignupRequest {
            email: "b@x.com".to_owned(),
            password: "password123".to_owned(),
            requires_2fa: true,
        },
    )
    .unwrap();

    let (response, cookie) = login(
        &users,
        &mut codes,
        &MockEmailClient,
        LoginRequest { email: "b@x.com".to_owned(), password: "password123".to_owned() },
        NOW,
    )
    .unwrap();
    assert!(cookie.is_none());
    let two_fa = match response {
        LoginResponse::TwoFactorAuth(t) => t,
        LoginResponse::RegularAuth => panic!("expected a second-factor response"),
    };
    assert_eq!(two_fa.message, "2FA required");

    // the reported identifier is the stored one
    let email = Email::parse("b@x.com").unwrap();
    let (stored_id, stored_code) = codes.get_code(&email).unwrap();
    assert_eq!(stored_id.as_ref(), two_fa.login_attempt_id);

    // redeeming with the stored code attaches a session cookie
    let token = verify_2fa(
        &mut codes,
        Verify2FARequest {
            email: "b@x.com".to_owned(),
            login_attempt_id: two_fa.login_attempt_id,
            two_fa_code: stored_code.as_ref().to_owned(),
        },
        NOW,
    )
    .unwrap();
    assert!(!token.is_empty());
}

#[test]
fn verify_2fa_should_return_400_if_invalid_input() {
    let mut codes = HashmapTwoFACodeStore::new();
    let r = verify_2fa(
        &mut codes,
        Verify2FARequest {
            email: "b@x.com".to_owned(),
            login_attempt_id: "id".to_owned(),
            two_fa_code: "123456".to_owned(),
        },
        NOW,
    );
    assert_eq!(r.unwrap_err(), AuthAPIError::BadRequest);
}

#[test]
fn should_return_401_if_incorrect_credentials() {
    let mut users = HashmapUserStore::new();
    let mut codes = HashmapTwoFACodeStore::new();
    signup(
        &mut users,
        SignupRequest {
            email: "c@x.com".to_owned(),
            password: "password123".to_owned(),
            requires_2fa: true,
        },
    )
    .unwrap();

    let r = login(
        &users,
        &mut codes,
        &MockEmailClient,
        LoginRequest { email: "c@x.com".to_owned(), password: "wrong_password".to_owned() },
        NOW,
    );
    assert_eq!(r.unwrap_err(), AuthAPIError::IncorrectCredentials);
}

#[test]
fn should_return_401_if_old_code() {
    let mut users = HashmapUserStore::new();
    let mut codes = HashmapTwoFACodeStore::new();
    signup(
        &mut users,
        SignupRequest {
            email: "d@x.com".to_owned(),
            password: "password123".to_owned(),
            requires_2fa: true,
        },
    )
    .unwrap();
    let email = Email::parse("d@x.com").unwrap();
    let request = || LoginRequest { email: "d@x.com".to_owned(), password: "password123".to_owned() };

    // first login attempt
    let (response, _) = login(&users, &mut codes, &MockEmailClient, request(), NOW).unwrap();
    let first_attempt_id = match response {
        LoginResponse::TwoFactorAuth(t) => t.login_attempt_id,
        LoginResponse::RegularAuth => panic!("expected a second-factor response"),
    };
    let first_code = codes.get_code(&email).unwrap().1.as_ref().to_owned();

    // second login attempt overwrites the challenge
    let (response, _) = login(&users, &mut codes, &MockEmailClient, request(), NOW).unwrap();
    let second_attempt_id = match response {
        LoginResponse::TwoFactorAuth(t) => t.login_attempt_id,
        LoginResponse::RegularAuth => panic!("expected a second-factor response"),
    };
    let second_code = codes.get_code(&email).unwrap().1.as_ref().to_owned();

    // the first pair no longer verifies
    let r = verify_2fa(
        &mut codes,
        Verify2FARequest {
            email: "d@x.com".to_owned(),
            login_attempt_id: first_attempt_id,
            two_fa_code: first_code,
        },
        NOW,
    );
    assert_eq!(r.unwrap_err(), AuthAPIError::IncorrectCredentials);

    // the second pair does
    let r = verify_2fa(
        &mut codes,
        Verify2FARequest {
            email: "d@x.com".to_owned(),
            login_attempt_id: second_attempt_id,
            two_fa_code: second_code,
        },
        NOW,
    );
    assert!(r.is_ok());
}

#[test]
fn should_return_200_if_correct_code() {
    let mut users = HashmapUserStore::new();
    let mut codes = HashmapTwoFACodeStore::new();
    signup(
        &mut users,
        SignupRequest {
            email: "e@x.com".to_owned(),
            password: "password123".to_owned(),
            requires_2fa: true,
        },
    )
    .unwrap();
    let email = Email::parse("e@x.com").unwrap();

    let (response, _) = login(
        &users,
        &mut codes,
        &MockEmailClient,
        LoginRequest { email: "e@x.com".to_owned(), password: "password123".to_owned() },
        NOW,
    )
    .unwrap();
    let attempt_id = match response {
        LoginResponse::TwoFactorAuth(t) => t.login_attempt_id,
        LoginResponse::RegularAuth => panic!("expected a second-factor response"),
    };
    let code = codes.get_code(&email).unwrap().1.as_ref().to_owned();

    let token = verify_2fa(
        &mut codes,
        Verify2FARequest {
            email: "e@x.com".to_owned(),
            login_attempt_id: attempt_id,
            two_fa_code: code,
        },
        NOW,
    )
    .unwrap();
    assert!(!token.is_empty());
}

#[test]
fn should_return_401_if_same_code_twice() {
    let mut users = HashmapUserStore::new();
    let mut codes = HashmapTwoFACodeStore::new();
    signup(
        &mut users,
        SignupRequest {
            email: "f@x.com".to_owned(),
            password: "password123".to_owned(),
            requires_2fa: true,
        },
    )
    .unwrap();
    let email = Email::parse("f@x.com").unwrap();

    let (response, _) = login(
        &users,
        &mut codes,
        &MockEmailClient,
        LoginRequest { email: "f@x.com".to_owned(), password: "password123".to_owned() },
        NOW,
    )
    .unwrap();
    let attempt_id = match response {
        LoginResponse::TwoFactorAuth(t) => t.login_attempt_id,
        LoginResponse::RegularAuth => panic!("expected a second-factor response"),
    };
    let code = codes.get_code(&email).unwrap().1.as_ref().to_owned();

    // redemption succeeds exactly once
    let token = verify_2fa(
        &mut codes,
        Verify2FARequest {
            email: "f@x.com".to_owned(),
            login_attempt_id: attempt_id.clone(),
            two_fa_code: code.clone(),
        },
        NOW,
    )
    .unwrap();
    assert!(!token.is_empty());

    // an identical second redemption attempt fails
    let r = verify_2fa(
        &mut codes,
        Verify2FARequest {
            email: "f@x.com".to_owned(),
            login_attempt_id: attempt_id,
            two_fa_code: code,
        },
        NOW,
    );
    assert_eq!(r.unwrap_err(), AuthAPIError::IncorrectCredentials);
}

#[test]
fn login_reports_unexpected_error_when_notifier_fails() {
    let mut users = HashmapUserStore::new();
    let mut codes = HashmapTwoFACodeStore::new();
    signup(
        &mut users,
        SignupRequest {
            email: "g@x.com".to_owned(),
            password: "password123".to_owned(),
            requires_2fa: true,
        },
    )
    .unwrap();

    let r = login(
        &users,
        &mut codes,
        &FailingEmailClient,
        LoginRequest { email: "g@x.com".to_owned(), password: "password123".to_owned() },
        NOW,
    );
    assert_eq!(r.unwrap_err(), AuthAPIError::UnexpectedError);
    // the challenge was stored before the notifier was consulted
    let email = Email::parse("g@x.com").unwrap();
    assert!(codes.get_code(&email).is_ok());
}

#[test]
fn logout_without_a_cookie_is_a_missing_token() {
    let mut banned = HashsetBannedTokenStore::new();
    assert_eq!(logout(&mut banned, None, NOW).unwrap_err(), AuthAPIError::MissingToken);
}

#[test]
fn logout_then_reuse_always_fails() {
    let mut users = HashmapUserStore::new();
    let mut codes = HashmapTwoFACodeStore::new();
    let mut banned = HashsetBannedTokenStore::new();
    signup(
        &mut users,
        SignupRequest {
            email: "h@x.com".to_owned(),
            password: "password123".to_owned(),
            requires_2fa: false,
        },
    )
    .unwrap();

    let (_, cookie) = login(
        &users,
        &mut codes,
        &MockEmailClient,
        LoginRequest { email: "h@x.com".to_owned(), password: "password123".to_owned() },
        NOW,
    )
    .unwrap();
    let token = cookie.unwrap();

    // the token is valid before logout
    assert!(verify_token(&banned, VerifyToken { token: token.clone() }, NOW).is_ok());

    logout(&mut banned, Some(token.as_str()), NOW).unwrap();

    // once banned, the exact string always fails, though signature and
    // expiry are still valid
    assert_eq!(
        verify_token(&banned, VerifyToken { token: token.clone() }, NOW).unwrap_err(),
        AuthAPIError::InvalidToken
    );
    assert_eq!(
        logout(&mut banned, Some(token.as_str()), NOW).unwrap_err(),
        AuthAPIError::InvalidToken
    );
}

#[test]
fn verify_token_rejects_garbage() {
    let banned = HashsetBannedTokenStore::new();
    assert_eq!(
        verify_token(&banned, VerifyToken { token: "token".to_owned() }, NOW).unwrap_err(),
        AuthAPIError::InvalidToken
    );
}

#[test]
fn logout_rejects_an_invalid_cookie_value() {
    let mut banned = HashsetBannedTokenStore::new();
    assert_eq!(
        logout(&mut banned, Some("not-a-token"), NOW).unwrap_err(),
        AuthAPIError::InvalidToken
    );
}
