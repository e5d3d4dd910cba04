//! Store contracts and the one-time second-factor challenge primitives.
//!
//! The three traits give each pluggable store an abstract model — a map of
//! identities, a set of revoked token strings, a map of challenges — and
//! state every operation's effect on that model.

use rand::Rng;
use vstd::prelude::*;

use crate::user::{Email, Password, User};

verus! {

#[derive(Debug, PartialEq)]
pub enum UserStoreError {
    UserAlreadyExists,
    UserNotFound,
    InvalidCredentials,
    UnexpectedError,
}

#[derive(Debug, PartialEq)]
pub enum BannedTokenStoreError {
    UnexpectedError,
}

#[derive(Debug, PartialEq)]
pub enum TwoFACodeStoreError {
    LoginAttemptIdNotFound,
    UnexpectedError,
}

/// Contract for identity lookup, insertion and credential validation.
/// The model is a map from an address to the stored secret and
/// second-factor flag; one identity per address.
pub trait UserStore {
    spec fn users(&self) -> Map<Seq<char>, (Seq<char>, bool)>;

    /// Fails if and only if an identity with the same address already
    /// exists; never overwrites.
    fn add_user(&mut self, user: User) -> (r: Result<(), UserStoreError>)
        ensures
            old(self).users().contains_key(user.email@) ==> r == Err::<(), UserStoreError>(
                UserStoreError::UserAlreadyExists,
            ) && final(self).users() == old(self).users(),
            !old(self).users().contains_key(user.email@) ==> r == Ok::<(), UserStoreError>(())
                && final(self).users() == old(self).users().insert(
                user.email@,
                (user.password@, user.requires_2fa),
            ),
    ;

    /// Returns the stored identity for the address, or `UserNotFound`.
    fn get_user(&self, email: &Email) -> (r: Result<User, UserStoreError>)
        ensures
            self.users().contains_key(email@) ==> (r matches Ok(u) && u.email@ == email@
                && u.password@ == self.users()[email@].0 && u.requires_2fa
                == self.users()[email@].1),
            !self.users().contains_key(email@) ==> r == Err::<User, UserStoreError>(
                UserStoreError::UserNotFound,
            ),
    ;

    /// `UserNotFound` if no such address, `InvalidCredentials` if the
    /// secret does not match, success otherwise.
    fn validate_user(&self, email: &Email, password: &Password) -> (r: Result<
        (),
        UserStoreError,
    >)
        ensures
            !self.users().contains_key(email@) ==> r == Err::<(), UserStoreError>(
                UserStoreError::UserNotFound,
            ),
            self.users().contains_key(email@) && self.users()[email@].0 == password@ ==> r
                == Ok::<(), UserStoreError>(()),
            self.users().contains_key(email@) && self.users()[email@].0 != password@ ==> r
                == Err::<(), UserStoreError>(UserStoreError::InvalidCredentials),
    ;
}

/// Contract for the revocation set: membership of raw token strings.
/// Re-adding an already-banned token is redundant, not an error.
pub trait BannedTokenStore {
    spec fn tokens(&self) -> Set<Seq<char>>;

    fn add_token(&mut self, token: String) -> (r: Result<(), BannedTokenStoreError>)
        ensures
            r == Ok::<(), BannedTokenStoreError>(()),
            final(self).tokens() == old(self).tokens().insert(token@),
    ;

    fn is_banned_token(&self, token: &str) -> (r: Result<bool, BannedTokenStoreError>)
        ensures
            r == Ok::<bool, BannedTokenStoreError>(self.tokens().contains(token@)),
    ;
}

/// Contract for per-address one-time second-factor challenges: at most one
/// active challenge per address, and storing a new one replaces the old.
pub trait TwoFACodeStore {
    spec fn codes(&self) -> Map<Seq<char>, (Seq<char>, Seq<char>)>;

    /// Unconditionally replaces any challenge stored for the address:
    /// the latest login attempt wins.
    fn add_code(
        &mut self,
        email: Email,
        login_attempt_id: LoginAttemptId,
        code: TwoFACode,
    ) -> (r: Result<(), TwoFACodeStoreError>)
        ensures
            r == Ok::<(), TwoFACodeStoreError>(()),
            final(self).codes() == old(self).codes().insert(
                email@,
                (login_attempt_id@, code@),
            ),
    ;

    /// Removes the challenge for the address; fails if there is nothing
    /// to remove.
    fn remove_code(&mut self, email: &Email) -> (r: Result<(), TwoFACodeStoreError>)
        ensures
            old(self).codes().contains_key(email@) ==> r == Ok::<(), TwoFACodeStoreError>(())
                && final(self).codes() == old(self).codes().remove(email@),
            !old(self).codes().contains_key(email@) ==> r == Err::<(), TwoFACodeStoreError>(
                TwoFACodeStoreError::LoginAttemptIdNotFound,
            ) && final(self).codes() == old(self).codes(),
    ;

    /// Returns the challenge stored for the address, if any.
    fn get_code(&self, email: &Email) -> (r: Result<
        (LoginAttemptId, TwoFACode),
        TwoFACodeStoreError,
    >)
        ensures
            self.codes().contains_key(email@) ==> (r matches Ok(p) && p.0@
                == self.codes()[email@].0 && p.1@ == self.codes()[email@].1),
            !self.codes().contains_key(email@) ==> r == Err::<
                (LoginAttemptId, TwoFACode),
                TwoFACodeStoreError,
            >(TwoFACodeStoreError::LoginAttemptIdNotFound),
    ;
}

/// Whether the challenge map holds exactly the pair `(id, code)` for
/// `email` — the condition under which redemption succeeds.
pub open spec fn challenge_matches(
    codes: Map<Seq<char>, (Seq<char>, Seq<char>)>,
    email: Seq<char>,
    id: Seq<char>,
    code: Seq<char>,
) -> bool {
    codes.contains_key(email) && codes[email] == (id, code)
}

/// A new challenge stored for an address silently invalidates the old
/// one: after the overwrite, any pair other than the new pair is rejected
/// for that address.
pub proof fn lemma_challenge_overwrite_invalidates(
    codes: Map<Seq<char>, (Seq<char>, Seq<char>)>,
    email: Seq<char>,
    old_id: Seq<char>,
    old_code: Seq<char>,
    new_id: Seq<char>,
    new_code: Seq<char>,
)
    requires
        (old_id, old_code) != (new_id, new_code),
    ensures
        !challenge_matches(codes.insert(email, (new_id, new_code)), email, old_id, old_code),
        challenge_matches(codes.insert(email, (new_id, new_code)), email, new_id, new_code),
{
}

/// A challenge redeems at most once: after its removal, the very pair
/// that just matched no longer matches for that address.
pub proof fn lemma_challenge_single_use(
    codes: Map<Seq<char>, (Seq<char>, Seq<char>)>,
    email: Seq<char>,
    id: Seq<char>,
    code: Seq<char>,
)
    ensures
        !challenge_matches(codes.remove(email), email, id, code),
{
}

/// Whether uuid's `Uuid::parse_str` accepts the characters `s`.
/// The result depends on the characters alone.
pub uninterp spec fn uuid_ok(s: Seq<char>) -> bool;

/// The canonical hyphenated rendering of the UUID that `s` denotes,
/// a function of the characters alone.
pub uninterp spec fn uuid_canon(s: Seq<char>) -> Seq<char>;

/// Relies on `uuid::Uuid::parse_str` (accepts hexadecimal UUID forms,
/// with or without hyphens) and `uuid::Uuid::to_string` (renders the
/// parsed value canonically, hyphenated and lower-case). Parsing a
/// canonical rendering yields the same value again, so the canonical
/// form is a fixed point of the pair.
#[verifier::external_body]
fn uuid_normalize(id: &str) -> (r: Option<String>)
    ensures
        r is Some <==> uuid_ok(id@),
        r matches Some(c) ==> c@ == uuid_canon(id@) && uuid_ok(c@) && uuid_canon(c@) == c@,
{
    match uuid::Uuid::parse_str(id) {
        Ok(parsed) => Some(parsed.to_string()),
        Err(_) => None,
    }
}

/// Relies on `uuid::Uuid::new_v4` and `uuid::Uuid::to_string`: a fresh
/// random UUID rendered canonically; every such rendering parses again
/// and re-renders to itself.
#[verifier::external_body]
fn fresh_uuid_string() -> (r: String)
    ensures
        uuid_ok(r@),
        uuid_canon(r@) == r@,
{
    uuid::Uuid::new_v4().to_string()
}

/// An opaque random identifier tied to one login attempt, kept in its
/// canonical string form.
#[derive(Debug)]
pub struct LoginAttemptId(String);

impl View for LoginAttemptId {
    type V = Seq<char>;

    closed spec fn view(&self) -> Seq<char> {
        self.0@
    }
}

impl LoginAttemptId {
    /// Accepts exactly the strings that parse as a UUID, and stores the
    /// canonical rendering, which round-trips through `parse`.
    pub fn parse(id: String) -> (r: Result<Self, String>)
        ensures
            uuid_ok(id@) ==> (r matches Ok(l) && l@ == uuid_canon(id@) && uuid_ok(l@)
                && uuid_canon(l@) == l@),
            !uuid_ok(id@) ==> (r matches Err(m) && m@ == "Error parsing login id"@),
    {
        match uuid_normalize(id.as_str()) {
            Some(canonical) => Ok(Self(canonical)),
            None => Err("Error parsing login id".to_owned()),
        }
    }

    pub fn as_ref(&self) -> (r: &str)
        ensures
            r@ == self@,
    {
        self.0.as_str()
    }
}

impl Default for LoginAttemptId {
    /// A fresh random identifier, already in canonical form.
    fn default() -> (r: Self)
        ensures
            uuid_ok(r@),
            uuid_canon(r@) == r@,
    {
        Self(fresh_uuid_string())
    }
}

impl Clone for LoginAttemptId {
    fn clone(&self) -> (r: Self)
        ensures
            r == self,
    {
        Self(self.0.clone())
    }
}

impl PartialEq for LoginAttemptId {
    fn eq(&self, other: &Self) -> bool {
        self.0 == other.0
    }
}

impl vstd::std_specs::cmp::PartialEqSpecImpl for LoginAttemptId {
    open spec fn obeys_eq_spec() -> bool {
        true
    }

    open spec fn eq_spec(&self, other: &Self) -> bool {
        self@ == other@
    }
}

/// Whether `c` is an ASCII decimal digit.
pub open spec fn is_digit_char(c: char) -> bool {
    48 <= (c as u32) <= 57
}

/// Whether `s` is exactly six ASCII digits — the valid form of a
/// one-time second-factor code.
pub open spec fn valid_code(s: Seq<char>) -> bool {
    s.len() == 6 && forall|i: int| 0 <= i < s.len() ==> is_digit_char(#[trigger] s[i])
}

/// The character for the decimal digit `d`.
pub open spec fn spec_digit_char(d: int) -> char {
    if d == 0 {
        '0'
    } else if d == 1 {
        '1'
    } else if d == 2 {
        '2'
    } else if d == 3 {
        '3'
    } else if d == 4 {
        '4'
    } else if d == 5 {
        '5'
    } else if d == 6 {
        '6'
    } else if d == 7 {
        '7'
    } else if d == 8 {
        '8'
    } else {
        '9'
    }
}

/// The one-character string for the decimal digit `d`.
pub(crate) fn digit_str(d: u32) -> (r: &'static str)
    requires
        d < 10,
    ensures
        r@ == seq![spec_digit_char(d as int)],
{
    proof {
        reveal_strlit("0");
        reveal_strlit("1");
        reveal_strlit("2");
        reveal_strlit("3");
        reveal_strlit("4");
        reveal_strlit("5");
        reveal_strlit("6");
        reveal_strlit("7");
        reveal_strlit("8");
        reveal_strlit("9");
    }
    match d {
        0 => "0",
        1 => "1",
        2 => "2",
        3 => "3",
        4 => "4",
        5 => "5",
        6 => "6",
        7 => "7",
        8 => "8",
        _ => "9",
    }
}

/// Relies on rand's `thread_rng` and `Rng::gen_range`: a value drawn
/// uniformly from the given range; for this constant non-empty range,
/// some value below `1000000`.
#[verifier::external_body]
fn random_code_value() -> (r: u32)
    ensures
        r < 1_000_000,
{
    rand::thread_rng().gen_range(0..1_000_000)
}

/// A six-digit numeric one-time code, kept as a fixed-length digit
/// string.
#[derive(Debug)]
pub struct TwoFACode(String);

impl View for TwoFACode {
    type V = Seq<char>;

    closed spec fn view(&self) -> Seq<char> {
        self.0@
    }
}

impl TwoFACode {
    /// Accepts exactly the strings of six ASCII digits, and keeps the
    /// accepted string unchanged.
    pub fn parse(code: String) -> (r: Result<Self, String>)
        ensures
            valid_code(code@) ==> (r matches Ok(c) && c@ == code@),
            !valid_code(code@) ==> (r matches Err(m) && m@ == "invalid code used for 2fa"@),
    {
        let s = code.as_str();
        let n = s.unicode_len();
        if n != 6 {
            return Err("invalid code used for 2fa".to_owned());
        }
        let mut i: usize = 0;
        while i < 6
            invariant
                i <= 6,
                n == 6,
                s@ == code@,
                s@.len() == 6,
                forall|j: int| 0 <= j < i ==> is_digit_char(#[trigger] s@[j]),
            decreases 6 - i,
        {
            let c = s.get_char(i);
            let u = c as u32;
            if u < 48 || u > 57 {
                return Err("invalid code used for 2fa".to_owned());
            }
            i += 1;
        }
        Ok(Self(code))
    }

    pub fn as_ref(&self) -> (r: &str)
        ensures
            r@ == self@,
    {
        self.0.as_str()
    }
}

impl Default for TwoFACode {
    /// A fresh random six-digit code, zero-padded on the left, so
    /// leading zeros occur.
    fn default() -> (r: Self)
        ensures
            valid_code(r@),
    {
        let n = random_code_value();
        let mut s = String::new();
        let d5 = (n / 100_000) % 10;
        let d4 = (n / 10_000) % 10;
        let d3 = (n / 1_000) % 10;
        let d2 = (n / 100) % 10;
        let d1 = (n / 10) % 10;
        let d0 = n % 10;
        s.append(digit_str(d5));
        s.append(digit_str(d4));
        s.append(digit_str(d3));
        s.append(digit_str(d2));
        s.append(digit_str(d1));
        s.append(digit_str(d0));
        proof {
            assert forall|i: int| 0 <= i < s@.len() implies is_digit_char(#[trigger] s@[i]) by {
                assert(48 <= (spec_digit_char(d5 as int) as u32) <= 57);
                assert(48 <= (spec_digit_char(d4 as int) as u32) <= 57);
                assert(48 <= (spec_digit_char(d3 as int) as u32) <= 57);
                assert(48 <= (spec_digit_char(d2 as int) as u32) <= 57);
                assert(48 <= (spec_digit_char(d1 as int) as u32) <= 57);
                assert(48 <= (spec_digit_char(d0 as int) as u32) <= 57);
            }
        }
        Self(s)
    }
}

impl Clone for TwoFACode {
    fn clone(&self) -> (r: Self)
        ensures
            r == self,
    {
        Self(self.0.clone())
    }
}

impl PartialEq for TwoFACode {
    fn eq(&self, other: &Self) -> bool {
        self.0 == other.0
    }
}

impl vstd::std_specs::cmp::PartialEqSpecImpl for TwoFACode {
    open spec fn obeys_eq_spec() -> bool {
        true
    }

    open spec fn eq_spec(&self, other: &Self) -> bool {
        self@ == other@
    }
}

} // verus!
