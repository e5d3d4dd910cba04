//! Validated identity value types: an email-like address, a secret of at
//! least eight characters, and the identity record binding the two to a
//! second-factor requirement flag.

use vstd::prelude::*;

verus! {

/// Whether validator's `validate_email` accepts the characters `s`.
/// The result depends on the characters alone.
pub uninterp spec fn valid_email(s: Seq<char>) -> bool;

/// Relies on `validator::validate_email`: an HTML5-style syntactic email
/// check, a pure function of the input string.
#[verifier::external_body]
fn check_email(email: &str) -> (r: bool)
    ensures
        r == valid_email(email@),
{
    validator::validate_email(email)
}

/// Relies on `validator::validate_length` with only a minimum of 8 set:
/// it returns whether the string has at least 8 characters
/// (`chars().count()`, the length of the view).
#[verifier::external_body]
fn check_password_length(password: &str) -> (r: bool)
    ensures
        r == (password@.len() >= 8),
{
    validator::validate_length(password, Some(8), None, None)
}

/// A syntactically valid email address; the unique key for identities
/// and second-factor challenges.
#[derive(Debug)]
pub struct Email(String);

impl View for Email {
    type V = Seq<char>;

    closed spec fn view(&self) -> Seq<char> {
        self.0@
    }
}

impl Email {
    /// Accepts exactly the strings that pass the email check, and keeps
    /// the accepted string unchanged.
    pub fn parse(email: &str) -> (r: Result<Email, String>)
        ensures
            valid_email(email@) ==> (r matches Ok(e) && e@ == email@),
            !valid_email(email@) ==> (r matches Err(m) && m@ == "Invalid Email"@),
    {
        if check_email(email) {
            Ok(Email(email.to_owned()))
        } else {
            Err("Invalid Email".to_owned())
        }
    }

    pub fn as_ref(&self) -> (r: &str)
        ensures
            r@ == self@,
    {
        self.0.as_str()
    }
}

impl Clone for Email {
    fn clone(&self) -> (r: Self)
        ensures
            r == self,
    {
        Email(self.0.clone())
    }
}

impl PartialEq for Email {
    fn eq(&self, other: &Self) -> bool {
        self.0 == other.0
    }
}

impl vstd::std_specs::cmp::PartialEqSpecImpl for Email {
    open spec fn obeys_eq_spec() -> bool {
        true
    }

    open spec fn eq_spec(&self, other: &Self) -> bool {
        self@ == other@
    }
}

/// A secret of at least eight characters, stored and compared as the raw
/// value in this design.
#[derive(Debug)]
pub struct Password(String);

impl View for Password {
    type V = Seq<char>;

    closed spec fn view(&self) -> Seq<char> {
        self.0@
    }
}

impl Password {
    /// Accepts exactly the strings of at least eight characters, and keeps
    /// the accepted string unchanged.
    pub fn parse(password: &str) -> (r: Result<Password, String>)
        ensures
            password@.len() >= 8 ==> (r matches Ok(p) && p@ == password@),
            password@.len() < 8 ==> (r matches Err(m) && m@ == "Invalid Password"@),
    {
        if check_password_length(password) {
            Ok(Password(password.to_owned()))
        } else {
            Err("Invalid Password".to_owned())
        }
    }

    pub fn as_ref(&self) -> (r: &str)
        ensures
            r@ == self@,
    {
        self.0.as_str()
    }
}

impl Clone for Password {
    fn clone(&self) -> (r: Self)
        ensures
            r == self,
    {
        Password(self.0.clone())
    }
}

impl PartialEq for Password {
    fn eq(&self, other: &Self) -> bool {
        self.0 == other.0
    }
}

impl vstd::std_specs::cmp::PartialEqSpecImpl for Password {
    open spec fn obeys_eq_spec() -> bool {
        true
    }

    open spec fn eq_spec(&self, other: &Self) -> bool {
        self@ == other@
    }
}

/// The stored identity record: one per address.
#[derive(Debug)]
pub struct User {
    pub email: Email,
    pub password: Password,
    pub requires_2fa: bool,
}

impl User {
    pub fn new(email: Email, password: Password, requires_2fa: bool) -> (r: Self)
        ensures
            r.email == email,
            r.password == password,
            r.requires_2fa == requires_2fa,
    {
        Self { email, password, requires_2fa }
    }
}

impl Clone for User {
    fn clone(&self) -> (r: Self)
        ensures
            r == self,
    {
        User {
            email: self.email.clone(),
            password: self.password.clone(),
            requires_2fa: self.requires_2fa,
        }
    }
}

impl PartialEq for User {
    fn eq(&self, other: &Self) -> bool {
        self.email == other.email && self.password == other.password
            && self.requires_2fa == other.requires_2fa
    }
}

impl vstd::std_specs::cmp::PartialEqSpecImpl for User {
    open spec fn obeys_eq_spec() -> bool {
        true
    }

    open spec fn eq_spec(&self, other: &Self) -> bool {
        self@ == other@
    }
}

impl View for User {
    type V = (Seq<char>, Seq<char>, bool);

    open spec fn view(&self) -> (Seq<char>, Seq<char>, bool) {
        (self.email@, self.password@, self.requires_2fa)
    }
}

} // verus!
