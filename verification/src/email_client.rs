//! The notification channel that delivers a second-factor code to the
//! user. The core only calls it with an address, a subject and the code,
//! and treats failure as non-fatal but reported; nothing more is promised
//! of an implementation.

use vstd::prelude::*;

use crate::user::Email;

verus! {

/// An outgoing message channel for second-factor codes.
pub trait EmailClient {
    fn send_email(&self, recipient: &Email, subject: &str, content: &str) -> (r: Result<
        (),
        String,
    >);
}

/// A channel that drops every message and reports success.
#[derive(Debug)]
pub struct MockEmailClient;

impl EmailClient for MockEmailClient {
    fn send_email(&self, _recipient: &Email, _subject: &str, _content: &str) -> (r: Result<
        (),
        String,
    >) {
        Ok(())
    }
}

} // verus!
