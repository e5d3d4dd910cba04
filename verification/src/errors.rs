//! The public error taxonomy: every store or codec failure is translated
//! at the orchestrator boundary into one of these.

use vstd::prelude::*;

verus! {

#[derive(Debug, PartialEq)]
pub enum AuthAPIError {
    UserAlreadyExists,
    InvalidCredentials,
    UnexpectedError,
    BadRequest,
    IncorrectCredentials,
    MissingToken,
    InvalidToken,
}

} // verus!
