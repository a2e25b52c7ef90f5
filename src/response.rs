//! Error codes of the service's answers.

use vstd::prelude::*;

verus! {

/// The kind of an error answer.
#[derive(Debug, Clone, Copy, PartialEq, Eq, Structural)]
pub enum ErrorCode {
    NotFound,
    InternalServerError,
    BadRequest,
    UnAuthorized,
    Forbidden,
    Conflict,
}

impl ErrorCode {
    /// The HTTP status of an answer with this code.
    pub fn status_code(self) -> (r: u16)
        ensures
            r == match self {
                ErrorCode::NotFound => 404u16,
                ErrorCode::InternalServerError => 500u16,
                ErrorCode::BadRequest => 400u16,
                ErrorCode::UnAuthorized => 401u16,
                ErrorCode::Forbidden => 403u16,
                ErrorCode::Conflict => 409u16,
            },
    {
        match self {
            ErrorCode::NotFound => 404,
            ErrorCode::InternalServerError => 500,
            ErrorCode::BadRequest => 400,
            ErrorCode::UnAuthorized => 401,
            ErrorCode::Forbidden => 403,
            ErrorCode::Conflict => 409,
        }
    }
}

} // verus!
