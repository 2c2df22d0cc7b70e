use vstd::prelude::*;

verus! {

/// The errors the account, authorization and domain operations report.
///
/// `Forbidden` deliberately covers both "the domain does not exist" and
/// "the domain is not yours" on mutation, so a caller cannot probe which
/// names exist. `Conflict` is a duplicate name at creation time.
/// `Internal` is a failure of a collaborator (hashing, token minting)
/// surfaced instead of a crash.
#[derive(Clone, Copy, Debug, PartialEq, Eq, Structural)]
pub enum ApiError {
    BadRequest,
    Unauthorized,
    Forbidden,
    Conflict,
    Internal,
}

impl ApiError {
    /// The HTTP status the transport sends for each error. Creation
    /// conflicts are reported as 403, leaking no more than "you cannot
    /// do this".
    pub open spec fn status_code(self) -> u16 {
        match self {
            ApiError::BadRequest => 400,
            ApiError::Unauthorized => 401,
            ApiError::Forbidden => 403,
            ApiError::Conflict => 403,
            ApiError::Internal => 500,
        }
    }

    pub fn status(&self) -> (c: u16)
        ensures
            c == self.status_code(),
    {
        match self {
            ApiError::BadRequest => 400,
            ApiError::Unauthorized => 401,
            ApiError::Forbidden => 403,
            ApiError::Conflict => 403,
            ApiError::Internal => 500,
        }
    }
}

} // verus!
