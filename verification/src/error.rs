use vstd::prelude::*;

verus! {

/// The terminal errors an operation of the service can end in.
///
/// `Unauthorized` covers a missing, malformed, tampered or expired session
/// token as well as a failed login; `Conflict` a duplicate registration;
/// `NotFound` a task id that does not exist for the calling owner;
/// `BadRequest` an update without a replacement title; `StoreUnavailable`
/// a failure of the backing store.
#[derive(Clone, Copy, Debug, PartialEq, Eq, Structural)]
pub enum ApiError {
    Unauthorized,
    Conflict,
    NotFound,
    BadRequest,
    StoreUnavailable,
}

impl ApiError {
    /// The HTTP status code each error is reported with at the boundary.
    pub fn status_code(&self) -> (code: u16)
        ensures
            code == match *self {
                ApiError::Unauthorized => 401u16,
                ApiError::Conflict => 400u16,
                ApiError::NotFound => 404u16,
                ApiError::BadRequest => 400u16,
                ApiError::StoreUnavailable => 500u16,
            },
    {
        match self {
            ApiError::Unauthorized => 401,
            ApiError::Conflict => 400,
            ApiError::NotFound => 404,
            ApiError::BadRequest => 400,
            ApiError::StoreUnavailable => 500,
        }
    }
}

} // verus!
