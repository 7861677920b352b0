use vstd::prelude::*;

verus! {

/// A transport-facing error classification for the request boundary.
#[derive(Clone, Copy, PartialEq, Eq, Structural, Debug)]
pub enum APIError {
    CreationFailure,
    NotFound,
    UpdateFailure,
    BadRequest,
}

impl APIError {
    pub fn message(&self) -> (r: String)
        ensures
            r@ == (match *self {
                APIError::CreationFailure => "cannot create document"@,
                APIError::NotFound => "document not found"@,
                APIError::UpdateFailure => "cannot update document"@,
                APIError::BadRequest => "bad request"@,
            }),
    {
        match self {
            APIError::CreationFailure => String::from_str("cannot create document"),
            APIError::NotFound => String::from_str("document not found"),
            APIError::UpdateFailure => String::from_str("cannot update document"),
            APIError::BadRequest => String::from_str("bad request"),
        }
    }
}

} // verus!
