use vstd::prelude::*;

verus! {

/// The three failure classes the inventory engine reports: an unexpected
/// internal failure, a missing entity under the caller's tenant scope, and a
/// request that violates a business rule.
#[derive(Clone, Copy, PartialEq, Eq, Structural, Debug)]
pub enum ErrorKind {
    InternalServerError,
    NotFound,
    FailedAction,
}

/// An application-level error: a descriptive message paired with its kind.
#[derive(Debug)]
pub struct AppError {
    pub message: String,
    pub kind: ErrorKind,
}

impl AppError {
    pub fn new(msg: &str, err_kind: ErrorKind) -> (r: Self)
        ensures
            r.message@ == msg@,
            r.kind == err_kind,
    {
        Self { message: msg.to_owned(), kind: err_kind }
    }

    pub fn description(&self) -> (r: &String)
        ensures
            r@ == self.message@,
    {
        &self.message
    }
}

} // verus!
