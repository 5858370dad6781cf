//! Error type surfaced at the library boundary.
//!
//! Exit codes follow the error kinds of the fitter: `2` for an invalid
//! configuration, `3` for missing or insufficient data, `4` for a failed
//! fit or computation.

use vstd::prelude::*;

verus! {

#[derive(Debug, Clone)]
pub struct AppError {
    exit_code: u8,
    message: String,
}

impl AppError {
    pub closed spec fn spec_exit_code(&self) -> u8 {
        self.exit_code
    }

    pub closed spec fn spec_message(&self) -> Seq<char> {
        self.message@
    }

    pub fn new(exit_code: u8, message: String) -> (r: Self)
        ensures
            r.spec_exit_code() == exit_code,
            r.spec_message() == message@,
    {
        AppError { exit_code, message }
    }

    pub fn exit_code(&self) -> (r: u8)
        ensures
            r == self.spec_exit_code(),
    {
        self.exit_code
    }

    /// The error text, for display by the caller.
    pub fn message(&self) -> (r: String)
        ensures
            r@ == self.spec_message(),
    {
        self.message.clone()
    }
}

} // verus!
