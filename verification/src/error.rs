//! The error type reported by every stage of the compiler.

use vstd::prelude::*;

use crate::location::Location;

verus! {

/// A compilation error: where it happened, when known, and a message for
/// the user.
#[derive(Debug)]
pub struct CompilationError {
    pub location: Option<Location>,
    pub message: String,
}

impl CompilationError {
    pub fn new(location: &Location, message: String) -> (r: CompilationError)
        ensures
            r.location == Some(*location),
            r.message == message,
    {
        CompilationError { location: Some(*location), message }
    }
}

} // verus!
