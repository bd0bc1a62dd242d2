//! The structured form an error takes in JSON output mode: the top message
//! and the messages of its causes.

use vstd::prelude::*;

verus! {

/// An error as rendered for machine consumption: `{message, causes}`.
#[derive(Debug, PartialEq)]
pub struct Error {
    pub message: String,
    pub causes: Vec<String>,
}

impl Error {
    pub fn new(message: String, causes: Vec<String>) -> (r: Self)
        ensures
            r.message == message,
            r.causes == causes,
    {
        Error { message, causes }
    }
}

} // verus!
