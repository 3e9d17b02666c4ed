//! The bot's own errors.
use vstd::prelude::*;

verus! {

/// An error of the bot's own.
#[derive(Debug, PartialEq, Eq, Structural, Clone, Copy)]
pub enum ErrorTypes {
    /// An uploaded file could not be turned into a sound.
    InvalidFile,
}

impl ErrorTypes {
    /// How the error is written.
    pub fn describe(&self) -> (res: &'static str)
        ensures
            res@ == "ErrorTypes: InvalidFile"@,
    {
        "ErrorTypes: InvalidFile"
    }
}

} // verus!
