//! The error of the bridge.

use vstd::prelude::*;

verus! {

/// What went wrong in an operation. Every failure is told to the caller
/// and none ends the process.
#[derive(Clone, Debug, PartialEq, Eq)]
pub enum RobustMQError {
    /// A failure that is known by its message only: a remote call that did
    /// not go through, or a reply that could not be decoded.
    CommonError(String),
}

impl RobustMQError {
    /// The message of this error, for contracts.
    pub open spec fn message(&self) -> Seq<char> {
        match self {
            RobustMQError::CommonError(text) => text@,
        }
    }

    /// The message of this error.
    pub fn to_string(&self) -> (text: String)
        ensures
            text@ == self.message(),
    {
        match self {
            RobustMQError::CommonError(text) => text.clone(),
        }
    }
}

} // verus!
