//! Errors of the system clipboard.

use vstd::prelude::*;
use vstd::string::*;

verus! {

/// Error type for clipboard operations.
#[derive(Debug)]
pub struct ClipboardError(String);

impl ClipboardError {
    /// The message the clipboard gave.
    pub closed spec fn message(&self) -> Seq<char> {
        self.0@
    }

    /// An error with the given message.
    pub fn new(message: String) -> (e: Self)
        ensures
            e.message() == message@,
    {
        ClipboardError(message)
    }

    /// The error as it is shown to a user: `ClipboardError: ` and the message.
    pub fn describe(&self) -> (r: String)
        ensures
            r@ == "ClipboardError: "@ + self.message(),
    {
        String::from_str("ClipboardError: ").concat(self.0.as_str())
    }
}

} // verus!
