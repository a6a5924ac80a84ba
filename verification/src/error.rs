use vstd::prelude::*;

verus! {

use vstd::string::StringExecFns;

/// What went wrong, at the granularity callers act on.
#[derive(Clone, Copy, PartialEq, Eq, Structural, Debug)]
pub enum GrowthbookErrorCode {
    ConfigError,
    TransportError,
    DecryptionError,
    ParseError,
}

/// An error of this library: its kind and a short message.
#[derive(Debug)]
pub struct GrowthbookError {
    pub code: GrowthbookErrorCode,
    pub message: String,
}

impl GrowthbookError {
    /// An error of the given kind with the given message.
    pub fn new(code: GrowthbookErrorCode, message: &str) -> (r: GrowthbookError)
        ensures
            r.code == code,
            r.message@ == message@,
    {
        GrowthbookError { code, message: String::from_str(message) }
    }

    /// The error's message.
    pub fn message_text(&self) -> (r: String)
        ensures
            r@ == self.message@,
    {
        self.message.clone()
    }
}

} // verus!
