//! The error that parsing reports.

use vstd::prelude::*;

verus! {

/// What an [`Error`] holds, as plain text.
pub struct ErrorView {
    /// The text that could not be parsed.
    pub format: Seq<char>,
    /// Why it could not be parsed.
    pub cause: Seq<char>,
}

/// A notation that could not be parsed, and the reason.
#[derive(Debug)]
pub struct Error {
    format: String,
    cause: String,
}

impl View for Error {
    type V = ErrorView;

    closed spec fn view(&self) -> ErrorView {
        ErrorView { format: self.format@, cause: self.cause@ }
    }
}

/// The cause given for a token that is no key.
pub open spec fn unsupported_key_format() -> Seq<char> {
    "unsupported key format"@
}

/// The cause given for a sequence that ends inside a bracket.
pub open spec fn invalid_format() -> Seq<char> {
    "invalid format"@
}

impl Error {
    /// Records the offending text and the cause.
    pub fn new(format: &str, cause: &str) -> (e: Error)
        ensures
            e@ == (ErrorView { format: format@, cause: cause@ }),
    {
        Error { format: format.to_owned(), cause: cause.to_owned() }
    }

    /// The text that could not be parsed.
    pub fn format(&self) -> (s: &str)
        ensures
            s@ == self@.format,
    {
        self.format.as_str()
    }

    /// Why the text could not be parsed.
    pub fn cause(&self) -> (s: &str)
        ensures
            s@ == self@.cause,
    {
        self.cause.as_str()
    }

    /// The error for a token that is no key.
    pub(crate) fn unsupported(text: &str) -> (e: Error)
        ensures
            e@ == (ErrorView { format: text@, cause: unsupported_key_format() }),
    {
        Error::new(text, "unsupported key format")
    }

    /// The error for a sequence that ends inside a bracket.
    pub(crate) fn unterminated(text: &str) -> (e: Error)
        ensures
            e@ == (ErrorView { format: text@, cause: invalid_format() }),
    {
        Error::new(text, "invalid format")
    }
}

} // verus!
