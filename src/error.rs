use vstd::prelude::*;

verus! {

/// What went wrong around a parse: the input argument is missing, names
/// neither a file nor a directory, or a file could not be read.
#[derive(Clone, Debug, PartialEq, Eq)]
pub enum CardinalErrorType {
    ArgumentError,
    ArgumentTypeMismatch,
    /// The path of the file that could not be read.
    FileRead(String),
}

/// An error with its kind and, where there is one, the underlying cause.
#[derive(Clone, Debug, PartialEq, Eq)]
pub struct CardinalError {
    pub error: CardinalErrorType,
    pub traceback: Option<String>,
}

} // verus!
