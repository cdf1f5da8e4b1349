use vstd::prelude::*;

verus! {

/// Failures while ingesting mesh or texture data.
#[derive(Debug)]
pub enum FileError {
    /// The data handed in is not a well-formed asset.
    Invalid,
    /// The file is of a kind the loader does not read.
    WrongFile(String),
    /// Reading the file failed; the text is the system's message.
    IOError(String),
    /// A coordinate is not a number.
    Parse,
    /// An index is not a one-based whole number that fits the index type.
    ParseInt,
}

} // verus!
