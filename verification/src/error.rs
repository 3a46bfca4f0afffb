//! The failures that the engine reports to its callers.

use vstd::prelude::*;
use vstd::string::*;

verus! {

/// A recoverable failure.
#[derive(Debug)]
pub enum AppError {
    /// A file could not be read; the cause is kept as text.
    ReadError(String),
    /// A file could not be written; the cause is kept as text.
    WriteError(String),
    /// The file's extension names no format that can be loaded or stored.
    UnsupportedFormat,
    /// Any other failure, described by its text.
    Internal(String),
    /// An operation was attempted before a document was loaded.
    NoActiveDocument,
    /// Undo was asked for with an empty history.
    NothingToUndo,
    /// Redo was asked for with an empty redo stack.
    NothingToRedo,
    /// A structural operation named a target that cannot be changed, such as
    /// the last remaining sheet of a document.
    InvalidTarget,
}

/// What `AppError::message` returns for each error.
pub open spec fn message_of(e: AppError) -> Seq<char> {
    match e {
        AppError::ReadError(cause) => "Failed to read file: "@ + cause@,
        AppError::WriteError(cause) => "Failed to write file: "@ + cause@,
        AppError::UnsupportedFormat => "Unsupported file format"@,
        AppError::Internal(cause) => "Internal error: "@ + cause@,
        AppError::NoActiveDocument => "Internal error: No file loaded"@,
        AppError::NothingToUndo => "Internal error: Nothing to undo"@,
        AppError::NothingToRedo => "Internal error: Nothing to redo"@,
        AppError::InvalidTarget => "Internal error: Invalid structural target"@,
    }
}

impl AppError {
    /// The text shown to the user for this error.
    pub fn message(&self) -> (text: String)
        ensures
            text@ == message_of(*self),
    {
        match self {
            AppError::ReadError(cause) => String::from_str("Failed to read file: ").concat(
                cause.as_str(),
            ),
            AppError::WriteError(cause) => String::from_str("Failed to write file: ").concat(
                cause.as_str(),
            ),
            AppError::UnsupportedFormat => String::from_str("Unsupported file format"),
            AppError::Internal(cause) => String::from_str("Internal error: ").concat(
                cause.as_str(),
            ),
            AppError::NoActiveDocument => String::from_str("Internal error: No file loaded"),
            AppError::NothingToUndo => String::from_str("Internal error: Nothing to undo"),
            AppError::NothingToRedo => String::from_str("Internal error: Nothing to redo"),
            AppError::InvalidTarget => String::from_str(
                "Internal error: Invalid structural target",
            ),
        }
    }
}

} // verus!
