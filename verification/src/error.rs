//! What can go wrong in an operation of the bridge, and how it is told to
//! the user interface.

use vstd::prelude::*;
use vstd::string::*;

verus! {

/// The class of a failure.
#[derive(Clone, Copy, Debug, PartialEq, Eq, Structural)]
pub enum ErrorKind {
    /// What was asked for does not exist.
    NotFound,
    /// Something that exists could not be read.
    ReadError,
    /// Something could not be written.
    WriteError,
}

/// A failed operation. Where the operating system gave a reason, the error
/// carries its text unchanged.
#[derive(Clone, Debug, PartialEq, Eq)]
pub enum BridgeError {
    /// No entry of the file system has this path.
    PathNotFound { path: String },
    /// The user's home directory cannot be determined.
    HomeNotFound,
    /// The children of a directory could not be enumerated.
    DirectoryUnreadable { cause: String },
    /// A file could not be read as text.
    FileUnreadable { cause: String },
    /// A file could not be written.
    FileUnwritable { cause: String },
}

/// An error as a mathematical value.
pub enum ErrorView {
    PathNotFound { path: Seq<char> },
    HomeNotFound,
    DirectoryUnreadable { cause: Seq<char> },
    FileUnreadable { cause: Seq<char> },
    FileUnwritable { cause: Seq<char> },
}

impl View for BridgeError {
    type V = ErrorView;

    open spec fn view(&self) -> ErrorView {
        match *self {
            BridgeError::PathNotFound { path } => ErrorView::PathNotFound { path: path@ },
            BridgeError::HomeNotFound => ErrorView::HomeNotFound,
            BridgeError::DirectoryUnreadable { cause } => ErrorView::DirectoryUnreadable {
                cause: cause@,
            },
            BridgeError::FileUnreadable { cause } => ErrorView::FileUnreadable { cause: cause@ },
            BridgeError::FileUnwritable { cause } => ErrorView::FileUnwritable { cause: cause@ },
        }
    }
}

/// The class of each error.
pub open spec fn kind_of(error: ErrorView) -> ErrorKind {
    match error {
        ErrorView::PathNotFound { .. } => ErrorKind::NotFound,
        ErrorView::HomeNotFound => ErrorKind::NotFound,
        ErrorView::DirectoryUnreadable { .. } => ErrorKind::ReadError,
        ErrorView::FileUnreadable { .. } => ErrorKind::ReadError,
        ErrorView::FileUnwritable { .. } => ErrorKind::WriteError,
    }
}

/// The text shown for each error: a fixed opening that names the failed
/// operation, then the path or the system's reason as it was given.
pub open spec fn message_of(error: ErrorView) -> Seq<char> {
    match error {
        ErrorView::PathNotFound { path } => "Path does not exist: "@ + path,
        ErrorView::HomeNotFound => "Could not determine home directory"@,
        ErrorView::DirectoryUnreadable { cause } => "Failed to read directory: "@ + cause,
        ErrorView::FileUnreadable { cause } => "Failed to read file: "@ + cause,
        ErrorView::FileUnwritable { cause } => "Failed to write file: "@ + cause,
    }
}

impl BridgeError {
    /// The class of this error.
    pub fn kind(&self) -> (kind: ErrorKind)
        ensures
            kind == kind_of(self@),
    {
        match self {
            BridgeError::PathNotFound { .. } => ErrorKind::NotFound,
            BridgeError::HomeNotFound => ErrorKind::NotFound,
            BridgeError::DirectoryUnreadable { .. } => ErrorKind::ReadError,
            BridgeError::FileUnreadable { .. } => ErrorKind::ReadError,
            BridgeError::FileUnwritable { .. } => ErrorKind::WriteError,
        }
    }

    /// The text of this error, as the user interface shows it.
    pub fn message(&self) -> (text: String)
        ensures
            text@ == message_of(self@),
    {
        match self {
            BridgeError::PathNotFound { path } => {
                let mut text = String::from_str("Path does not exist: ");
                text.append(path.as_str());
                text
            },
            BridgeError::HomeNotFound => String::from_str("Could not determine home directory"),
            BridgeError::DirectoryUnreadable { cause } => {
                let mut text = String::from_str("Failed to read directory: ");
                text.append(cause.as_str());
                text
            },
            BridgeError::FileUnreadable { cause } => {
                let mut text = String::from_str("Failed to read file: ");
                text.append(cause.as_str());
                text
            },
            BridgeError::FileUnwritable { cause } => {
                let mut text = String::from_str("Failed to write file: ");
                text.append(cause.as_str());
                text
            },
        }
    }
}

} // verus!
