//! The rejections that processing one file, or a batch, can end in.

use vstd::prelude::*;
use vstd::string::*;

verus! {

/// Why a path was refused.
#[derive(Debug, Clone, Copy, PartialEq, Eq, Structural)]
pub enum PathError {
    TooLong,
    InvalidCharacter,
    AbsoluteNotAllowed,
    TraversalAttempt,
    ComponentTooLong,
    InvalidComponent,
    EscapesWorkingDirectory,
    SymlinkRefused,
}

/// Why no target time could be resolved.
#[derive(Debug, Clone, Copy, PartialEq, Eq, Structural)]
pub enum TimeError {
    InvalidTimestampFormat,
    TimestampTooLong,
    AmbiguousOrInvalidLocalTime,
    ReferenceFileUnreadable,
}

/// Which file-system operation failed.
#[derive(Debug, Clone, Copy, PartialEq, Eq, Structural)]
pub enum IoError {
    CreateFailed,
    MetadataReadFailed,
    SetTimesFailed,
}

/// Why processing one file failed.
#[derive(Debug, Clone, Copy, PartialEq, Eq, Structural)]
pub enum TouchError {
    Path(PathError),
    Time(TimeError),
    Io(IoError),
}

/// Why a whole batch was refused before any file was touched.
#[derive(Debug, Clone, Copy, PartialEq, Eq, Structural)]
pub enum BatchError {
    TooManyFiles,
}

impl PathError {
    /// The text shown to the user for this rejection.
    pub open spec fn text(self) -> Seq<char> {
        match self {
            PathError::TooLong => "Filename too long"@,
            PathError::InvalidCharacter => "Invalid characters in filename"@,
            PathError::AbsoluteNotAllowed => "Absolute paths are not allowed"@,
            PathError::TraversalAttempt => "Path traversal attempts are not allowed"@,
            PathError::ComponentTooLong => "Path component too long"@,
            PathError::InvalidComponent => "Invalid path component"@,
            PathError::EscapesWorkingDirectory => "Path resolves outside current directory"@,
            PathError::SymlinkRefused => "Refusing to operate on symbolic links"@,
        }
    }

    /// The message for this rejection.
    pub fn message(&self) -> (message: String)
        ensures
            message@ == self.text(),
    {
        match self {
            PathError::TooLong => String::from_str("Filename too long"),
            PathError::InvalidCharacter => String::from_str("Invalid characters in filename"),
            PathError::AbsoluteNotAllowed => String::from_str("Absolute paths are not allowed"),
            PathError::TraversalAttempt => String::from_str(
                "Path traversal attempts are not allowed",
            ),
            PathError::ComponentTooLong => String::from_str("Path component too long"),
            PathError::InvalidComponent => String::from_str("Invalid path component"),
            PathError::EscapesWorkingDirectory => String::from_str(
                "Path resolves outside current directory",
            ),
            PathError::SymlinkRefused => String::from_str("Refusing to operate on symbolic links"),
        }
    }
}

impl TimeError {
    /// The text shown to the user for this rejection.
    pub open spec fn text(self) -> Seq<char> {
        match self {
            TimeError::InvalidTimestampFormat => "Invalid timestamp format"@,
            TimeError::TimestampTooLong => "Timestamp too long"@,
            TimeError::AmbiguousOrInvalidLocalTime => "Invalid local datetime"@,
            TimeError::ReferenceFileUnreadable => "Failed to read reference file"@,
        }
    }

    /// The message for this rejection.
    pub fn message(&self) -> (message: String)
        ensures
            message@ == self.text(),
    {
        match self {
            TimeError::InvalidTimestampFormat => String::from_str("Invalid timestamp format"),
            TimeError::TimestampTooLong => String::from_str("Timestamp too long"),
            TimeError::AmbiguousOrInvalidLocalTime => String::from_str("Invalid local datetime"),
            TimeError::ReferenceFileUnreadable => String::from_str("Failed to read reference file"),
        }
    }
}

impl IoError {
    /// The text shown to the user for this failure.
    pub open spec fn text(self) -> Seq<char> {
        match self {
            IoError::CreateFailed => "Failed to create file"@,
            IoError::MetadataReadFailed => "Failed to read file metadata"@,
            IoError::SetTimesFailed => "Failed to set file times"@,
        }
    }

    /// The message for this failure.
    pub fn message(&self) -> (message: String)
        ensures
            message@ == self.text(),
    {
        match self {
            IoError::CreateFailed => String::from_str("Failed to create file"),
            IoError::MetadataReadFailed => String::from_str("Failed to read file metadata"),
            IoError::SetTimesFailed => String::from_str("Failed to set file times"),
        }
    }
}

impl TouchError {
    /// The text shown to the user: that of the rejection inside.
    pub open spec fn text(self) -> Seq<char> {
        match self {
            TouchError::Path(e) => e.text(),
            TouchError::Time(e) => e.text(),
            TouchError::Io(e) => e.text(),
        }
    }

    /// The message for this failure.
    pub fn message(&self) -> (message: String)
        ensures
            message@ == self.text(),
    {
        match self {
            TouchError::Path(e) => e.message(),
            TouchError::Time(e) => e.message(),
            TouchError::Io(e) => e.message(),
        }
    }
}

impl BatchError {
    /// The text shown to the user for this refusal.
    pub open spec fn text(self) -> Seq<char> {
        match self {
            BatchError::TooManyFiles => "Too many files specified (max 1000)"@,
        }
    }

    /// The message for this refusal.
    pub fn message(&self) -> (message: String)
        ensures
            message@ == self.text(),
    {
        match self {
            BatchError::TooManyFiles => String::from_str("Too many files specified (max 1000)"),
        }
    }
}

/// Two different failures never share a message: the text tells the kind.
pub proof fn lemma_messages_differ(a: TouchError, b: TouchError)
    requires
        a != b,
    ensures
        a.text() != b.text(),
{
    reveal_strlit("Filename too long");
    reveal_strlit("Invalid characters in filename");
    reveal_strlit("Absolute paths are not allowed");
    reveal_strlit("Path traversal attempts are not allowed");
    reveal_strlit("Path component too long");
    reveal_strlit("Invalid path component");
    reveal_strlit("Path resolves outside current directory");
    reveal_strlit("Refusing to operate on symbolic links");
    reveal_strlit("Invalid timestamp format");
    reveal_strlit("Timestamp too long");
    reveal_strlit("Invalid local datetime");
    reveal_strlit("Failed to read reference file");
    reveal_strlit("Failed to create file");
    reveal_strlit("Failed to read file metadata");
    reveal_strlit("Failed to set file times");
    let x = a.text();
    let y = b.text();
    if x.len() == y.len() {
        assert(x[0] != y[0] || x[5] != y[5] || x[8] != y[8]);
    }
}


} // verus!
