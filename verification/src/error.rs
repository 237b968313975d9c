//! The error taxonomy of the file-system operations.

use vstd::prelude::*;
use vstd::string::*;

verus! {

/// Why a file-system operation was refused or failed.
#[derive(Debug, Clone, PartialEq, Eq)]
pub enum FsError {
    /// The path is relative.
    PathNotAbsolute,
    /// The path has a `..` component, does not resolve, or has no usable shape.
    InvalidPath,
    /// The file name is empty, reserved, or holds a forbidden character.
    InvalidName,
    /// A directory tree is nested deeper than the traversal limit.
    DirectoryTooDeep,
    /// Another I/O failure, with a message.
    Io(String),
    /// The path is outside the sandbox, or the system denied permission.
    AccessDenied,
    /// A directory could not be listed.
    ReadDirectoryFailed,
    /// A file exceeds the size limit of the operation.
    FileTooLarge,
    /// The entry does not exist.
    NotFound,
    /// The target already exists.
    AlreadyExists,
    /// A failure inside the backend: a poisoned lock, a lost worker.
    Internal,
    /// The operation was cancelled.
    Cancelled,
    /// A symbolic link that cannot be used.
    InvalidSymlink,
}

/// The kinds of I/O failure that the backend tells apart.
#[derive(Debug, Clone, Copy, PartialEq, Eq, Structural)]
pub enum IoErrorKind {
    NotFound,
    PermissionDenied,
    AlreadyExists,
    Other,
}

/// The message shown for an I/O failure whose detail is withheld.
pub open spec fn withheld_detail() -> Seq<char> {
    "operation failed"@
}

/// `e` is the error for a failed I/O call of the given kind. The three
/// kinds with a variant of their own map to it; any other becomes `Io`, with
/// `detail` when `diagnostic` is set and a fixed text otherwise.
pub open spec fn maps_io_failure(
    kind: IoErrorKind,
    detail: Seq<char>,
    diagnostic: bool,
    e: FsError,
) -> bool {
    match kind {
        IoErrorKind::NotFound => e == FsError::NotFound,
        IoErrorKind::PermissionDenied => e == FsError::AccessDenied,
        IoErrorKind::AlreadyExists => e == FsError::AlreadyExists,
        IoErrorKind::Other => e matches FsError::Io(d) && d@ == if diagnostic {
            detail
        } else {
            withheld_detail()
        },
    }
}

impl FsError {
    /// The full message of the error, detail included.
    pub open spec fn message(self) -> Seq<char> {
        match self {
            FsError::PathNotAbsolute => "Path must be absolute"@,
            FsError::InvalidPath => "Invalid path"@,
            FsError::InvalidName => "Invalid name"@,
            FsError::DirectoryTooDeep => "Directory depth exceeds maximum allowed"@,
            FsError::Io(detail) => "I/O error: "@ + detail@,
            FsError::AccessDenied => "Access denied"@,
            FsError::ReadDirectoryFailed => "Read directory failed"@,
            FsError::FileTooLarge => "File too large"@,
            FsError::NotFound => "Path not found"@,
            FsError::AlreadyExists => "Already exists"@,
            FsError::Internal => "Internal error"@,
            FsError::Cancelled => "Operation cancelled"@,
            FsError::InvalidSymlink => "Invalid symlink"@,
        }
    }

    /// The message that may cross to the front end: the kind of the error,
    /// never the detail of an I/O failure.
    pub open spec fn public_message(self) -> Seq<char> {
        match self {
            FsError::Io(_) => "I/O error"@,
            other => other.message(),
        }
    }

    /// The full message, for diagnostics.
    pub fn describe(&self) -> (s: String)
        ensures
            s@ == self.message(),
    {
        match self {
            FsError::PathNotAbsolute => String::from_str("Path must be absolute"),
            FsError::InvalidPath => String::from_str("Invalid path"),
            FsError::InvalidName => String::from_str("Invalid name"),
            FsError::DirectoryTooDeep => String::from_str(
                "Directory depth exceeds maximum allowed",
            ),
            FsError::Io(detail) => String::from_str("I/O error: ").concat(detail.as_str()),
            FsError::AccessDenied => String::from_str("Access denied"),
            FsError::ReadDirectoryFailed => String::from_str("Read directory failed"),
            FsError::FileTooLarge => String::from_str("File too large"),
            FsError::NotFound => String::from_str("Path not found"),
            FsError::AlreadyExists => String::from_str("Already exists"),
            FsError::Internal => String::from_str("Internal error"),
            FsError::Cancelled => String::from_str("Operation cancelled"),
            FsError::InvalidSymlink => String::from_str("Invalid symlink"),
        }
    }

    /// The message for the front end. An I/O failure is reported by its kind
    /// alone, so that no path and no text of the operating system leaks.
    pub fn to_public_string(&self) -> (s: String)
        ensures
            s@ == self.public_message(),
            !(self is Io) ==> s@ == self.message(),
    {
        match self {
            FsError::Io(_) => String::from_str("I/O error"),
            _ => self.describe(),
        }
    }

    /// An I/O error that carries `msg`.
    pub fn io(msg: &str) -> (e: FsError)
        ensures
            e matches FsError::Io(detail) && detail@ == msg@,
    {
        FsError::Io(String::from_str(msg))
    }

    /// The error for a failed I/O call. The three kinds with a variant of
    /// their own map to it; any other becomes `Io`, with `detail` when
    /// `diagnostic` is set and a fixed text otherwise.
    pub fn from_io(kind: IoErrorKind, detail: &str, diagnostic: bool) -> (e: FsError)
        ensures
            maps_io_failure(kind, detail@, diagnostic, e),
    {
        match kind {
            IoErrorKind::NotFound => FsError::NotFound,
            IoErrorKind::PermissionDenied => FsError::AccessDenied,
            IoErrorKind::AlreadyExists => FsError::AlreadyExists,
            IoErrorKind::Other => {
                if diagnostic {
                    FsError::Io(String::from_str(detail))
                } else {
                    FsError::Io(String::from_str("operation failed"))
                }
            },
        }
    }
}

/// Application-level errors with descriptive messages.
#[derive(Debug, Clone, PartialEq, Eq)]
pub enum FileManagerError {
    DirectoryNotFound(String),
    NotADirectory(String),
    ReadDirError(String),
    CreateDirError(String),
    CreateFileError(String),
    DeleteError(String),
    RenameError(String),
    CopyError(String),
    MoveError(String),
    ReadFileError(String),
    InvalidPath(String),
    InvalidSourcePath,
    NotAbsolutePath(String),
    EmptyPath,
    SearchPathNotFound(String),
    JoinError(String),
    WatchError(String),
    Cancelled,
    IoError(String),
}

impl FileManagerError {
    /// The message of the error: what went wrong, and the detail it carries.
    pub open spec fn message(self) -> Seq<char> {
        match self {
            FileManagerError::DirectoryNotFound(d) => "Directory not found: "@ + d@,
            FileManagerError::NotADirectory(d) => "Path is not a directory: "@ + d@,
            FileManagerError::ReadDirError(d) => "Failed to read directory: "@ + d@,
            FileManagerError::CreateDirError(d) => "Failed to create directory: "@ + d@,
            FileManagerError::CreateFileError(d) => "Failed to create file: "@ + d@,
            FileManagerError::DeleteError(d) => "Failed to delete: "@ + d@,
            FileManagerError::RenameError(d) => "Failed to rename: "@ + d@,
            FileManagerError::CopyError(d) => "Failed to copy: "@ + d@,
            FileManagerError::MoveError(d) => "Failed to move: "@ + d@,
            FileManagerError::ReadFileError(d) => "Failed to read file: "@ + d@,
            FileManagerError::InvalidPath(d) => "Invalid path: "@ + d@,
            FileManagerError::InvalidSourcePath => "Invalid source path"@,
            FileManagerError::NotAbsolutePath(d) => "Path must be absolute: "@ + d@,
            FileManagerError::EmptyPath => "Empty path provided"@,
            FileManagerError::SearchPathNotFound(d) => "Search path not found: "@ + d@,
            FileManagerError::JoinError(d) => "Join error: "@ + d@,
            FileManagerError::WatchError(d) => "Watch error: "@ + d@,
            FileManagerError::Cancelled => "Operation cancelled"@,
            FileManagerError::IoError(d) => "IO error: "@ + d@,
        }
    }

    /// The message of the error.
    pub fn describe(&self) -> (s: String)
        ensures
            s@ == self.message(),
    {
        match self {
            FileManagerError::DirectoryNotFound(d) => String::from_str(
                "Directory not found: ",
            ).concat(d.as_str()),
            FileManagerError::NotADirectory(d) => String::from_str(
                "Path is not a directory: ",
            ).concat(d.as_str()),
            FileManagerError::ReadDirError(d) => String::from_str(
                "Failed to read directory: ",
            ).concat(d.as_str()),
            FileManagerError::CreateDirError(d) => String::from_str(
                "Failed to create directory: ",
            ).concat(d.as_str()),
            FileManagerError::CreateFileError(d) => String::from_str(
                "Failed to create file: ",
            ).concat(d.as_str()),
            FileManagerError::DeleteError(d) => String::from_str("Failed to delete: ").concat(
                d.as_str(),
            ),
            FileManagerError::RenameError(d) => String::from_str("Failed to rename: ").concat(
                d.as_str(),
            ),
            FileManagerError::CopyError(d) => String::from_str("Failed to copy: ").concat(
                d.as_str(),
            ),
            FileManagerError::MoveError(d) => String::from_str("Failed to move: ").concat(
                d.as_str(),
            ),
            FileManagerError::ReadFileError(d) => String::from_str("Failed to read file: ").concat(
                d.as_str(),
            ),
            FileManagerError::InvalidPath(d) => String::from_str("Invalid path: ").concat(
                d.as_str(),
            ),
            FileManagerError::InvalidSourcePath => String::from_str("Invalid source path"),
            FileManagerError::NotAbsolutePath(d) => String::from_str(
                "Path must be absolute: ",
            ).concat(d.as_str()),
            FileManagerError::EmptyPath => String::from_str("Empty path provided"),
            FileManagerError::SearchPathNotFound(d) => String::from_str(
                "Search path not found: ",
            ).concat(d.as_str()),
            FileManagerError::JoinError(d) => String::from_str("Join error: ").concat(d.as_str()),
            FileManagerError::WatchError(d) => String::from_str("Watch error: ").concat(d.as_str()),
            FileManagerError::Cancelled => String::from_str("Operation cancelled"),
            FileManagerError::IoError(d) => String::from_str("IO error: ").concat(d.as_str()),
        }
    }

    /// The error for a failed I/O call, with the message of the failure.
    pub fn io(detail: &str) -> (e: FileManagerError)
        ensures
            e matches FileManagerError::IoError(d) && d@ == detail@,
    {
        FileManagerError::IoError(String::from_str(detail))
    }
}

} // verus!
