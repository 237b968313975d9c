use file_manager::error::{FileManagerError, FsError, IoErrorKind};

#[test]
fn messages_of_each_kind() {
    assert_eq!(FsError::PathNotAbsolute.describe(), "Path must be absolute");
    assert_eq!(FsError::InvalidPath.describe(), "Invalid path");
    assert_eq!(FsError::InvalidName.describe(), "Invalid name");
    assert_eq!(FsError::DirectoryTooDeep.describe(), "Directory depth exceeds maximum allowed");
    assert_eq!(FsError::Io("disk on fire".to_string()).describe(), "I/O error: disk on fire");
    assert_eq!(FsError::AccessDenied.describe(), "Access denied");
    assert_eq!(FsError::ReadDirectoryFailed.describe(), "Read directory failed");
    assert_eq!(FsError::FileTooLarge.describe(), "File too large");
    assert_eq!(FsError::NotFound.describe(), "Path not found");
    assert_eq!(FsError::AlreadyExists.describe(), "Already exists");
    assert_eq!(FsError::Internal.describe(), "Internal error");
    assert_eq!(FsError::Cancelled.describe(), "Operation cancelled");
    assert_eq!(FsError::InvalidSymlink.describe(), "Invalid symlink");
}

#[test]
fn public_message_withholds_io_detail() {
    let e = FsError::Io("/home/me/secret.txt: permission denied (os error 13)".to_string());
    assert_eq!(e.to_public_string(), "I/O error");
    assert_eq!(FsError::AccessDenied.to_public_string(), "Access denied");
    assert_eq!(FsError::FileTooLarge.to_public_string(), "File too large");
    assert_eq!(FsError::NotFound.to_public_string(), "Path not found");
}

#[test]
fn io_constructor_keeps_the_message() {
    assert_eq!(FsError::io("trash failed"), FsError::Io("trash failed".to_string()));
    assert_eq!(FsError::io(""), FsError::Io(String::new()));
}

#[test]
fn io_failures_map_by_kind() {
    assert_eq!(FsError::from_io(IoErrorKind::NotFound, "x", true), FsError::NotFound);
    assert_eq!(FsError::from_io(IoErrorKind::PermissionDenied, "x", false), FsError::AccessDenied);
    assert_eq!(FsError::from_io(IoErrorKind::AlreadyExists, "x", true), FsError::AlreadyExists);
    assert_eq!(
        FsError::from_io(IoErrorKind::Other, "broken pipe", true),
        FsError::Io("broken pipe".to_string())
    );
    assert_eq!(
        FsError::from_io(IoErrorKind::Other, "broken pipe", false),
        FsError::Io("operation failed".to_string())
    );
}

#[test]
fn application_errors_carry_their_detail() {
    let d = || "x".to_string();
    assert_eq!(FileManagerError::DirectoryNotFound(d()).describe(), "Directory not found: x");
    assert_eq!(FileManagerError::NotADirectory(d()).describe(), "Path is not a directory: x");
    assert_eq!(FileManagerError::ReadDirError(d()).describe(), "Failed to read directory: x");
    assert_eq!(FileManagerError::CreateDirError(d()).describe(), "Failed to create directory: x");
    assert_eq!(FileManagerError::CreateFileError(d()).describe(), "Failed to create file: x");
    assert_eq!(FileManagerError::DeleteError(d()).describe(), "Failed to delete: x");
    assert_eq!(FileManagerError::RenameError(d()).describe(), "Failed to rename: x");
    assert_eq!(FileManagerError::CopyError(d()).describe(), "Failed to copy: x");
    assert_eq!(FileManagerError::MoveError(d()).describe(), "Failed to move: x");
    assert_eq!(FileManagerError::ReadFileError(d()).describe(), "Failed to read file: x");
    assert_eq!(FileManagerError::InvalidPath(d()).describe(), "Invalid path: x");
    assert_eq!(FileManagerError::InvalidSourcePath.describe(), "Invalid source path");
    assert_eq!(FileManagerError::NotAbsolutePath(d()).describe(), "Path must be absolute: x");
    assert_eq!(FileManagerError::EmptyPath.describe(), "Empty path provided");
    assert_eq!(FileManagerError::SearchPathNotFound(d()).describe(), "Search path not found: x");
    assert_eq!(FileManagerError::JoinError(d()).describe(), "Join error: x");
    assert_eq!(FileManagerError::WatchError(d()).describe(), "Watch error: x");
    assert_eq!(FileManagerError::Cancelled.describe(), "Operation cancelled");
    assert_eq!(FileManagerError::IoError(d()).describe(), "IO error: x");
    assert_eq!(FileManagerError::io("disk"), FileManagerError::IoError("disk".to_string()));
}
