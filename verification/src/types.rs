//! Common data types for file operations.

use vstd::prelude::*;
use vstd::string::*;
use crate::path::{Platform, extension, file_name, path_extension, path_file_name};
use crate::text::{lowercase, to_lowercase};
use crate::validation::{hidden, is_hidden, EntryMeta};

verus! {

/// A time stamp of a file, relative to the Unix epoch.
#[derive(Debug, Clone, Copy, PartialEq, Eq, Structural)]
pub enum FileTime {
    /// So many whole seconds after the epoch.
    SinceEpoch(u64),
    /// Some time before the epoch.
    BeforeEpoch,
}

/// The Unix timestamp of a time: its whole seconds after the epoch, as a
/// signed 64-bit number; none for a time before the epoch.
pub open spec fn timestamp(time: FileTime) -> Option<i64> {
    match time {
        FileTime::SinceEpoch(secs) => Some(secs as i64),
        FileTime::BeforeEpoch => None,
    }
}

/// The Unix timestamp of a time that may be unknown.
pub open spec fn timestamp_of(time: Option<FileTime>) -> Option<i64> {
    match time {
        Some(t) => timestamp(t),
        None => None,
    }
}

/// Converts a time to a Unix timestamp (seconds since epoch).
pub fn system_time_to_timestamp(time: FileTime) -> (r: Option<i64>)
    ensures
        r == timestamp(time),
        time matches FileTime::SinceEpoch(secs) ==> (secs <= i64::MAX ==> r is Some && r->0
            == secs),
{
    match time {
        FileTime::SinceEpoch(secs) => Some(
            #[verifier::truncate]
            (secs as i64),
        ),
        FileTime::BeforeEpoch => None,
    }
}

/// Converts a time that may be unknown to a Unix timestamp.
pub fn to_timestamp(time: Option<FileTime>) -> (r: Option<i64>)
    ensures
        r == timestamp_of(time),
{
    match time {
        Some(t) => system_time_to_timestamp(t),
        None => None,
    }
}

/// Represents a file or directory entry.
#[derive(Debug, Clone, PartialEq, Eq)]
pub struct FileEntry {
    pub name: String,
    /// The name in lowercase, for sorting and comparing without regard to case.
    pub name_lower: String,
    pub path: String,
    pub is_dir: bool,
    pub is_hidden: bool,
    /// Size in bytes; zero for anything but a regular file.
    pub size: u64,
    pub modified: Option<i64>,
    pub created: Option<i64>,
    /// The extension in lowercase.
    pub extension: Option<String>,
}

/// A [`FileEntry`] with its text as characters.
pub struct FileEntryView {
    pub name: Seq<char>,
    pub name_lower: Seq<char>,
    pub path: Seq<char>,
    pub is_dir: bool,
    pub is_hidden: bool,
    pub size: u64,
    pub modified: Option<i64>,
    pub created: Option<i64>,
    pub extension: Option<Seq<char>>,
}

impl View for FileEntry {
    type V = FileEntryView;

    open spec fn view(&self) -> FileEntryView {
        FileEntryView {
            name: self.name@,
            name_lower: self.name_lower@,
            path: self.path@,
            is_dir: self.is_dir,
            is_hidden: self.is_hidden,
            size: self.size,
            modified: self.modified,
            created: self.created,
            extension: match self.extension {
                Some(e) => Some(e@),
                None => None,
            },
        }
    }
}

/// The extension of the path in lowercase.
pub open spec fn lower_extension(path: Seq<char>, p: Platform) -> Option<Seq<char>> {
    match extension(path, p) {
        Some(e) => Some(lowercase(e)),
        None => None,
    }
}

/// The entry that a path and its metadata describe; none when the path has
/// no file name.
pub open spec fn entry_of(
    path: Seq<char>,
    meta: EntryMeta,
    modified: Option<FileTime>,
    created: Option<FileTime>,
    p: Platform,
) -> Option<FileEntryView> {
    match file_name(path, p) {
        None => None,
        Some(name) => Some(
            FileEntryView {
                name,
                name_lower: lowercase(name),
                path,
                is_dir: meta.is_dir,
                is_hidden: hidden(path, Some(meta.attributes), p),
                size: if meta.is_file {
                    meta.len
                } else {
                    0
                },
                modified: timestamp_of(modified),
                created: timestamp_of(created),
                extension: lower_extension(path, p),
            },
        ),
    }
}

/// Extracts the file extension as a lowercase string.
pub fn get_extension(path: &str, p: Platform) -> (ext: Option<String>)
    ensures
        match ext {
            Some(e) => Some(e@),
            None => None,
        } == lower_extension(path@, p),
{
    match path_extension(path, p) {
        Some(e) => Some(to_lowercase(e.as_str())),
        None => None,
    }
}

impl FileEntry {
    /// Create a FileEntry from a path with its metadata and time stamps.
    pub fn from_path(
        path: &str,
        meta: &EntryMeta,
        modified: Option<FileTime>,
        created: Option<FileTime>,
        p: Platform,
    ) -> (entry: Option<FileEntry>)
        ensures
            match entry {
                Some(e) => Some(e@),
                None => None,
            } == entry_of(path@, *meta, modified, created, p),
    {
        let name = match path_file_name(path, p) {
            Some(n) => n,
            None => {
                return None;
            },
        };
        let name_lower = to_lowercase(name.as_str());
        Some(
            FileEntry {
                name_lower,
                name,
                path: String::from_str(path),
                is_dir: meta.is_dir,
                is_hidden: is_hidden(path, Some(meta.attributes), p),
                size: if meta.is_file {
                    meta.len
                } else {
                    0
                },
                modified: to_timestamp(modified),
                created: to_timestamp(created),
                extension: get_extension(path, p),
            },
        )
    }

    /// Create a FileEntry from what a directory listing reports of one child.
    pub fn from_dir_entry(
        path: &str,
        meta: &EntryMeta,
        modified: Option<FileTime>,
        created: Option<FileTime>,
        p: Platform,
    ) -> (entry: Option<FileEntry>)
        ensures
            match entry {
                Some(e) => Some(e@),
                None => None,
            } == entry_of(path@, *meta, modified, created, p),
    {
        FileEntry::from_path(path, meta, modified, created, p)
    }
}

/// Information about a drive/volume.
#[derive(Debug, Clone, PartialEq, Eq)]
pub struct DriveInfo {
    pub name: String,
    pub path: String,
    pub total_space: u64,
    pub free_space: u64,
    pub drive_type: String,
    pub label: Option<String>,
}

/// Statistics about a directory.
#[derive(Debug, Clone, Copy, PartialEq, Eq, Structural)]
pub struct DirectoryStats {
    pub count: usize,
    pub exceeded_threshold: bool,
}

/// Progress information for copy operations.
#[derive(Debug, Clone, PartialEq, Eq)]
pub struct CopyProgress {
    pub current: usize,
    pub total: usize,
    pub file: String,
}

/// File system change event.
#[derive(Debug, Clone, PartialEq, Eq)]
pub struct FsChangeEvent {
    pub kind: String,
    pub paths: Vec<String>,
}

} // verus!
