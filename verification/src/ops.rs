//! Create and rename planning: the checks that stand before a new entry is
//! made or an entry gets a new name.

use vstd::prelude::*;
use vstd::string::*;
use crate::config::SecurityConfig;
use crate::copy_move::{FileCopy, FileCopyView};
use crate::error::FsError;
use crate::path::{Platform, file_name, join, join_path, parent, path_file_name, path_parent};
use crate::validation::{
    check_sandbox, filename_ok, result_view, sandbox_decides, validate_filename,
    validate_path, validate_path_no_follow, validate_sandboxed, validate_sandboxed_no_follow,
    validated, validated_no_follow, EntryMeta,
};

verus! {

/// The two parts of the path of an entry to create.
#[derive(Debug, Clone, PartialEq, Eq)]
pub struct NewEntry {
    /// The directory that will hold the entry.
    pub parent: String,
    /// The name of the entry.
    pub name: String,
}

/// The parts of the path of an entry to create: `InvalidPath` for an empty
/// path and for one without a parent, `InvalidName` for one without a file
/// name or with a name that is no valid file name.
pub open spec fn new_entry_parts(path: Seq<char>, p: Platform) -> Result<
    (Seq<char>, Seq<char>),
    FsError,
> {
    if path.len() == 0 {
        Err(FsError::InvalidPath)
    } else {
        match parent(path, p) {
            None => Err(FsError::InvalidPath),
            Some(dir) => match file_name(path, p) {
                None => Err(FsError::InvalidName),
                Some(name) => if filename_ok(name, p) {
                    Ok((dir, name))
                } else {
                    Err(FsError::InvalidName)
                },
            },
        }
    }
}

/// Splits the path of an entry to create into its parent and its name, and
/// checks the name. This needs no file system and comes first.
pub fn split_new_entry(path: &str, p: Platform) -> (r: Result<NewEntry, FsError>)
    ensures
        match r {
            Ok(e) => new_entry_parts(path@, p) == Ok::<(Seq<char>, Seq<char>), FsError>(
                (e.parent@, e.name@),
            ),
            Err(e) => new_entry_parts(path@, p) == Err::<(Seq<char>, Seq<char>), FsError>(e),
        },
{
    if path.unicode_len() == 0 {
        return Err(FsError::InvalidPath);
    }
    let dir = match path_parent(path, p) {
        Some(d) => d,
        None => {
            return Err(FsError::InvalidPath);
        },
    };
    let name = match path_file_name(path, p) {
        Some(n) => n,
        None => {
            return Err(FsError::InvalidName);
        },
    };
    match validate_filename(name.as_str(), p) {
        Ok(_) => Ok(NewEntry { parent: dir, name }),
        Err(e) => Err(e),
    }
}

/// The outcome of validating the parent of a new entry. Follow-mode
/// validation decides where it succeeds. Where it fails, no-follow
/// validation takes over, and the parent must then exist and be a directory
/// when read through links.
pub open spec fn parent_validated(
    dir: Seq<char>,
    resolved: Option<Seq<char>>,
    link_exists: bool,
    target: Option<EntryMeta>,
    p: Platform,
) -> Result<Seq<char>, FsError> {
    match validated(dir, resolved, p) {
        Ok(v) => Ok(v),
        Err(_) => match validated_no_follow(dir, link_exists, p) {
            Err(e) => Err(e),
            Ok(v) => match target {
                None => Err(FsError::NotFound),
                Some(m) => if m.is_dir {
                    Ok(v)
                } else {
                    Err(FsError::InvalidPath)
                },
            },
        },
    }
}

/// Validate parent path with fallback to no-follow validation. `resolved`
/// is the canonical form of the parent where the file system gave one,
/// `link_exists` says whether its link-level metadata could be read, and
/// `target` is its metadata read through links.
pub fn validate_parent_path(
    dir: &str,
    resolved: Option<&str>,
    link_exists: bool,
    target: Option<EntryMeta>,
    p: Platform,
) -> (r: Result<String, FsError>)
    ensures
        result_view(r) == parent_validated(
            dir@,
            match resolved {
                Some(c) => Some(c@),
                None => None,
            },
            link_exists,
            target,
            p,
        ),
{
    match validate_path(dir, resolved, p) {
        Ok(v) => Ok(v),
        Err(_) => {
            let checked = match validate_path_no_follow(dir, link_exists, p) {
                Ok(v) => v,
                Err(e) => {
                    return Err(e);
                },
            };
            match target {
                None => Err(FsError::NotFound),
                Some(m) => if m.is_dir {
                    Ok(checked)
                } else {
                    Err(FsError::InvalidPath)
                },
            }
        },
    }
}

/// The path of a new entry named `name` in the validated directory `dir`:
/// the directory joined with the name, unless an entry stands there already.
pub open spec fn placed(dir: Seq<char>, name: Seq<char>, occupied: bool, p: Platform) -> Result<
    Seq<char>,
    FsError,
> {
    if occupied {
        Err(FsError::AlreadyExists)
    } else {
        Ok(join(dir, name, p))
    }
}

/// What the placing of a new entry promises of its outcome `out`: the
/// error of the parent's validation is passed on; a validated parent must
/// pass the sandbox; then an entry that stands at the new path already
/// gives `AlreadyExists`, and otherwise the new path is the outcome.
pub open spec fn placed_outcome(
    parent_result: Result<Seq<char>, FsError>,
    name: Seq<char>,
    occupied: bool,
    config: SecurityConfig,
    p: Platform,
    out: Result<Seq<char>, FsError>,
) -> bool {
    match parent_result {
        Err(e) => out == Err::<Seq<char>, FsError>(e),
        Ok(dir) => sandbox_decides(dir, config, p, out, placed(dir, name, occupied, p)),
    }
}

/// What the creation of an entry at `path` promises of its outcome `out`.
/// The path is split as [`new_entry_parts`] says, and its error is the
/// outcome. Otherwise the parent is validated and the entry placed as
/// [`placed_outcome`] says. `resolved`, `link_exists` and `target` are what
/// the file system says of the parent.
pub open spec fn created_outcome(
    path: Seq<char>,
    resolved: Option<Seq<char>>,
    link_exists: bool,
    target: Option<EntryMeta>,
    occupied: bool,
    config: SecurityConfig,
    p: Platform,
    out: Result<Seq<char>, FsError>,
) -> bool {
    match new_entry_parts(path, p) {
        Err(e) => out == Err::<Seq<char>, FsError>(e),
        Ok((dir, name)) => placed_outcome(
            parent_validated(dir, resolved, link_exists, target, p),
            name,
            occupied,
            config,
            p,
            out,
        ),
    }
}

/// Plans the creation of a directory at `path`. The path is split into
/// parent and name and the name is checked, before anything else is looked
/// at. Then the parent is validated with [`validate_parent_path`] and checked
/// against the sandbox. Then `occupied`, which says whether an entry stands
/// at the new path already, gives `AlreadyExists`. The result is the path at
/// which the directory is to be created.
pub fn create_directory_sync(
    path: &str,
    resolved: Option<&str>,
    link_exists: bool,
    target: Option<EntryMeta>,
    occupied: bool,
    config: &SecurityConfig,
    p: Platform,
) -> (r: Result<String, FsError>)
    ensures
        created_outcome(
            path@,
            match resolved {
                Some(c) => Some(c@),
                None => None,
            },
            link_exists,
            target,
            occupied,
            *config,
            p,
            result_view(r),
        ),
{
    let entry = match split_new_entry(path, p) {
        Ok(e) => e,
        Err(e) => {
            return Err(e);
        },
    };
    let dir = match validate_parent_path(entry.parent.as_str(), resolved, link_exists, target, p) {
        Ok(d) => d,
        Err(e) => {
            return Err(e);
        },
    };
    match check_sandbox(dir.as_str(), config, p) {
        Err(e) => Err(e),
        Ok(_) => {
            if occupied {
                Err(FsError::AlreadyExists)
            } else {
                Ok(join_path(dir.as_str(), entry.name.as_str(), p))
            }
        },
    }
}

/// Plans the creation of a file at `path`. The rules are those of
/// [`create_directory_sync`].
pub fn create_file_sync(
    path: &str,
    resolved: Option<&str>,
    link_exists: bool,
    target: Option<EntryMeta>,
    occupied: bool,
    config: &SecurityConfig,
    p: Platform,
) -> (r: Result<String, FsError>)
    ensures
        created_outcome(
            path@,
            match resolved {
                Some(c) => Some(c@),
                None => None,
            },
            link_exists,
            target,
            occupied,
            *config,
            p,
            result_view(r),
        ),
{
    create_directory_sync(path, resolved, link_exists, target, occupied, config, p)
}

/// `r` with its paths taken by their characters.
pub open spec fn rename_view(r: Result<FileCopy, FsError>) -> Result<FileCopyView, FsError> {
    match r {
        Ok(c) => Ok(c@),
        Err(e) => Err(e),
    }
}

/// The plan for renaming the validated path `from` to `new_name`: the new
/// path is the parent of `from` joined with the new name. A path without a
/// parent is invalid, and a new path at which an entry stands already gives
/// `AlreadyExists`.
pub open spec fn rename_plan(from: Seq<char>, new_name: Seq<char>, target_exists: bool, p: Platform) -> Result<
    FileCopyView,
    FsError,
> {
    match parent(from, p) {
        None => Err(FsError::InvalidPath),
        Some(dir) => if target_exists {
            Err(FsError::AlreadyExists)
        } else {
            Ok(FileCopyView { from, to: join(dir, new_name, p) })
        },
    }
}

/// What the planning of a rename promises of its outcome `out`. An invalid
/// new name gives `InvalidName` before anything else is looked at. Then the
/// old path is validated without following links, and the sandbox decides
/// on it. Then the plan is that of [`rename_plan`].
pub open spec fn rename_outcome(
    old_path: Seq<char>,
    old_exists: bool,
    new_name: Seq<char>,
    target_exists: bool,
    config: SecurityConfig,
    p: Platform,
    out: Result<FileCopyView, FsError>,
) -> bool {
    if !filename_ok(new_name, p) {
        out == Err::<FileCopyView, FsError>(FsError::InvalidName)
    } else {
        match validated_no_follow(old_path, old_exists, p) {
            Err(e) => out == Err::<FileCopyView, FsError>(e),
            Ok(from) => sandbox_decides(
                from,
                config,
                p,
                out,
                rename_plan(from, new_name, target_exists, p),
            ),
        }
    }
}

/// Plans a rename: the entry at `old_path` gets the name `new_name` in the
/// directory where it is. `old_exists` says whether link-level metadata
/// could be read for `old_path`, and `target_exists` whether an entry stands
/// at the new path already; then nothing is renamed and the result is
/// `AlreadyExists`. The entry that is renamed is the one at `old_path`
/// itself, a link and not its target.
pub fn rename_entry_sync(
    old_path: &str,
    old_exists: bool,
    new_name: &str,
    target_exists: bool,
    config: &SecurityConfig,
    p: Platform,
) -> (r: Result<FileCopy, FsError>)
    ensures
        rename_outcome(old_path@, old_exists, new_name@, target_exists, *config, p, rename_view(r)),
{
    match validate_filename(new_name, p) {
        Ok(_) => {},
        Err(e) => {
            return Err(e);
        },
    }
    let from = match validate_sandboxed_no_follow(old_path, old_exists, config, p) {
        Ok(v) => v,
        Err(e) => {
            return Err(e);
        },
    };
    let dir = match path_parent(from.as_str(), p) {
        Some(d) => d,
        None => {
            return Err(FsError::InvalidPath);
        },
    };
    if target_exists {
        return Err(FsError::AlreadyExists);
    }
    let to = join_path(dir.as_str(), new_name, p);
    Ok(FileCopy { from, to })
}

/// `r` with its path taken by its characters.
pub open spec fn parent_view(r: Result<Option<String>, FsError>) -> Result<Option<Seq<char>>, FsError> {
    match r {
        Ok(Some(d)) => Ok(Some(d@)),
        Ok(None) => Ok(None),
        Err(e) => Err(e),
    }
}

/// The parent of a path that is first validated in follow mode and checked
/// against the sandbox.
pub fn get_parent_path(
    path: &str,
    resolved: Option<&str>,
    config: &SecurityConfig,
    p: Platform,
) -> (r: Result<Option<String>, FsError>)
    ensures
        match validated(
            path@,
            match resolved {
                Some(c) => Some(c@),
                None => None,
            },
            p,
        ) {
            Err(e) => r == Err::<Option<String>, FsError>(e),
            Ok(c) => sandbox_decides(c, *config, p, parent_view(r), Ok(parent(c, p))),
        },
{
    match validate_sandboxed(path, resolved, config, p) {
        Err(e) => Err(e),
        Ok(checked) => Ok(path_parent(checked.as_str(), p)),
    }
}

} // verus!
