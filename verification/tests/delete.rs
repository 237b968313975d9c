use file_manager::config::SecurityConfig;
use file_manager::copy_move::{ChildEntry, ProbedSource};
use file_manager::delete::{
    delete_entries_sync, delete_entry, delete_permanent, DeleteAction, DeleteFrame, DeleteStep,
    DeleteWalker, PlannedRemoval, Removal,
};
use file_manager::error::FsError;
use file_manager::path::Platform;
use file_manager::validation::EntryMeta;
use std::collections::BTreeMap;

const P: Platform = Platform::Unix;

fn file() -> EntryMeta {
    EntryMeta { is_dir: false, is_file: true, is_symlink: false, len: 1, attributes: 0 }
}

fn dir() -> EntryMeta {
    EntryMeta { is_dir: true, is_file: false, is_symlink: false, len: 0, attributes: 0 }
}

fn link() -> EntryMeta {
    EntryMeta { is_dir: false, is_file: false, is_symlink: true, len: 0, attributes: 0 }
}

fn child(name: &str, meta: EntryMeta) -> ChildEntry {
    ChildEntry { name: name.to_string(), meta }
}

/// Removes a tree given as listings by directory. Returns the removals in
/// the order in which they are made; a directory ends in `/`.
fn remove_tree(
    root: &str,
    tree: &BTreeMap<String, Vec<ChildEntry>>,
    p: Platform,
) -> Result<Vec<String>, FsError> {
    let mut walker = DeleteWalker::new(root);
    let mut log = Vec::new();
    loop {
        match walker.next_step()? {
            DeleteStep::Done => return Ok(log),
            DeleteStep::RemoveDir(path) => log.push(format!("{}/", path)),
            DeleteStep::List(frame) => {
                let listing = tree.get(&frame.path).cloned().unwrap_or_default();
                for r in walker.absorb(&frame, &listing, p) {
                    log.push(if r.as_dir { format!("{}/", r.path) } else { r.path });
                }
            }
        }
    }
}

fn sandbox() -> SecurityConfig {
    SecurityConfig { allowed_roots: vec!["/t".to_string()], denied_patterns: vec![] }
}

fn source(path: &str, meta: EntryMeta) -> ProbedSource {
    ProbedSource { path: path.to_string(), meta: Some(meta) }
}

fn planned(path: &str, action: DeleteAction) -> PlannedRemoval {
    PlannedRemoval { path: path.to_string(), action }
}

#[test]
fn delete_file_permanently() {
    assert_eq!(
        delete_entries_sync(&vec![source("/t/test.txt", file())], true, &sandbox(), P),
        Ok(vec![planned("/t/test.txt", DeleteAction::RemoveFile)])
    );
}

#[test]
fn delete_directory_permanently() {
    assert_eq!(
        delete_entries_sync(&vec![source("/t/subdir", dir())], true, &sandbox(), P),
        Ok(vec![planned("/t/subdir", DeleteAction::RemoveTree)])
    );
    let mut tree = BTreeMap::new();
    tree.insert("/t/subdir".to_string(), vec![child("file.txt", file())]);
    assert_eq!(
        remove_tree("/t/subdir", &tree, P),
        Ok(vec!["/t/subdir/file.txt".to_string(), "/t/subdir/".to_string()])
    );
}

#[test]
fn delete_symlink_does_not_follow() {
    // The link lies inside the sandbox and points to a file outside of it.
    // What is removed is the link itself, as a file: its target is left alone.
    assert_eq!(
        delete_entries_sync(&vec![source("/t/link", link())], true, &sandbox(), P),
        Ok(vec![planned("/t/link", DeleteAction::RemoveFile)])
    );
}

#[test]
fn deletion_is_planned_for_the_whole_batch_or_not_at_all() {
    let all = vec![source("/t/a", file()), source("/t/d", dir()), source("/t/l", link())];
    assert_eq!(
        delete_entries_sync(&all, false, &sandbox(), P),
        Ok(vec![
            planned("/t/a", DeleteAction::Trash),
            planned("/t/d", DeleteAction::Trash),
            planned("/t/l", DeleteAction::Trash),
        ])
    );
    assert_eq!(
        delete_entries_sync(&all, true, &sandbox(), P),
        Ok(vec![
            planned("/t/a", DeleteAction::RemoveFile),
            planned("/t/d", DeleteAction::RemoveTree),
            planned("/t/l", DeleteAction::RemoveFile),
        ])
    );
    let outside = vec![source("/t/a", file()), source("/etc/passwd", file())];
    assert_eq!(delete_entries_sync(&outside, true, &sandbox(), P), Err(FsError::AccessDenied));
    let gone = vec![ProbedSource { path: "/t/gone".to_string(), meta: None }, source("/etc/x", file())];
    assert_eq!(delete_entries_sync(&gone, true, &sandbox(), P), Err(FsError::InvalidPath));
    let relative = vec![source("t/a", file())];
    assert_eq!(delete_entries_sync(&relative, true, &sandbox(), P), Err(FsError::PathNotAbsolute));
    assert_eq!(delete_entries_sync(&Vec::new(), true, &sandbox(), P), Ok(vec![]));
}

#[test]
fn delete_does_not_follow_symlinks() {
    // A link to a directory is removed as a file and never walked.
    let dir_link = EntryMeta { is_dir: true, is_file: false, is_symlink: true, len: 0, attributes: 0 };
    assert_eq!(delete_permanent(&dir_link, P), DeleteAction::RemoveFile);
    assert_eq!(delete_permanent(&link(), P), DeleteAction::RemoveFile);
    assert_ne!(delete_permanent(&dir_link, Platform::Windows), DeleteAction::RemoveTree);
}

#[test]
fn delete_plan_by_kind() {
    assert_eq!(delete_entry(None, true, P), DeleteAction::Skip);
    assert_eq!(delete_entry(None, false, P), DeleteAction::Skip);
    assert_eq!(delete_entry(Some(file()), false, P), DeleteAction::Trash);
    assert_eq!(delete_entry(Some(dir()), false, P), DeleteAction::Trash);
    assert_eq!(delete_entry(Some(link()), false, P), DeleteAction::Trash);
    let junction =
        EntryMeta { is_dir: true, is_file: false, is_symlink: false, len: 0, attributes: 0x410 };
    let file_reparse =
        EntryMeta { is_dir: false, is_file: true, is_symlink: false, len: 0, attributes: 0x400 };
    assert_eq!(delete_permanent(&junction, Platform::Windows), DeleteAction::RemoveDir);
    assert_eq!(delete_permanent(&file_reparse, Platform::Windows), DeleteAction::RemoveFile);
    // Elsewhere the attribute bits mean nothing.
    assert_eq!(delete_permanent(&junction, Platform::Unix), DeleteAction::RemoveTree);
}

#[test]
fn tree_removal_empties_directories_before_it_removes_them() {
    let mut tree = BTreeMap::new();
    tree.insert(
        "/t".to_string(),
        vec![child("a", dir()), child("f", file()), child("l", link()), child("b", dir())],
    );
    tree.insert("/t/a".to_string(), vec![child("x", file()), child("deep", dir())]);
    tree.insert("/t/a/deep".to_string(), vec![child("y", file())]);
    tree.insert("/t/b".to_string(), vec![]);
    tree.insert("/t/l".to_string(), vec![child("never", file())]);
    let log = remove_tree("/t", &tree, P).unwrap();
    assert_eq!(
        log,
        vec!["/t/f", "/t/l", "/t/b/", "/t/a/x", "/t/a/deep/y", "/t/a/deep/", "/t/a/", "/t/"]
    );
    // Every directory is removed after all that lies below it.
    for (i, entry) in log.iter().enumerate() {
        if entry.ends_with('/') {
            assert!(log[i + 1..].iter().all(|later| !later.starts_with(entry.as_str())));
        }
    }
    assert!(!log.iter().any(|e| e.contains("never")));
}

#[test]
fn directory_link_on_windows_is_removed_as_a_directory() {
    let junction =
        EntryMeta { is_dir: true, is_file: false, is_symlink: false, len: 0, attributes: 0x410 };
    let mut walker = DeleteWalker::new("C:\\t");
    let frame = match walker.next_step().unwrap() {
        DeleteStep::List(f) => f,
        other => panic!("unexpected step {:?}", other),
    };
    assert_eq!(frame, DeleteFrame { path: "C:\\t".to_string(), depth: 0, listed: false });
    let now = walker.absorb(&frame, &vec![child("j", junction), child("f", file())], Platform::Windows);
    assert_eq!(
        now,
        vec![
            Removal { path: "C:\\t\\j".to_string(), as_dir: true },
            Removal { path: "C:\\t\\f".to_string(), as_dir: false },
        ]
    );
    assert_eq!(walker.next_step(), Ok(DeleteStep::RemoveDir("C:\\t".to_string())));
    assert_eq!(walker.next_step(), Ok(DeleteStep::Done));
}

#[test]
fn removal_of_a_tree_deeper_than_the_limit_fails() {
    let mut tree = BTreeMap::new();
    let mut path = "/t".to_string();
    for _ in 0..101 {
        tree.insert(path.clone(), vec![child("d", dir())]);
        path.push_str("/d");
    }
    assert_eq!(remove_tree("/t", &tree, P), Err(FsError::DirectoryTooDeep));

    let mut tree = BTreeMap::new();
    let mut path = "/t".to_string();
    for _ in 0..100 {
        tree.insert(path.clone(), vec![child("d", dir())]);
        path.push_str("/d");
    }
    assert_eq!(remove_tree("/t", &tree, P).map(|log| log.len()), Ok(101));
}
