use file_manager::config::SecurityConfig;
use file_manager::copy_move::{
    check_destination, copy_entries_sync, copy_single_entry, cross_device_code,
    move_entries_sync, move_target, parallelism, validate_transfer, BatchStep, ChildEntry,
    CopyAction, CopyBatch, CopyPlan, CopyWalker, FileCopy, MoveStep, ProbedSource, RenameOutcome,
    WalkItem,
};
use file_manager::delete::DeleteAction;
use file_manager::error::{FsError, IoErrorKind};
use file_manager::path::Platform;
use file_manager::types::CopyProgress;
use file_manager::validation::{EntryMeta, ProbedPath};
use std::collections::BTreeMap;

const P: Platform = Platform::Unix;

fn file() -> EntryMeta {
    EntryMeta { is_dir: false, is_file: true, is_symlink: false, len: 1, attributes: 0 }
}

fn dir() -> EntryMeta {
    EntryMeta { is_dir: true, is_file: false, is_symlink: false, len: 0, attributes: 0 }
}

fn link() -> EntryMeta {
    EntryMeta { is_dir: false, is_file: false, is_symlink: true, len: 0, attributes: 0 }
}

fn child(name: &str, meta: EntryMeta) -> ChildEntry {
    ChildEntry { name: name.to_string(), meta }
}

fn pair(from: &str, to: &str) -> FileCopy {
    FileCopy { from: from.to_string(), to: to.to_string() }
}

fn policy(roots: &[&str]) -> SecurityConfig {
    SecurityConfig {
        allowed_roots: roots.iter().map(|s| s.to_string()).collect(),
        denied_patterns: vec![],
    }
}

/// Runs a copy walk over a tree given as listings by directory, and returns
/// the directories created and the files copied.
fn walk(
    src: &str,
    dst: &str,
    tree: &BTreeMap<String, Vec<ChildEntry>>,
) -> Result<(Vec<String>, Vec<FileCopy>), FsError> {
    let mut walker = CopyWalker::new(src, dst);
    let mut made = Vec::new();
    let mut copied = Vec::new();
    while let Some(item) = walker.next_dir()? {
        made.push(item.dst.clone());
        let listing = tree.get(&item.src).cloned().unwrap_or_default();
        copied.extend(walker.absorb(&item, &listing, P));
    }
    Ok((made, copied))
}

#[test]
fn copy_directory_structure() {
    let mut tree = BTreeMap::new();
    tree.insert("/src".to_string(), vec![child("sub", dir()), child("file.txt", file())]);
    tree.insert("/src/sub".to_string(), vec![child("nested.txt", file())]);
    let (made, copied) = walk("/src", "/dst/copied", &tree).unwrap();
    assert_eq!(made, vec!["/dst/copied".to_string(), "/dst/copied/sub".to_string()]);
    assert!(copied.contains(&pair("/src/file.txt", "/dst/copied/file.txt")));
    assert!(copied.contains(&pair("/src/sub/nested.txt", "/dst/copied/sub/nested.txt")));
    assert_eq!(copied.len(), 2);
}

#[test]
fn copy_skips_symlinks() {
    let mut tree = BTreeMap::new();
    tree.insert("/src".to_string(), vec![child("link", link())]);
    tree.insert("/src/link".to_string(), vec![child("secret.txt", file())]);
    let (made, copied) = walk("/src", "/dst/src", &tree).unwrap();
    assert_eq!(made, vec!["/dst/src".to_string()]);
    assert!(copied.is_empty());
}

#[test]
fn copy_dir_does_not_follow_symlinks() {
    let mut tree = BTreeMap::new();
    tree.insert(
        "/src".to_string(),
        vec![child("escape_link", link()), child("kept.txt", file()), child("inner", dir())],
    );
    tree.insert("/src/escape_link".to_string(), vec![child("secret.txt", file())]);
    tree.insert("/src/inner".to_string(), vec![child("deep_link", link())]);
    let (made, copied) = walk("/src", "/dst", &tree).unwrap();
    assert_eq!(made, vec!["/dst".to_string(), "/dst/inner".to_string()]);
    assert_eq!(copied, vec![pair("/src/kept.txt", "/dst/kept.txt")]);
    assert!(!copied.iter().any(|c| c.to.contains("escape_link") || c.to.contains("secret.txt")));
}

#[test]
fn windows_junction_is_skipped_like_a_link() {
    let junction =
        EntryMeta { is_dir: true, is_file: false, is_symlink: false, len: 0, attributes: 0x410 };
    let item = WalkItem { src: "C:\\src".to_string(), dst: "D:\\dst".to_string(), depth: 0 };
    let listing = vec![child("j", junction), child("a.txt", file())];

    let mut on_windows = CopyWalker::new("C:\\src", "D:\\dst");
    let first = on_windows.next_dir().unwrap().unwrap();
    assert_eq!(first, item);
    let files = on_windows.absorb(&item, &listing, Platform::Windows);
    assert_eq!(files, vec![pair("C:\\src\\a.txt", "D:\\dst\\a.txt")]);
    assert_eq!(on_windows.next_dir(), Ok(None));
}

#[test]
fn walk_is_breadth_first_in_listing_order() {
    let mut tree = BTreeMap::new();
    tree.insert("/s".to_string(), vec![child("b", dir()), child("a", dir())]);
    tree.insert("/s/b".to_string(), vec![child("x", dir())]);
    tree.insert("/s/a".to_string(), vec![child("y", dir())]);
    let (made, _) = walk("/s", "/d", &tree).unwrap();
    assert_eq!(made, vec!["/d", "/d/b", "/d/a", "/d/b/x", "/d/a/y"]);
}

#[test]
fn tree_deeper_than_the_limit_fails() {
    // A chain of directories: /s/d/d/.../d.
    let mut tree = BTreeMap::new();
    let mut path = "/s".to_string();
    for _ in 0..150 {
        tree.insert(path.clone(), vec![child("d", dir())]);
        path.push_str("/d");
    }
    assert_eq!(walk("/s", "/t", &tree), Err(FsError::DirectoryTooDeep));

    // Exactly at the limit the walk succeeds: the root is depth 0 and 100 levels lie below it.
    let mut tree = BTreeMap::new();
    let mut path = "/s".to_string();
    for _ in 0..100 {
        tree.insert(path.clone(), vec![child("d", dir())]);
        path.push_str("/d");
    }
    let (made, _) = walk("/s", "/t", &tree).unwrap();
    assert_eq!(made.len(), 101);

    // One level more and it fails.
    tree.insert(path.clone(), vec![child("d", dir())]);
    assert_eq!(walk("/s", "/t", &tree), Err(FsError::DirectoryTooDeep));
}

#[test]
fn depth_check_is_made_when_a_directory_is_taken() {
    let mut w = CopyWalker::new("/s", "/t");
    let root = w.next_dir().unwrap().unwrap();
    assert_eq!(root.depth, 0);
    let at_limit = WalkItem { src: "/s/x".to_string(), dst: "/t/x".to_string(), depth: 100 };
    let _ = w.absorb(&at_limit, &vec![child("d", dir())], P);
    assert_eq!(w.next_dir(), Err(FsError::DirectoryTooDeep));
    assert_eq!(w.next_dir(), Ok(None));
}

#[test]
fn single_entry_plan() {
    assert_eq!(
        copy_single_entry("/r/a.txt", "/r/out", &file(), P),
        Ok(CopyAction::CopyFile(pair("/r/a.txt", "/r/out/a.txt")))
    );
    assert_eq!(
        copy_single_entry("/r/photos/", "/r/out", &dir(), P),
        Ok(CopyAction::CopyTree(pair("/r/photos/", "/r/out/photos")))
    );
    assert_eq!(copy_single_entry("/r/link", "/r/out", &link(), P), Ok(CopyAction::Skip));
    assert_eq!(copy_single_entry("/r/a.txt", "/r", &file(), P), Ok(CopyAction::Skip));
    assert_eq!(copy_single_entry("/r/a.txt", "/r/", &file(), P), Ok(CopyAction::Skip));
    assert_eq!(copy_single_entry("/", "/r", &dir(), P), Err(FsError::InvalidPath));
}

#[test]
fn destination_must_be_an_existing_directory() {
    assert_eq!(check_destination(None), Err(FsError::NotFound));
    assert_eq!(check_destination(Some(file())), Err(FsError::InvalidPath));
    assert_eq!(check_destination(Some(dir())), Ok(()));
}

#[test]
fn transfer_is_validated_before_anything_is_touched() {
    let config = policy(&["/tmp/root"]);
    let sources = vec![
        ProbedPath { path: "/tmp/root/a".to_string(), exists: true },
        ProbedPath { path: "/tmp/root/b".to_string(), exists: true },
    ];
    let ok = validate_transfer(&sources, "/tmp/root/out", Some("/tmp/root/out"), Some(dir()), &config, P)
        .unwrap();
    assert_eq!(ok.sources, vec!["/tmp/root/a".to_string(), "/tmp/root/b".to_string()]);
    assert_eq!(ok.destination, "/tmp/root/out");

    let outside = vec![ProbedPath { path: "/etc/passwd".to_string(), exists: true }];
    assert_eq!(
        validate_transfer(&outside, "/tmp/root", Some("/tmp/root"), Some(dir()), &config, P),
        Err(FsError::AccessDenied)
    );
    assert_eq!(
        validate_transfer(&sources, "/tmp/root/out", Some("/var/out"), Some(dir()), &config, P),
        Err(FsError::AccessDenied)
    );
    // The sandbox is asked before the destination is looked at as a directory.
    assert_eq!(
        validate_transfer(&sources, "/tmp/root/out", Some("/var/out"), None, &config, P),
        Err(FsError::AccessDenied)
    );
    assert_eq!(
        validate_transfer(&sources, "/tmp/root/out", None, None, &config, P),
        Err(FsError::InvalidPath)
    );
    assert_eq!(
        validate_transfer(&sources, "/tmp/root/out", Some("/tmp/root/out"), None, &config, P),
        Err(FsError::NotFound)
    );
    assert_eq!(
        validate_transfer(&sources, "/tmp/root/f", Some("/tmp/root/f"), Some(file()), &config, P),
        Err(FsError::InvalidPath)
    );
    let gone = vec![ProbedPath { path: "/tmp/root/gone".to_string(), exists: false }];
    assert_eq!(
        validate_transfer(&gone, "/elsewhere", Some("/elsewhere"), Some(dir()), &config, P),
        Err(FsError::InvalidPath)
    );
}

fn source(path: &str, meta: EntryMeta) -> ProbedSource {
    ProbedSource { path: path.to_string(), meta: Some(meta) }
}

#[test]
fn copy_plan_has_one_action_for_each_source() {
    let config = policy(&["/tmp/root"]);
    let sources = vec![
        source("/tmp/root/a.txt", file()),
        source("/tmp/root/photos", dir()),
        source("/tmp/root/link", link()),
        source("/tmp/root/out/same.txt", file()),
    ];
    let plan =
        copy_entries_sync(&sources, "/tmp/root/out", Some("/tmp/root/out"), Some(dir()), &config, P);
    assert_eq!(
        plan,
        Ok(CopyPlan {
            destination: "/tmp/root/out".to_string(),
            actions: vec![
                CopyAction::CopyFile(pair("/tmp/root/a.txt", "/tmp/root/out/a.txt")),
                CopyAction::CopyTree(pair("/tmp/root/photos", "/tmp/root/out/photos")),
                CopyAction::Skip,
                CopyAction::Skip,
            ],
        })
    );
    let none: Vec<ProbedSource> = Vec::new();
    assert_eq!(
        copy_entries_sync(&none, "/tmp/root/out", Some("/tmp/root/out"), Some(dir()), &config, P),
        Ok(CopyPlan { destination: "/tmp/root/out".to_string(), actions: vec![] })
    );
}

#[test]
fn copy_plan_fails_with_the_first_refusal() {
    let config = policy(&["/tmp/root"]);
    let outside = vec![source("/tmp/root/a.txt", file()), source("/etc/passwd", file())];
    assert_eq!(
        copy_entries_sync(&outside, "/tmp/root", Some("/tmp/root"), Some(dir()), &config, P),
        Err(FsError::AccessDenied)
    );
    let gone = vec![ProbedSource { path: "/tmp/root/gone".to_string(), meta: None }];
    assert_eq!(
        copy_entries_sync(&gone, "/tmp/root", Some("/tmp/root"), Some(dir()), &config, P),
        Err(FsError::InvalidPath)
    );
    let inside = vec![source("/tmp/root/a.txt", file())];
    assert_eq!(
        copy_entries_sync(&inside, "/tmp/root/out", Some("/tmp/root/out"), None, &config, P),
        Err(FsError::NotFound)
    );
    // A root has no file name to copy under.
    let whole = policy(&["/"]);
    let root = vec![source("/tmp/a", file()), source("/", dir())];
    assert_eq!(
        copy_entries_sync(&root, "/tmp", Some("/tmp"), Some(dir()), &whole, P),
        Err(FsError::InvalidPath)
    );
}

#[test]
fn planned_tree_copy_skips_the_links_inside() {
    let config = policy(&["/s", "/d"]);
    let sources = vec![source("/s", dir())];
    let plan = copy_entries_sync(&sources, "/d", Some("/d"), Some(dir()), &config, P).unwrap();
    assert_eq!(plan.actions, vec![CopyAction::CopyTree(pair("/s", "/d/s"))]);
    // /s holds nothing but a link to a directory outside, which holds secret.txt.
    let mut tree = BTreeMap::new();
    tree.insert("/s".to_string(), vec![child("link", link())]);
    tree.insert("/s/link".to_string(), vec![child("secret.txt", file())]);
    let (made, copied) = walk("/s", "/d/s", &tree).unwrap();
    assert_eq!(made, vec!["/d/s".to_string()]);
    assert!(copied.is_empty());
}

#[test]
fn move_within_same_filesystem() {
    let target = move_target("/tmp/d/source.txt", "/tmp/d/dest", P).unwrap();
    assert_eq!(target, "/tmp/d/dest/source.txt");
    let first = move_entries_sync("/tmp/d/source.txt", "/tmp/d/dest", false, &file(), None, false, 18, P);
    assert_eq!(first, MoveStep::Rename(pair("/tmp/d/source.txt", "/tmp/d/dest/source.txt")));
    let then = move_entries_sync(
        "/tmp/d/source.txt",
        "/tmp/d/dest",
        false,
        &file(),
        Some(&RenameOutcome::Renamed),
        false,
        18,
        P,
    );
    assert_eq!(then, MoveStep::Done);
}

#[test]
fn move_skips_same_location_and_existing_target() {
    assert_eq!(move_target("/", "/tmp", P), Err(FsError::InvalidPath));
    assert_eq!(
        move_entries_sync("/", "/tmp", false, &dir(), None, false, 18, P),
        MoveStep::Fail(FsError::InvalidPath)
    );
    assert_eq!(move_entries_sync("/a/b", "/a", false, &file(), None, false, 18, P), MoveStep::Skip);
    assert_eq!(move_entries_sync("/a/b", "/a//", false, &file(), None, false, 18, P), MoveStep::Skip);
    assert_eq!(move_entries_sync("/a/b", "/c", true, &file(), None, false, 18, P), MoveStep::Skip);
}

fn failed(kind: IoErrorKind, os_code: Option<i32>, detail: &str) -> RenameOutcome {
    RenameOutcome::Failed { kind, os_code, detail: detail.to_string() }
}

#[test]
fn failed_rename_falls_back_only_across_devices() {
    let exdev = cross_device_code(Platform::Unix);
    assert_eq!(exdev, 18);
    assert_eq!(cross_device_code(Platform::Windows), 17);
    let step = |meta: EntryMeta, outcome: RenameOutcome, diagnostic: bool| {
        move_entries_sync("/mnt/a/f", "/mnt/b", false, &meta, Some(&outcome), diagnostic, exdev, P)
    };
    assert_eq!(
        step(file(), failed(IoErrorKind::Other, Some(exdev), "cross-device link"), false),
        MoveStep::CopyThenRemove {
            copy: CopyAction::CopyFile(pair("/mnt/a/f", "/mnt/b/f")),
            remove: DeleteAction::RemoveFile,
        }
    );
    assert_eq!(
        step(dir(), failed(IoErrorKind::Other, Some(exdev), "cross-device link"), false),
        MoveStep::CopyThenRemove {
            copy: CopyAction::CopyTree(pair("/mnt/a/f", "/mnt/b/f")),
            remove: DeleteAction::RemoveTree,
        }
    );
    assert_eq!(
        step(link(), failed(IoErrorKind::Other, Some(exdev), "cross-device link"), false),
        MoveStep::CopyThenRemove { copy: CopyAction::Skip, remove: DeleteAction::RemoveFile }
    );
    assert_eq!(
        step(file(), failed(IoErrorKind::PermissionDenied, Some(13), "denied"), false),
        MoveStep::Fail(FsError::AccessDenied)
    );
    assert_eq!(
        step(file(), failed(IoErrorKind::NotFound, Some(2), "gone"), false),
        MoveStep::Fail(FsError::NotFound)
    );
    assert_eq!(
        step(file(), failed(IoErrorKind::Other, None, "odd"), true),
        MoveStep::Fail(FsError::Io("odd".to_string()))
    );
    assert_eq!(
        step(file(), failed(IoErrorKind::Other, Some(17), "odd"), false),
        MoveStep::Fail(FsError::Io("operation failed".to_string()))
    );
}

#[test]
fn parallelism_is_clamped() {
    assert_eq!(parallelism(None), 4);
    assert_eq!(parallelism(Some(0)), 1);
    assert_eq!(parallelism(Some(1)), 1);
    assert_eq!(parallelism(Some(8)), 8);
    assert_eq!(parallelism(Some(16)), 16);
    assert_eq!(parallelism(Some(17)), 16);
    assert_eq!(parallelism(Some(usize::MAX)), 16);
}

/// Runs a batch to its end, completing the oldest running task whenever the
/// scheduler says to wait. Returns the events, the largest number of tasks
/// that ran at once, and the order in which tasks were started.
fn run_batch(
    total: usize,
    available: Option<usize>,
    fails: &[usize],
) -> (Vec<CopyProgress>, usize, Vec<usize>, Result<(), FsError>) {
    let mut batch = CopyBatch::new(total, available);
    let mut running: std::collections::VecDeque<usize> = Default::default();
    let mut events = Vec::new();
    let mut peak = 0;
    let mut order = Vec::new();
    loop {
        match batch.next_step() {
            BatchStep::Start(i) => {
                running.push_back(i);
                order.push(i);
                peak = peak.max(running.len());
            }
            BatchStep::Wait => {
                let i = running.pop_front().unwrap();
                let outcome =
                    if fails.contains(&i) { Err(FsError::io(&format!("task {}", i))) } else { Ok(()) };
                if let Some(e) = batch.complete(outcome, &format!("/src/{}", i)) {
                    events.push(e);
                }
            }
            BatchStep::Finished => break,
        }
    }
    assert!(batch.is_finished());
    (events, peak, order, batch.into_result())
}

#[test]
fn batch_reports_every_fifth_completion_and_the_last() {
    let (events, peak, order, result) = run_batch(12, Some(3), &[]);
    let currents: Vec<usize> = events.iter().map(|e| e.current).collect();
    assert_eq!(currents, vec![5, 10, 12]);
    assert!(events.iter().all(|e| e.total == 12));
    assert_eq!(events.last().unwrap().current, events.last().unwrap().total);
    assert_eq!(events[0].file, "/src/4");
    assert_eq!(peak, 3);
    assert_eq!(order, (0..12).collect::<Vec<_>>());
    assert_eq!(result, Ok(()));
}

#[test]
fn batch_of_one_and_of_a_multiple_of_five() {
    let (events, _, _, _) = run_batch(1, None, &[]);
    assert_eq!(events, vec![CopyProgress { current: 1, total: 1, file: "/src/0".to_string() }]);
    let (events, peak, _, _) = run_batch(10, Some(64), &[]);
    assert_eq!(events.iter().map(|e| e.current).collect::<Vec<_>>(), vec![5, 10]);
    assert_eq!(peak, 10);
    let (events, peak, _, _) = run_batch(40, Some(64), &[]);
    assert_eq!(events.len(), 8);
    assert_eq!(peak, 16);
}

#[test]
fn empty_batch_finishes_at_once() {
    let mut batch = CopyBatch::new(0, Some(4));
    assert_eq!(batch.next_step(), BatchStep::Finished);
    assert!(batch.is_finished());
    assert_eq!(batch.complete(Ok(()), "x"), None);
    assert_eq!(batch.into_result(), Ok(()));
}

#[test]
fn failure_does_not_stop_the_siblings() {
    let (events, _, order, result) = run_batch(7, Some(2), &[1, 4]);
    assert_eq!(order.len(), 7);
    assert_eq!(events.iter().map(|e| e.current).collect::<Vec<_>>(), vec![5, 7]);
    assert_eq!(result, Err(FsError::Io("task 1".to_string())));
}

#[test]
fn completion_without_a_running_task_changes_nothing() {
    let mut batch = CopyBatch::new(5, Some(1));
    assert_eq!(batch.complete(Err(FsError::Internal), "x"), None);
    assert_eq!(batch.next_step(), BatchStep::Start(0));
    assert_eq!(batch.next_step(), BatchStep::Wait);
    assert_eq!(batch.complete(Ok(()), "a"), None);
    assert_eq!(batch.next_step(), BatchStep::Start(1));
    assert!(!batch.is_finished());
}

#[test]
fn cancelled_batch_starts_nothing_more() {
    let mut batch = CopyBatch::new(6, Some(2));
    assert_eq!(batch.next_step(), BatchStep::Start(0));
    assert_eq!(batch.next_step(), BatchStep::Start(1));
    batch.cancel();
    assert_eq!(batch.next_step(), BatchStep::Wait);
    assert_eq!(batch.complete(Ok(()), "a"), None);
    assert_eq!(batch.next_step(), BatchStep::Wait);
    assert_eq!(batch.complete(Ok(()), "b"), None);
    assert_eq!(batch.next_step(), BatchStep::Finished);
    assert!(!batch.is_finished());
    assert_eq!(batch.into_result(), Err(FsError::Cancelled));

    let mut failed = CopyBatch::new(3, Some(1));
    assert_eq!(failed.next_step(), BatchStep::Start(0));
    failed.cancel();
    assert_eq!(failed.complete(Err(FsError::NotFound), "a"), None);
    assert_eq!(failed.into_result(), Err(FsError::NotFound));

    let mut done = CopyBatch::new(1, Some(1));
    assert_eq!(done.next_step(), BatchStep::Start(0));
    done.cancel();
    assert!(done.complete(Ok(()), "a").is_some());
    assert_eq!(done.into_result(), Ok(()));
}

#[test]
fn batch_counts_stay_within_the_total() {
    let (events, _, _, _) = run_batch(23, Some(4), &[]);
    assert!(events.iter().all(|e| 1 <= e.current && e.current <= e.total && e.total == 23));
    assert!(events.windows(2).all(|w| w[0].current < w[1].current));
}
