use file_manager::error::FsError;
use file_manager::config::SecurityConfig;
use file_manager::listing::{
    build_entries, build_entry, check_content_size, directory_stats, get_directory_stats,
    get_file_content, list_entries, read_directory_stream, read_directory_sync, sort_entries,
    stats_probe_limit, ListedChild, StreamBatcher,
};
use file_manager::path::Platform;
use file_manager::types::{DirectoryStats, FileEntry, FileTime};
use file_manager::validation::EntryMeta;

const P: Platform = Platform::Unix;

fn listed(path: &str, is_dir: bool) -> ListedChild {
    ListedChild {
        path: path.to_string(),
        meta: Some(EntryMeta {
            is_dir,
            is_file: !is_dir,
            is_symlink: false,
            len: 7,
            attributes: 0,
        }),
        modified: Some(FileTime::SinceEpoch(1)),
        created: None,
    }
}

fn entry(name: &str, is_dir: bool) -> FileEntry {
    FileEntry {
        name: name.to_string(),
        name_lower: name.to_lowercase(),
        path: format!("/d/{}", name),
        is_dir,
        is_hidden: false,
        size: 0,
        modified: None,
        created: None,
        extension: None,
    }
}

fn names(v: &[FileEntry]) -> Vec<String> {
    v.iter().map(|e| e.name.clone()).collect()
}

#[test]
fn read_directory_sorts_correctly() {
    let children =
        vec![listed("/d/bbb.txt", false), listed("/d/aaa.txt", false), listed("/d/aaa_dir", true)];
    let config = SecurityConfig { allowed_roots: vec!["/d".to_string()], denied_patterns: vec![] };
    let entries = read_directory_sync("/d", Some("/d"), Some(&children), &config, P).unwrap();
    assert!(entries[0].is_dir);
    assert!(!entries[1].is_dir);
    assert_eq!(names(&entries), vec!["aaa_dir", "aaa.txt", "bbb.txt"]);
}

#[test]
fn listing_of_one_level_shows_the_directory() {
    // The directory /tmp/root/a holds the directory b, which holds f.txt.
    let entries = list_entries(&vec![listed("/tmp/root/a/b", true)], P);
    assert_eq!(entries.len(), 1);
    assert_eq!(entries[0].name, "b");
    assert!(entries[0].is_dir);
    assert_eq!(entries[0].size, 0);
    assert_eq!(entries[0].path, "/tmp/root/a/b");
}

#[test]
fn sort_is_by_lowercase_name_within_each_group() {
    let input = vec![
        entry("zeta", false),
        entry("Beta", true),
        entry("alpha", false),
        entry("Alpha2", false),
        entry("beta", false),
        entry("Zoo", true),
        entry("a", false),
        entry("", false),
        entry("alpha", false),
    ];
    let out = sort_entries(input.clone());
    assert_eq!(names(&out), vec!["Beta", "Zoo", "", "a", "alpha", "alpha", "Alpha2", "beta", "zeta"]);
    let mut a: Vec<String> = names(&out);
    let mut b: Vec<String> = names(&input);
    a.sort();
    b.sort();
    assert_eq!(a, b);
    assert_eq!(sort_entries(Vec::new()), Vec::new());
    assert_eq!(names(&sort_entries(vec![entry("x", false)])), vec!["x"]);
}

#[test]
fn sort_agrees_with_the_standard_sort() {
    let mut input = Vec::new();
    let mut seed: u32 = 12345;
    for _ in 0..500 {
        seed = seed.wrapping_mul(1103515245).wrapping_add(12345);
        let len = (seed >> 16) % 5;
        let mut name = String::new();
        for k in 0..len {
            let c = (b'a' + ((seed >> (k * 3)) % 4) as u8) as char;
            name.push(if (seed >> (k + 8)) & 1 == 1 { c.to_ascii_uppercase() } else { c });
        }
        input.push(entry(&name, (seed >> 20) & 3 == 0));
    }
    let out = sort_entries(input.clone());
    let mut expected = input;
    expected.sort_by(|a, b| match (a.is_dir, b.is_dir) {
        (true, false) => std::cmp::Ordering::Less,
        (false, true) => std::cmp::Ordering::Greater,
        _ => a.name_lower.cmp(&b.name_lower),
    });
    let key = |v: &[FileEntry]| -> Vec<(bool, String)> {
        v.iter().map(|e| (e.is_dir, e.name_lower.clone())).collect()
    };
    assert_eq!(key(&out), key(&expected));
    assert_eq!(out, expected);
}

#[test]
fn children_without_metadata_are_skipped() {
    let mut unreadable = listed("/d/locked", false);
    unreadable.meta = None;
    let children = vec![listed("/d/b", false), unreadable, listed("/", true), listed("/d/a", false)];
    assert_eq!(names(&build_entries(&children, P)), vec!["b", "a"]);
    assert_eq!(build_entry(&children[1], P), None);
    assert_eq!(build_entry(&children[2], P), None);
    assert_eq!(build_entry(&children[0], P).map(|e| e.name), Some("b".to_string()));
    assert_eq!(names(&list_entries(&children, P)), vec!["a", "b"]);
}

#[test]
fn directory_stats_stop_above_the_threshold() {
    assert_eq!(stats_probe_limit(), 2001);
    assert_eq!(directory_stats(0), DirectoryStats { count: 0, exceeded_threshold: false });
    assert_eq!(directory_stats(1999), DirectoryStats { count: 1999, exceeded_threshold: false });
    assert_eq!(directory_stats(2000), DirectoryStats { count: 2000, exceeded_threshold: false });
    assert_eq!(directory_stats(2001), DirectoryStats { count: 2001, exceeded_threshold: true });
    assert_eq!(directory_stats(50_000), DirectoryStats { count: 2001, exceeded_threshold: true });
}

fn root() -> SecurityConfig {
    SecurityConfig {
        allowed_roots: vec!["/tmp/root".to_string()],
        denied_patterns: vec!["**/private/**".to_string()],
    }
}

#[test]
fn get_file_content_rejects_large_file() {
    let res = get_file_content("/tmp/root/big.txt", Some("/tmp/root/big.txt"), 11 * 1024 * 1024, &root(), P);
    assert!(res.is_err());
    let err = res.err().unwrap();
    assert!(err.to_public_string().contains("File too large"));
    assert_eq!(check_content_size(10 * 1024 * 1024), Ok(()));
    assert_eq!(check_content_size(10 * 1024 * 1024 + 1), Err(FsError::FileTooLarge));
    assert_eq!(check_content_size(0), Ok(()));
}

#[test]
fn file_content_is_read_from_the_validated_path() {
    let c = root();
    assert_eq!(
        get_file_content("/tmp/root/link.txt", Some("/tmp/root/a.txt"), 10, &c, P),
        Ok("/tmp/root/a.txt".to_string())
    );
    assert_eq!(
        get_file_content("/tmp/root/a.txt", Some("/tmp/root/a.txt"), 10 * 1024 * 1024, &c, P),
        Ok("/tmp/root/a.txt".to_string())
    );
    // The sandbox is asked before the size.
    assert_eq!(
        get_file_content("/tmp/root/link", Some("/etc/shadow"), 11 * 1024 * 1024, &c, P),
        Err(FsError::AccessDenied)
    );
    assert_eq!(
        get_file_content("/tmp/root/private/k", Some("/tmp/root/private/k"), 1, &c, P),
        Err(FsError::AccessDenied)
    );
    assert_eq!(get_file_content("/tmp/root/a", None, 1, &c, P), Err(FsError::InvalidPath));
    assert_eq!(get_file_content("a", Some("/tmp/root/a"), 1, &c, P), Err(FsError::PathNotAbsolute));
}

#[test]
fn directory_is_read_inside_the_sandbox_only() {
    let c = root();
    let children = vec![listed("/tmp/root/b.txt", false), listed("/tmp/root/a", true)];
    assert_eq!(
        read_directory_sync("/tmp/root", Some("/tmp/root"), Some(&children), &c, P).map(|v| names(&v)),
        Ok(vec!["a".to_string(), "b.txt".to_string()])
    );
    assert_eq!(
        read_directory_sync("/tmp/root", Some("/tmp/root"), None, &c, P),
        Err(FsError::ReadDirectoryFailed)
    );
    assert_eq!(
        read_directory_sync("/tmp/root/l", Some("/etc"), Some(&children), &c, P),
        Err(FsError::AccessDenied)
    );
    assert_eq!(
        read_directory_sync("/tmp/root/gone", None, None, &c, P),
        Err(FsError::InvalidPath)
    );
    assert_eq!(
        get_directory_stats("/tmp/root", Some("/tmp/root"), Some(3), &c, P),
        Ok(DirectoryStats { count: 3, exceeded_threshold: false })
    );
    assert_eq!(
        get_directory_stats("/tmp/root", Some("/tmp/root"), Some(2001), &c, P),
        Ok(DirectoryStats { count: 2001, exceeded_threshold: true })
    );
    assert_eq!(
        get_directory_stats("/tmp/root", Some("/tmp/root"), None, &c, P),
        Err(FsError::ReadDirectoryFailed)
    );
    assert_eq!(
        get_directory_stats("/tmp/root", Some("/var"), Some(3), &c, P),
        Err(FsError::AccessDenied)
    );
}

#[test]
fn stream_emits_full_batches_and_the_rest() {
    let entries: Vec<FileEntry> = (0..250).map(|i| entry(&format!("f{}", i), false)).collect();
    let batches = read_directory_stream(entries.clone());
    assert_eq!(batches.iter().map(|b| b.len()).collect::<Vec<_>>(), vec![100, 100, 50]);
    assert_eq!(batches.concat(), entries);

    let exact: Vec<FileEntry> = (0..200).map(|i| entry(&format!("f{}", i), false)).collect();
    assert_eq!(
        read_directory_stream(exact).iter().map(|b| b.len()).collect::<Vec<_>>(),
        vec![100, 100]
    );
    assert!(read_directory_stream(Vec::new()).is_empty());
    assert_eq!(read_directory_stream(vec![entry("one", false)]).len(), 1);
}

#[test]
fn batcher_hands_out_a_batch_when_it_is_full() {
    let mut b = StreamBatcher::new();
    for i in 0..99 {
        assert_eq!(b.push(entry(&format!("f{}", i), false)), None);
    }
    let full = b.push(entry("f99", false)).unwrap();
    assert_eq!(full.len(), 100);
    assert_eq!(full[0].name, "f0");
    assert_eq!(full[99].name, "f99");
    assert_eq!(b.push(entry("f100", false)), None);
    assert_eq!(names(&b.finish().unwrap()), vec!["f100"]);
    assert_eq!(StreamBatcher::new().finish(), None);
}
