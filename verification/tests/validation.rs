use file_manager::config::{policy_snapshot, SecurityConfig};
use file_manager::error::FsError;
use file_manager::path::Platform;
use file_manager::validation::{
    check_sandbox, is_hidden, is_link_like, is_reparse_point, normalize_windows_path,
    precheck_path, validate_filename, validate_path, validate_path_no_follow,
    validate_paths_sandboxed, validate_sandboxed, validate_sandboxed_no_follow,
    validate_windows_name, EntryMeta, ProbedPath,
};
use tempfile::tempdir;

fn policy(roots: &[&str], patterns: &[&str]) -> SecurityConfig {
    SecurityConfig {
        allowed_roots: roots.iter().map(|s| s.to_string()).collect(),
        denied_patterns: patterns.iter().map(|s| s.to_string()).collect(),
    }
}

fn probe(path: &str) -> ProbedPath {
    ProbedPath {
        path: path.to_string(),
        exists: std::path::Path::new(path).symlink_metadata().is_ok(),
    }
}

fn resolve(path: &str) -> Option<String> {
    std::path::Path::new(path).canonicalize().ok().map(|p| p.to_string_lossy().to_string())
}

#[test]
fn validate_path_rejects_relative() {
    let result = validate_path("./relative/path", None, Platform::Unix);
    assert!(matches!(result, Err(FsError::PathNotAbsolute)));
}

#[test]
fn validate_path_rejects_relative_path() {
    let res = validate_path("./some/relative/path", None, Platform::Unix);
    assert!(res.is_err());
}

#[test]
fn validate_path_accepts_absolute() {
    let dir = tempdir().unwrap();
    let given = dir.path().to_string_lossy().to_string();
    let result = validate_path(&given, resolve(&given).as_deref(), Platform::Unix);
    assert!(result.is_ok());
}

#[test]
fn validate_path_accepts_absolute_existing_path() {
    let dir = tempdir().unwrap();
    let p = dir.path().to_string_lossy().to_string();
    let res = validate_path(&p, resolve(&p).as_deref(), Platform::Unix);
    assert!(res.is_ok());
    let canonical = res.unwrap();
    assert!(std::path::Path::new(&canonical).exists());
}

#[test]
fn validate_path_rejects_symlink_to_outside() {
    let dir = tempdir().unwrap();
    let outside = tempdir().unwrap();
    let outside_file = tempfile::Builder::new().suffix("secret.txt").tempfile_in(outside.path()).unwrap();
    let target = outside_file.path().canonicalize().unwrap().to_string_lossy().to_string();
    let link = dir.path().join("link");

    // The link resolves to the file outside; the validated path is the target.
    let given = link.to_string_lossy().to_string();
    let res = validate_path(&given, Some(&target), Platform::Unix);
    assert!(res.is_ok(), "validate_path should resolve symlink to the target");
    let canonical = res.unwrap();
    assert_eq!(canonical, target);
}

#[test]
fn sandbox_check_works() {
    let dir = tempdir().unwrap();
    let root = dir.path().canonicalize().unwrap().to_string_lossy().to_string();
    let config = policy(&[&root], &[]);
    let given = dir.path().to_string_lossy().to_string();
    let result = validate_sandboxed(&given, resolve(&given).as_deref(), &config, Platform::Unix);
    assert!(result.is_ok());
}

#[test]
fn validate_paths_sandboxed_accepts_allowed_root() {
    let dir = tempdir().unwrap();
    let allowed_root = dir.path().canonicalize().unwrap().to_string_lossy().to_string();
    let cfg = policy(&[&allowed_root], &[]);
    let paths = vec![probe(&allowed_root)];
    let res = validate_paths_sandboxed(&paths, &cfg, Platform::Unix);
    assert!(res.is_ok());
}

#[test]
fn validate_paths_sandboxed_denies_outside_root() {
    let allowed = tempdir().unwrap();
    let outside = tempdir().unwrap();
    let allowed_root = allowed.path().canonicalize().unwrap().to_string_lossy().to_string();
    let cfg = policy(&[&allowed_root], &[]);
    let paths = vec![probe(&outside.path().to_string_lossy())];
    let res = validate_paths_sandboxed(&paths, &cfg, Platform::Unix);
    assert!(res.is_err());
}

#[test]
fn override_security_config_changes_global_config() {
    let shared = std::sync::RwLock::new(policy(&["/"], &[]));
    let get = |lock: &std::sync::RwLock<SecurityConfig>| {
        match lock.read() {
            Ok(guard) => policy_snapshot(Some(&*guard)),
            Err(_) => policy_snapshot(None),
        }
        .unwrap()
    };
    let orig = get(&shared);
    let dir = tempdir().unwrap();
    let root = dir.path().to_string_lossy().to_string();
    let cfg = policy(&[&root], &["**/secret/**"]);
    *shared.write().unwrap() = cfg.clone();
    let got = get(&shared);
    assert_eq!(got.allowed_roots, cfg.allowed_roots);
    assert_eq!(got.denied_patterns, cfg.denied_patterns);
    // restore the first policy
    *shared.write().unwrap() = orig;
    assert_eq!(get(&shared).allowed_roots, vec!["/".to_string()]);
}

#[test]
fn traversal_is_rejected_whatever_the_file_system_says() {
    let p = Platform::Unix;
    let path = "/no/such/dir/../file";
    assert_eq!(precheck_path(path, p), Err(FsError::InvalidPath));
    assert_eq!(validate_path(path, None, p), Err(FsError::InvalidPath));
    assert_eq!(validate_path(path, Some("/no/such/file"), p), Err(FsError::InvalidPath));
    assert_eq!(validate_path_no_follow(path, true, p), Err(FsError::InvalidPath));
    assert_eq!(validate_path_no_follow(path, false, p), Err(FsError::InvalidPath));
}

#[test]
fn unresolved_path_is_invalid() {
    let p = Platform::Unix;
    assert_eq!(precheck_path("/tmp/missing", p), Ok(()));
    assert_eq!(validate_path("/tmp/missing", None, p), Err(FsError::InvalidPath));
    assert_eq!(validate_path("/tmp/x", Some(""), p), Err(FsError::InvalidPath));
    assert_eq!(validate_path("/tmp/x", Some("/private/tmp/x"), p), Ok("/private/tmp/x".to_string()));
    assert_eq!(validate_path_no_follow("/tmp/missing", false, p), Err(FsError::InvalidPath));
    assert_eq!(validate_path_no_follow("/tmp/link", true, p), Ok("/tmp/link".to_string()));
}

#[test]
fn extended_prefix_is_stripped_on_windows_only() {
    assert_eq!(
        normalize_windows_path("\\\\?\\C:\\Users".to_string(), Platform::Windows),
        "C:\\Users"
    );
    assert_eq!(
        normalize_windows_path("\\\\?\\C:\\Users".to_string(), Platform::Unix),
        "\\\\?\\C:\\Users"
    );
    assert_eq!(normalize_windows_path("C:\\Users".to_string(), Platform::Windows), "C:\\Users");
    assert_eq!(normalize_windows_path("/tmp".to_string(), Platform::Unix), "/tmp");
    assert_eq!(
        validate_path("C:\\a", Some("\\\\?\\C:\\a"), Platform::Windows),
        Ok("C:\\a".to_string())
    );
}

#[test]
fn path_outside_every_root_is_denied() {
    let p = Platform::Unix;
    let config = policy(&["/tmp/root"], &[]);
    assert_eq!(check_sandbox("/etc/passwd", &config, p), Err(FsError::AccessDenied));
    assert_eq!(check_sandbox("/tmp/rootkit", &config, p), Err(FsError::AccessDenied));
    assert_eq!(check_sandbox("/tmp", &config, p), Err(FsError::AccessDenied));
    assert_eq!(check_sandbox("/tmp/root", &config, p), Ok(()));
    assert_eq!(check_sandbox("/tmp/root/a/b.txt", &config, p), Ok(()));
    assert_eq!(check_sandbox("/anything", &policy(&[], &[]), p), Err(FsError::AccessDenied));
}

#[test]
fn sandbox_is_checked_on_the_resolved_path() {
    let p = Platform::Unix;
    let config = policy(&["/tmp/root"], &[]);
    let escaped = validate_sandboxed("/tmp/root/link", Some("/etc/passwd"), &config, p);
    assert_eq!(escaped, Err(FsError::AccessDenied));
    let inside = validate_sandboxed("/elsewhere/link", Some("/tmp/root/f"), &config, p);
    assert_eq!(inside, Ok("/tmp/root/f".to_string()));
}

#[test]
fn denied_pattern_vetoes_inside_a_root() {
    let p = Platform::Unix;
    let config = policy(&["/"], &["/etc/**", "**/secret/**"]);
    assert_eq!(check_sandbox("/etc/passwd", &config, p), Err(FsError::AccessDenied));
    assert_eq!(check_sandbox("/home/me/secret/key", &config, p), Err(FsError::AccessDenied));
    assert_eq!(check_sandbox("/home/me/public/key", &config, p), Ok(()));
    assert_eq!(check_sandbox("/etc", &config, p), Ok(()));
}

#[test]
fn pattern_that_does_not_compile_denies_nothing() {
    let p = Platform::Unix;
    let config = policy(&["/tmp"], &["/tmp/a***", "[", "/tmp/x"]);
    assert_eq!(check_sandbox("/tmp/a", &config, p), Ok(()));
    assert_eq!(check_sandbox("/tmp/x", &config, p), Err(FsError::AccessDenied));
}

#[test]
fn no_follow_validation_keeps_the_link_path() {
    let p = Platform::Unix;
    let config = policy(&["/tmp/root"], &[]);
    assert_eq!(
        validate_sandboxed_no_follow("/tmp/root/link", true, &config, p),
        Ok("/tmp/root/link".to_string())
    );
    assert_eq!(
        validate_sandboxed_no_follow("/tmp/root/link", false, &config, p),
        Err(FsError::InvalidPath)
    );
    assert_eq!(
        validate_sandboxed_no_follow("/etc/passwd", true, &config, p),
        Err(FsError::AccessDenied)
    );
    assert_eq!(
        validate_sandboxed_no_follow("etc/passwd", true, &config, p),
        Err(FsError::PathNotAbsolute)
    );
}

#[test]
fn first_failing_path_decides_the_batch() {
    let p = Platform::Unix;
    let config = policy(&["/tmp/root"], &[]);
    let ok = vec![
        ProbedPath { path: "/tmp/root/a".to_string(), exists: true },
        ProbedPath { path: "/tmp/root/b".to_string(), exists: true },
    ];
    assert_eq!(
        validate_paths_sandboxed(&ok, &config, p),
        Ok(vec!["/tmp/root/a".to_string(), "/tmp/root/b".to_string()])
    );
    let mixed = vec![
        ProbedPath { path: "/tmp/root/a".to_string(), exists: true },
        ProbedPath { path: "/tmp/root/gone".to_string(), exists: false },
        ProbedPath { path: "/etc/passwd".to_string(), exists: true },
    ];
    assert_eq!(validate_paths_sandboxed(&mixed, &config, p), Err(FsError::InvalidPath));
    assert_eq!(validate_paths_sandboxed(&Vec::new(), &config, p), Ok(Vec::new()));
}

#[test]
fn validate_filename_rejects_traversal() {
    let p = Platform::Unix;
    assert!(validate_filename(".", p).is_err());
    assert!(validate_filename("..", p).is_err());
    assert!(validate_filename("foo/bar", p).is_err());
    assert!(validate_filename("foo\\bar", p).is_err());
}

#[test]
fn validate_filename_accepts_normal() {
    let p = Platform::Unix;
    assert!(validate_filename("file.txt", p).is_ok());
    assert!(validate_filename(".hidden", p).is_ok());
    assert!(validate_filename("file with spaces.txt", p).is_ok());
}

#[test]
fn validate_filename_rejects_reserved() {
    let p = Platform::Windows;
    assert!(validate_filename("CON", p).is_err());
    assert!(validate_filename("COM1.txt", p).is_err());
    assert!(validate_filename("file:stream", p).is_err());
}

#[test]
fn validate_child_name_rejects_ads() {
    let r = validate_filename("file.txt:hidden", Platform::Windows);
    assert!(r.is_err(), "Should reject ADS on Windows");
}

#[test]
fn validate_child_name_rejects_reserved_with_extension() {
    let r = validate_filename("COM1.txt", Platform::Windows);
    assert!(r.is_err(), "COM1.txt should be rejected");
}

#[test]
fn filename_errors_are_invalid_name() {
    assert_eq!(validate_filename("", Platform::Unix), Err(FsError::InvalidName));
    assert_eq!(validate_filename("a\0b", Platform::Unix), Err(FsError::InvalidName));
    assert_eq!(validate_filename("...", Platform::Unix), Ok(()));
    assert_eq!(validate_filename("CON", Platform::Unix), Ok(()));
    assert_eq!(validate_filename("a:b", Platform::Unix), Ok(()));
    assert_eq!(validate_filename("what?", Platform::Unix), Ok(()));
}

#[test]
fn windows_names() {
    assert_eq!(validate_windows_name("report.txt"), Ok(()));
    assert_eq!(validate_windows_name("con"), Err(FsError::InvalidName));
    assert_eq!(validate_windows_name("Nul.tar.gz"), Err(FsError::InvalidName));
    assert_eq!(validate_windows_name("lpt9"), Err(FsError::InvalidName));
    assert_eq!(validate_windows_name("LPT0"), Ok(()));
    assert_eq!(validate_windows_name("COM10"), Ok(()));
    assert_eq!(validate_windows_name("CON .txt"), Err(FsError::InvalidName));
    assert_eq!(validate_windows_name("CONSOLE"), Ok(()));
    assert_eq!(validate_windows_name("aux"), Err(FsError::InvalidName));
    assert_eq!(validate_windows_name("prn.doc"), Err(FsError::InvalidName));
    assert_eq!(validate_windows_name("name."), Err(FsError::InvalidName));
    assert_eq!(validate_windows_name("name "), Err(FsError::InvalidName));
    assert_eq!(validate_windows_name("a<b"), Err(FsError::InvalidName));
    assert_eq!(validate_windows_name("a>b"), Err(FsError::InvalidName));
    assert_eq!(validate_windows_name("a\"b"), Err(FsError::InvalidName));
    assert_eq!(validate_windows_name("a|b"), Err(FsError::InvalidName));
    assert_eq!(validate_windows_name("a*b"), Err(FsError::InvalidName));
}

#[test]
fn hidden_entries() {
    assert!(is_hidden("/home/me/.bashrc", None, Platform::Unix));
    assert!(!is_hidden("/home/me/notes", None, Platform::Unix));
    assert!(!is_hidden("/home/.me/notes", Some(2), Platform::Unix));
    assert!(!is_hidden("/", None, Platform::Unix));
    assert!(is_hidden("C:\\a\\notes", Some(0x22), Platform::Windows));
    assert!(!is_hidden("C:\\a\\.notes", Some(0x20), Platform::Windows));
    assert!(is_hidden("C:\\a\\.notes", None, Platform::Windows));
}

#[test]
fn links_and_reparse_points() {
    let plain = EntryMeta { is_dir: false, is_file: true, is_symlink: false, len: 1, attributes: 0 };
    let link = EntryMeta { is_dir: false, is_file: false, is_symlink: true, len: 1, attributes: 0 };
    let junction =
        EntryMeta { is_dir: true, is_file: false, is_symlink: false, len: 0, attributes: 0x410 };
    assert!(!is_link_like(&plain, Platform::Unix));
    assert!(is_link_like(&link, Platform::Unix));
    assert!(!is_reparse_point(&link, Platform::Unix));
    assert!(!is_reparse_point(&junction, Platform::Unix));
    assert!(!is_link_like(&junction, Platform::Unix));
    assert!(is_reparse_point(&junction, Platform::Windows));
    assert!(is_link_like(&junction, Platform::Windows));
    assert!(!is_reparse_point(&plain, Platform::Windows));
}

#[test]
fn pattern_that_does_not_match_never_denies() {
    let p = Platform::Unix;
    let long = format!("/nowhere/{}", "a".repeat(20_000));
    let starred = format!("/nowhere/{}", "*a".repeat(300));
    let config = policy(&["/tmp"], &[&long, &starred]);
    assert_eq!(check_sandbox("/tmp/a", &config, p), Ok(()));
    assert_eq!(
        validate_sandboxed_no_follow("/tmp/link", true, &config, p),
        Ok("/tmp/link".to_string())
    );
    let matching = format!("/tmp/{}", "*a".repeat(300));
    let config = policy(&["/tmp"], &[&matching]);
    assert_eq!(check_sandbox(&format!("/tmp/{}", "ba".repeat(300)), &config, p), Err(FsError::AccessDenied));
    assert_eq!(check_sandbox("/tmp/b", &config, p), Ok(()));
}

#[test]
fn denied_patterns_hold_on_windows_paths() {
    let p = Platform::Windows;
    let config = SecurityConfig {
        allowed_roots: vec!["C:\\".to_string()],
        denied_patterns: SecurityConfig::default_denied_patterns(p),
    };
    assert_eq!(
        check_sandbox("C:\\Windows\\System32\\cmd.exe", &config, p),
        Err(FsError::AccessDenied)
    );
    assert_eq!(
        check_sandbox("C:\\Program Files\\App\\app.exe", &config, p),
        Err(FsError::AccessDenied)
    );
    assert_eq!(check_sandbox("C:\\Users\\me\\notes.txt", &config, p), Ok(()));
    assert_eq!(check_sandbox("C:\\Windows\\notepad.exe", &config, p), Ok(()));
    assert_eq!(
        validate_sandboxed("C:\\x", Some("\\\\?\\C:\\ProgramData\\x"), &config, p),
        Err(FsError::AccessDenied)
    );
    // A pattern written with backslashes means the same.
    let written = SecurityConfig {
        allowed_roots: vec!["C:\\".to_string()],
        denied_patterns: vec!["**\\secret\\**".to_string()],
    };
    assert_eq!(check_sandbox("C:\\a\\secret\\k", &written, p), Err(FsError::AccessDenied));
    assert_eq!(check_sandbox("C:/a/secret/k", &written, p), Err(FsError::AccessDenied));
    assert_eq!(check_sandbox("C:\\a\\public\\k", &written, p), Ok(()));
}

#[test]
fn resolved_form_must_be_an_absolute_path() {
    let p = Platform::Unix;
    assert_eq!(validate_path("/tmp/x", Some("tmp/x"), p), Err(FsError::InvalidPath));
    assert_eq!(validate_path("/tmp/x", Some("/tmp/../x"), p), Err(FsError::InvalidPath));
    assert_eq!(validate_path("/tmp/x", Some("/"), p), Ok("/".to_string()));
    assert_eq!(
        validate_path("C:\\x", Some("\\\\?\\UNC\\srv\\share"), Platform::Windows),
        Ok("UNC\\srv\\share".to_string())
    );
}
