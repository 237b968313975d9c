use file_manager::watcher::WatcherState;

#[test]
fn new_watch_replaces_the_old_one() {
    let mut table = WatcherState::new();
    let first = table.watch("/tmp/root").unwrap();
    assert!(!table.should_stop("/tmp/root", first));
    let second = table.watch("/tmp/root").unwrap();
    assert_ne!(first, second);
    assert!(table.should_stop("/tmp/root", first));
    assert!(!table.should_stop("/tmp/root", second));
    // The old worker ends and cleans up: the entry of its successor stays.
    table.finish("/tmp/root", first);
    assert!(!table.should_stop("/tmp/root", second));
    table.finish("/tmp/root", second);
    assert!(table.should_stop("/tmp/root", second));
}

#[test]
fn unwatch_tells_the_worker_to_stop() {
    let mut table = WatcherState::new();
    let a = table.watch("/a").unwrap();
    let b = table.watch("/b").unwrap();
    table.unwatch("/a");
    assert!(table.should_stop("/a", a));
    assert!(!table.should_stop("/b", b));
    table.unwatch("/missing");
    assert!(!table.should_stop("/b", b));
    table.finish("/a", a);
    let again = table.watch("/a").unwrap();
    assert!(!table.should_stop("/a", again));
    assert!(table.should_stop("/a", a));
}

#[test]
fn tokens_count_up_from_zero() {
    let mut table = WatcherState::new();
    assert_eq!(table.watch("/a"), Ok(0));
    assert_eq!(table.watch("/b"), Ok(1));
    assert_eq!(table.watch("/a"), Ok(2));
    assert!(table.should_stop("/nowhere", 0));
}
