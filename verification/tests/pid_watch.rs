use fps_monitor::pid_watch::{PidChange, PidWatcher, PID_WATCH_INTERVAL_MS};

#[test]
fn watch_interval_is_half_a_second() {
    assert_eq!(PID_WATCH_INTERVAL_MS, 500);
}

#[test]
fn unchanged_pid_is_not_published() {
    let mut watcher = PidWatcher::new(100);
    assert_eq!(watcher.observe(100), None);
    assert_eq!(watcher.observe(100), None);
}

#[test]
fn changed_pid_is_published_once() {
    let mut watcher = PidWatcher::new(100);
    assert_eq!(watcher.observe(200), Some(PidChange { old: 100, new: 200 }));
    assert_eq!(watcher.observe(200), None);
}

#[test]
fn missing_process_is_ignored_and_not_remembered() {
    let mut watcher = PidWatcher::new(100);
    assert_eq!(watcher.observe(0), None);
    assert_eq!(watcher.observe(-1), None);
    assert_eq!(watcher.observe(100), None);
    assert_eq!(watcher.observe(300), Some(PidChange { old: 100, new: 300 }));
}

#[test]
fn first_process_after_none_is_published() {
    for initial in [0, -1, i32::MIN] {
        let mut watcher = PidWatcher::new(initial);
        assert_eq!(watcher.observe(initial), None);
        assert_eq!(watcher.observe(1), Some(PidChange { old: initial, new: 1 }));
    }
}

#[test]
fn published_pids_are_real_changes() {
    let mut watcher = PidWatcher::new(5);
    let mut published = Vec::new();
    for look in [5, 0, 5, 6, 6, -1, 6, 7, 5, 0, 5] {
        if let Some(change) = watcher.observe(look) {
            published.push(change.new);
        }
    }
    assert_eq!(published, vec![6, 7, 5]);
}
