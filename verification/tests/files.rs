use termlog::file_finder::{find_latest_live_log, is_live_log_name, precedes};
use termlog::metadata::{clamp_range, has_changed, FileTracker, MetaSnap, TimeSpec};

fn snap(len: u64, sec: i64) -> MetaSnap {
    MetaSnap { len, mtime: TimeSpec { sec, nsec: 0 } }
}

#[test]
fn first_snapshot_counts_as_a_change() {
    assert!(has_changed(&None, &snap(0, 0)));
}

#[test]
fn change_is_seen_in_length_or_time() {
    let prev = Some(snap(10, 5));
    assert!(!has_changed(&prev, &snap(10, 5)));
    assert!(has_changed(&prev, &snap(11, 5)));
    assert!(has_changed(&prev, &snap(10, 6)));
    let later = MetaSnap { len: 10, mtime: TimeSpec { sec: 5, nsec: 1 } };
    assert!(has_changed(&prev, &later));
}

#[test]
fn tracker_reads_what_was_appended() {
    let mut t = FileTracker::new();
    assert_eq!(t.observe(snap(100, 1)), Some((0, 100)));
    assert_eq!(t.last_len, 100);
    assert_eq!(t.observe(snap(100, 1)), None);
    assert_eq!(t.observe(snap(150, 2)), Some((100, 150)));
    assert_eq!(t.last_len, 150);
    // touched but not grown
    assert_eq!(t.observe(snap(150, 3)), None);
    assert_eq!(t.last_len, 150);
    assert_eq!(t.prev_meta.as_ref().unwrap().mtime.sec, 3);
}

#[test]
fn truncated_file_is_read_from_its_beginning() {
    let mut t = FileTracker::new();
    t.observe(snap(100, 1));
    assert_eq!(t.observe(snap(30, 2)), Some((0, 30)));
    assert_eq!(t.last_len, 30);
    assert_eq!(t.observe(snap(0, 3)), None);
    assert_eq!(t.last_len, 0);
}

#[test]
fn empty_file_gives_nothing_to_read() {
    let mut t = FileTracker::new();
    assert_eq!(t.observe(snap(0, 1)), None);
    assert!(t.prev_meta.is_some());
}

#[test]
fn ranges_are_cut_to_the_snapshot() {
    assert_eq!(clamp_range(10, 20, 100), (10, 20));
    assert_eq!(clamp_range(10, 200, 100), (10, 100));
    assert_eq!(clamp_range(150, 200, 100), (100, 100));
    assert_eq!(clamp_range(20, 10, 100), (20, 20));
    assert_eq!(clamp_range(0, 0, 0), (0, 0));
}

#[test]
fn live_logs_are_not_rotated_copies() {
    assert!(is_live_log_name("preview.log"));
    assert!(is_live_log_name("2024-05-01.preview.log"));
    assert!(is_live_log_name(".log"));
    assert!(is_live_log_name("a.b1.log"));
    assert!(is_live_log_name("a..log"));
    assert!(is_live_log_name("a.-1.log"));
    assert!(is_live_log_name("a.99999999999.log")); // too large for a number of 32 bits
    assert!(is_live_log_name("größe.log"));
    assert!(is_live_log_name("7.log")); // a number counts only behind a dot
    assert!(!is_live_log_name("preview.1.log"));
    assert!(!is_live_log_name("preview.+1.log"));
    assert!(!is_live_log_name("preview.007.log"));
    assert!(!is_live_log_name("preview.4294967295.log"));
}

#[test]
fn other_files_are_no_logs() {
    assert!(!is_live_log_name("preview.txt"));
    assert!(!is_live_log_name("log"));
    assert!(!is_live_log_name("preview.log.gz"));
    assert!(!is_live_log_name("preview.LOG"));
    assert!(!is_live_log_name(""));
}

#[test]
fn names_are_ordered_by_their_bytes() {
    assert!(precedes("a", "b"));
    assert!(precedes("a", "ab"));
    assert!(precedes("", "a"));
    assert!(precedes("B", "a"));
    assert!(!precedes("b", "a"));
    assert!(!precedes("a", "a"));
    assert!(!precedes("", ""));
    assert!(precedes("z", "ä"));
}

#[test]
fn latest_live_log_comes_last_by_name() {
    let names: Vec<String> = ["a.log", "c.1.log", "b.log", "notes.txt", "b.log", "a.2.log"]
        .iter()
        .map(|s| s.to_string())
        .collect();
    assert_eq!(find_latest_live_log(&names), Some(2));
    let none: Vec<String> = vec!["x.1.log".to_string(), "y.txt".to_string()];
    assert_eq!(find_latest_live_log(&none), None);
    assert_eq!(find_latest_live_log(&Vec::new()), None);
}
