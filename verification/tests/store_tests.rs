use rns_dns::level::LevelFilter;
use rns_dns::store::{get_visible_logs, ProcessLog, DEFAULT_CAPACITY};
use rns_dns::text::{chars_of, decimal, join_with_newlines, string_of};

fn filled(capacity: usize, n: usize) -> ProcessLog {
    let mut p = ProcessLog::new("p".to_string(), "cmd".to_string(), capacity);
    for i in 0..n {
        p.push_line(format!("line {}", i));
    }
    p
}

fn stored(p: &ProcessLog) -> Vec<String> {
    get_visible_logs(p, LevelFilter::All, "", false)
}

#[test]
fn new_process_is_empty() {
    let p = ProcessLog::new("a".to_string(), "echo hi".to_string(), 5);
    assert_eq!(p.name, "a");
    assert_eq!(p.command, "echo hi");
    assert_eq!(p.capacity, 5);
    assert_eq!(p.len(), 0);
    assert_eq!(DEFAULT_CAPACITY, 10000);
}

#[test]
fn buffer_holds_every_line_below_capacity() {
    let p = filled(5, 3);
    assert_eq!(p.len(), 3);
    assert_eq!(stored(&p), vec!["line 0", "line 1", "line 2"]);
}

#[test]
fn buffer_keeps_the_newest_lines_in_order() {
    let p = filled(3, 10);
    assert_eq!(p.len(), 3);
    assert_eq!(stored(&p), vec!["line 7", "line 8", "line 9"]);
    let q = filled(3, 3);
    assert_eq!(stored(&q), vec!["line 0", "line 1", "line 2"]);
    let r = filled(3, 4);
    assert_eq!(stored(&r), vec!["line 1", "line 2", "line 3"]);
}

#[test]
fn buffer_length_is_min_of_appends_and_capacity() {
    for cap in 0..6usize {
        for n in 0..12usize {
            assert_eq!(filled(cap, n).len(), n.min(cap));
        }
    }
}

#[test]
fn buffer_of_capacity_zero_stays_empty() {
    let p = filled(0, 4);
    assert_eq!(p.len(), 0);
    assert!(stored(&p).is_empty());
}

#[test]
fn default_capacity_evicts_after_ten_thousand() {
    let p = filled(DEFAULT_CAPACITY, 10_002);
    assert_eq!(p.len(), 10_000);
    let lines = stored(&p);
    assert_eq!(lines[0], "line 2");
    assert_eq!(lines[9_999], "line 10001");
}

#[test]
fn visible_logs_filter_and_keep_colour() {
    let mut p = ProcessLog::new("p".to_string(), "c".to_string(), 10);
    p.push_line("\x1b[34mINFO \x1b[0m | boot".to_string());
    p.push_line("\x1b[31mERROR\x1b[0m | disk full".to_string());
    p.push_line("plain error line".to_string());
    p.push_line("WARN | Disk nearly full".to_string());
    assert_eq!(
        get_visible_logs(&p, LevelFilter::Error, "", false),
        vec!["\x1b[31mERROR\x1b[0m | disk full", "plain error line"]
    );
    assert_eq!(
        get_visible_logs(&p, LevelFilter::Error, "", true),
        vec!["ERROR | disk full", "plain error line"]
    );
    assert_eq!(
        get_visible_logs(&p, LevelFilter::All, "DISK", true),
        vec!["ERROR | disk full", "WARN | Disk nearly full"]
    );
    assert!(get_visible_logs(&p, LevelFilter::Fatal, "", false).is_empty());
    assert!(get_visible_logs(&p, LevelFilter::All, "zzz", false).is_empty());
    assert_eq!(get_visible_logs(&p, LevelFilter::All, "", false).len(), 4);
}

#[test]
fn filtering_twice_changes_nothing() {
    let mut p = ProcessLog::new("p".to_string(), "c".to_string(), 10);
    for l in ["INFO a", "ERROR b", "error c", "WARN d", "\x1b[31mERROR\x1b[0m e"] {
        p.push_line(l.to_string());
    }
    let once = get_visible_logs(&p, LevelFilter::Error, "", false);
    let mut q = ProcessLog::new("q".to_string(), "c".to_string(), 10);
    for l in &once {
        q.push_line(l.clone());
    }
    let twice = get_visible_logs(&q, LevelFilter::Error, "", false);
    assert_eq!(once, twice);
    assert_eq!(once.len(), 3);
}

#[test]
fn join_puts_line_feeds_between_lines() {
    assert_eq!(join_with_newlines(&vec![]), "");
    assert_eq!(join_with_newlines(&vec!["a".to_string()]), "a");
    assert_eq!(join_with_newlines(&vec!["a".to_string(), "b".to_string()]), "a\nb");
    assert_eq!(
        join_with_newlines(&vec!["".to_string(), "".to_string(), "c".to_string()]),
        "\n\nc"
    );
}

#[test]
fn chars_round_trip() {
    let v = chars_of("añ✓");
    assert_eq!(v, vec!['a', 'ñ', '✓']);
    assert_eq!(string_of(&v), "añ✓");
    assert_eq!(string_of(&[]), "");
}

#[test]
fn decimal_writes_digits() {
    assert_eq!(decimal(0), "0");
    assert_eq!(decimal(7), "7");
    assert_eq!(decimal(10), "10");
    assert_eq!(decimal(4242), "4242");
    assert_eq!(decimal(65535), "65535");
    assert_eq!(decimal(4294967295), "4294967295");
    assert_eq!(decimal(u64::MAX), "18446744073709551615");
}
