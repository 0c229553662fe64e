use rns_dns::ping::{parse_ping, parse_u64, PingTracker};

fn chars(s: &str) -> Vec<char> {
    s.chars().collect()
}

#[test]
fn parse_u64_reads_decimal_numbers() {
    assert_eq!(parse_u64(&chars("0")), Some(0));
    assert_eq!(parse_u64(&chars("42")), Some(42));
    assert_eq!(parse_u64(&chars("+42")), Some(42));
    assert_eq!(parse_u64(&chars("007")), Some(7));
    assert_eq!(parse_u64(&chars("18446744073709551615")), Some(u64::MAX));
    assert_eq!(parse_u64(&chars("18446744073709551616")), None);
    assert_eq!(parse_u64(&chars("99999999999999999999999")), None);
    assert_eq!(parse_u64(&chars("")), None);
    assert_eq!(parse_u64(&chars("+")), None);
    assert_eq!(parse_u64(&chars("-1")), None);
    assert_eq!(parse_u64(&chars("1 ")), None);
    assert_eq!(parse_u64(&chars(" 1")), None);
    assert_eq!(parse_u64(&chars("1_000")), None);
    assert_eq!(parse_u64(&chars("++1")), None);
    assert_eq!(parse_u64(&chars("٣")), None);
}

#[test]
fn parse_u64_agrees_with_the_standard_parser() {
    for text in [
        "", "+", "-", "0", "+0", "-0", "12", "0012", "1a", "a1", "18446744073709551615",
        "18446744073709551616", "+18446744073709551615", "184467440737095516150", " 5", "5 ",
        "5+", "+-5", "0x10", "1e3", "１２",
    ] {
        assert_eq!(parse_u64(&chars(text)), text.parse::<u64>().ok());
    }
}

#[test]
fn parse_ping_reads_the_number() {
    assert_eq!(parse_ping("ping 0"), Some(0));
    assert_eq!(parse_ping("ping 17"), Some(17));
    assert_eq!(parse_ping("ping:17"), Some(17));
    assert_eq!(parse_ping("ping +3"), Some(3));
    assert_eq!(parse_ping("ping"), None);
    assert_eq!(parse_ping("ping "), None);
    assert_eq!(parse_ping("pong 1"), None);
    assert_eq!(parse_ping("Ping 1"), None);
    assert_eq!(parse_ping("ping  1"), None);
    assert_eq!(parse_ping("pingé1"), None);
    assert_eq!(parse_ping("ping 1x"), None);
    assert_eq!(parse_ping(""), None);
}

#[test]
fn tracker_notes_skipped_numbers() {
    let mut t = PingTracker::new();
    assert_eq!(t.next_ping, 0);
    t.record(0);
    assert_eq!((t.next_ping, t.missed_pings.clone()), (1, vec![]));
    t.record(4);
    assert_eq!((t.next_ping, t.missed_pings.clone()), (5, vec![1, 2, 3]));
    t.record(5);
    assert_eq!((t.next_ping, t.missed_pings.clone()), (6, vec![1, 2, 3]));
    t.record(2);
    assert_eq!((t.next_ping, t.missed_pings.clone()), (3, vec![1, 2, 3]));
    t.record(4);
    assert_eq!((t.next_ping, t.missed_pings.clone()), (5, vec![1, 2, 3, 3]));
}

#[test]
fn tracker_answers_pings_only() {
    let mut t = PingTracker::new();
    assert_eq!(t.handle_payload("ping 2"), Some("pong 2".to_string()));
    assert_eq!((t.next_ping, t.missed_pings.clone()), (3, vec![0, 1]));
    assert_eq!(t.handle_payload("hello"), None);
    assert_eq!(t.handle_payload("ping x"), None);
    assert_eq!(t.handle_payload("ping 18446744073709551615"), None);
    assert_eq!((t.next_ping, t.missed_pings.clone()), (3, vec![0, 1]));
    assert_eq!(t.handle_payload("ping 3"), Some("pong 3".to_string()));
    assert_eq!((t.next_ping, t.missed_pings.clone()), (4, vec![0, 1]));
}
