use rns_dns::ansi::strip_ansi;
use rns_dns::filter::{
    contains_chars, is_visible, matches_folded_text, matches_level_filter, matches_text_filter,
    to_ascii_lower,
};
use rns_dns::level::LevelFilter;

#[test]
fn strip_leaves_plain_line_unchanged() {
    assert_eq!(strip_ansi("2024-01-01 INFO started"), "2024-01-01 INFO started");
    assert_eq!(strip_ansi(""), "");
    assert_eq!(strip_ansi("héllo wörld ✓"), "héllo wörld ✓");
}

#[test]
fn strip_removes_colour_sequences() {
    assert_eq!(strip_ansi("\x1b[31mERROR\x1b[0m boom"), "ERROR boom");
    assert_eq!(strip_ansi("a\x1b[1;34mb\x1b[0mc"), "abc");
    assert_eq!(strip_ansi("\x1b[m"), "");
    assert_eq!(strip_ansi("\x1b[38;2;1;2;3mx"), "x");
}

#[test]
fn strip_runs_to_the_first_m() {
    assert_eq!(strip_ansi("\x1b[2Jhim"), "");
    assert_eq!(strip_ansi("\x1b[31mmm"), "mm");
}

#[test]
fn strip_keeps_what_is_no_sequence() {
    assert_eq!(strip_ansi("\x1b[31"), "\x1b[31");
    assert_eq!(strip_ansi("abc\x1b["), "abc\x1b[");
    assert_eq!(strip_ansi("\x1b"), "\x1b");
    assert_eq!(strip_ansi("\x1bmx"), "\x1bmx");
    assert_eq!(strip_ansi("[0m"), "[0m");
    assert_eq!(strip_ansi("\x1b[0mtail\x1b[1"), "tail\x1b[1");
}

#[test]
fn strip_is_idempotent_on_ordinary_lines() {
    for line in ["plain", "\x1b[31mred\x1b[0m", "a\x1b[1mb\x1b[0mc\x1b[", "\x1b\x1b"] {
        let once = strip_ansi(line);
        assert_eq!(strip_ansi(&once), once);
    }
}

#[test]
fn strip_twice_can_differ_when_a_sequence_is_uncovered() {
    let once = strip_ansi("\x1b\x1b[0m[0m");
    assert_eq!(once, "\x1b[0m");
    assert_eq!(strip_ansi(&once), "");
}

#[test]
fn ascii_lower_changes_capitals_only() {
    assert_eq!(to_ascii_lower('A'), 'a');
    assert_eq!(to_ascii_lower('Z'), 'z');
    assert_eq!(to_ascii_lower('a'), 'a');
    assert_eq!(to_ascii_lower('@'), '@');
    assert_eq!(to_ascii_lower('['), '[');
    assert_eq!(to_ascii_lower('É'), 'É');
}

#[test]
fn contains_chars_finds_substrings() {
    let hay: Vec<char> = "hello world".chars().collect();
    let yes: Vec<char> = "lo w".chars().collect();
    let no: Vec<char> = "low".chars().collect();
    let end: Vec<char> = "world".chars().collect();
    let long: Vec<char> = "hello world!".chars().collect();
    assert!(contains_chars(&hay, &yes));
    assert!(!contains_chars(&hay, &no));
    assert!(contains_chars(&hay, &end));
    assert!(contains_chars(&hay, &[]));
    assert!(contains_chars(&[], &[]));
    assert!(!contains_chars(&hay, &long));
    assert!(contains_chars(&hay, &hay));
}

#[test]
fn level_all_admits_every_line() {
    assert!(matches_level_filter("", LevelFilter::All));
    assert!(matches_level_filter("no level here", LevelFilter::All));
}

#[test]
fn level_is_found_as_word_or_inside_one() {
    assert!(matches_level_filter("x ERROR y", LevelFilter::Error));
    assert!(matches_level_filter("x [ERROR] y", LevelFilter::Error));
    assert!(matches_level_filter("xERRORy", LevelFilter::Error));
    assert!(matches_level_filter("an error occurred", LevelFilter::Error));
    assert!(matches_level_filter("\x1b[31mERROR\x1b[0m | boom", LevelFilter::Error));
    assert!(matches_level_filter("ER\x1b[1mROR", LevelFilter::Error));
    assert!(!matches_level_filter("INFO a1", LevelFilter::Error));
    assert!(!matches_level_filter("\x1b[34mINFO \x1b[0m | ok", LevelFilter::Warn));
    assert!(matches_level_filter("trace: x", LevelFilter::Trace));
    assert!(matches_level_filter("FATAL", LevelFilter::Fatal));
    assert!(!matches_level_filter("FATA", LevelFilter::Fatal));
}

#[test]
fn text_filter_ignores_case_and_colour() {
    assert!(matches_text_filter("Hello World", "hello"));
    assert!(matches_text_filter("hello world", "WORLD"));
    assert!(matches_text_filter("\x1b[31mHel\x1b[0mlo", "hello"));
    assert!(matches_text_filter("STRASSE ÄPFEL", "äpfel"));
    assert!(!matches_text_filter("hello", "help"));
    assert!(matches_text_filter("anything", ""));
    assert!(matches_text_filter("", ""));
    assert!(!matches_text_filter("", "x"));
}

#[test]
fn folded_text_is_matched_as_given() {
    assert!(matches_folded_text("Hello World", "hello"));
    assert!(!matches_folded_text("Hello World", "Hello"));
}

#[test]
fn no_filter_shows_every_line() {
    for line in ["", "x", "\x1b[31mERROR\x1b[0m", "INFO a1", "\x1b["] {
        assert!(is_visible(line, LevelFilter::All, ""));
    }
}

#[test]
fn text_filter_that_matches_nothing_hides_every_line() {
    for line in ["", "x", "\x1b[31mERROR\x1b[0m", "INFO a1"] {
        for level in [LevelFilter::All, LevelFilter::Error, LevelFilter::Info] {
            assert!(!is_visible(line, level, "zzz"));
        }
    }
}

#[test]
fn both_filters_must_pass() {
    assert!(is_visible("ERROR disk full", LevelFilter::Error, "DISK"));
    assert!(!is_visible("ERROR disk full", LevelFilter::Warn, "disk"));
    assert!(!is_visible("ERROR disk full", LevelFilter::Error, "net"));
}

#[test]
fn level_cycle_and_labels() {
    let mut l = LevelFilter::All;
    let order = [
        LevelFilter::Trace,
        LevelFilter::Info,
        LevelFilter::Warn,
        LevelFilter::Error,
        LevelFilter::Fatal,
        LevelFilter::All,
    ];
    for want in order {
        l = l.next();
        assert_eq!(l, want);
    }
    assert_eq!(LevelFilter::All.as_str(), "ALL");
    assert_eq!(LevelFilter::Trace.as_str(), "TRACE");
    assert_eq!(LevelFilter::Info.as_str(), "INFO");
    assert_eq!(LevelFilter::Warn.as_str(), "WARN");
    assert_eq!(LevelFilter::Error.as_str(), "ERROR");
    assert_eq!(LevelFilter::Fatal.as_str(), "FATAL");
}

#[test]
fn strip_is_idempotent_where_no_escape_follows_another() {
    for line in [
        "\x1b[31m\x1b[1mbold red\x1b[0m",
        "a\x1bb\x1b[mc",
        "\x1b[\x1b[0m",
        "x\x1b[0m[0m",
        "\x1b[1\x1b[2\x1b[3m!",
    ] {
        let once = strip_ansi(line);
        assert_eq!(strip_ansi(&once), once);
    }
    assert_eq!(strip_ansi("\x1b[\x1b[0m"), "");
    assert_eq!(strip_ansi("x\x1b[0m[0m"), "x[0m");
}
