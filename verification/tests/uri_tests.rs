use rns_dns::logging::{compose_log_line, logging_format, painted_label, LoggingLevel};
use rns_dns::ansi::strip_ansi;
use rns_dns::text::join_strings;
use rns_dns::types::Connection;
use rns_dns::uri::{
    connection_texts, generate_destination_url, generate_node_url, next_slash, parse_address,
    parse_rns, parse_url, RnsUri,
};

#[test]
fn parse_rns_reads_four_parts() {
    let (rest, uri) = parse_rns("rns://N/1/cat/example.com/abc/tail/more").unwrap();
    assert_eq!(uri.kind, 'N');
    assert_eq!(uri.version, "1");
    assert_eq!(uri.category, "cat");
    assert_eq!(uri.domain, "example.com");
    assert_eq!(uri.id, "abc");
    assert_eq!(rest, "tail/more");
}

#[test]
fn parse_rns_accepts_empty_parts_and_each_kind() {
    for kind in ['D', 'N', 'S'] {
        let text = format!("rns://{}/////", kind);
        let (rest, uri) = parse_rns(&text).unwrap();
        assert_eq!(uri.kind, kind);
        assert_eq!((uri.version, uri.category, uri.domain, uri.id), ("", "", "", ""));
        assert_eq!(rest, "");
    }
    let (rest, uri) = parse_rns("rns://D/2/ü/ö/ä/").unwrap();
    assert_eq!((uri.version, uri.category, uri.domain, uri.id), ("2", "ü", "ö", "ä"));
    assert_eq!(rest, "");
}

#[test]
fn parse_rns_refuses_what_is_no_address() {
    for text in [
        "",
        "rns://",
        "rns://N",
        "rns://N/",
        "rns://X/1/a/b/c/",
        "rns:/N/1/a/b/c/",
        "RNS://N/1/a/b/c/",
        "rns://N1/a/b/c/d/",
        "rns://N/1/a/b/c",
        "rns://N/1/a/b",
        " rns://N/1/a/b/c/",
        "rns://n/1/a/b/c/",
    ] {
        assert!(parse_rns(text).is_none());
    }
}

#[test]
fn parse_address_takes_the_kinds_given() {
    assert!(parse_address("rns://S/1/a/b/c/", "DN").is_none());
    assert!(parse_address("rns://D/1/a/b/c/", "DN").is_some());
    assert!(parse_address("rns://D/1/a/b/c/", "").is_none());
    let chars: Vec<char> = "ab/c/".chars().collect();
    assert_eq!(next_slash(&chars, 0), 2);
    assert_eq!(next_slash(&chars, 3), 4);
    assert_eq!(next_slash(&chars, 5), 5);
    assert_eq!(next_slash(&['a', 'b'], 0), 2);
}

#[test]
fn node_url_pairs_addresses_with_connections() {
    let interfaces = vec![
        Connection::new_udp("0.0.0.0".to_string(), 4243, "127.0.0.1".to_string(), 4242),
        Connection::new_tcp("0.0.0.0".to_string(), 53317),
    ];
    let hashes = vec![
        "/7c9fa136d4413fa6173637e883b6998d/".to_string(),
        "/d86e8112f3c4c4442126f8e9f44f1686/".to_string(),
    ];
    let key = [0xabu8, 0x99, 0x64, 0x9b, 0xb7, 0x70, 0xff, 0x97, 0x4f, 0x36, 0x6e, 0x27, 0x4c,
        0x0a, 0xb7, 0x72, 0xcb, 0xe9, 0x76, 0x69, 0x3d, 0xb2, 0x62, 0x17, 0x00, 0xa5, 0xa8, 0x85,
        0xc4, 0x4c, 0x9c, 0x14];
    assert_eq!(
        generate_node_url(&1, &hashes, &key, &interfaces),
        "rns://N/1/q5lkm7dw_5dPNm4nTAq3csvpdmk9smIXAKWohcRMnBQ/(/7c9fa136d4413fa6173637e883b6998d/ Udp;0.0.0.0:4243:127.0.0.1:4242),(/d86e8112f3c4c4442126f8e9f44f1686/ Tcp;0.0.0.0:53317)//"
    );
}

#[test]
fn node_url_stops_at_the_shorter_list() {
    let interfaces = vec![Connection::new_tcp("h".to_string(), 1)];
    let hashes = vec!["a".to_string(), "b".to_string()];
    assert_eq!(generate_node_url(&7, &hashes, &[], &interfaces), "rns://N/7//(a Tcp;h:1)//");
    assert_eq!(generate_node_url(&7, &vec![], &[0xff], &interfaces), "rns://N/7/_w///");
    assert_eq!(generate_node_url(&65535, &hashes, &[0xfb, 0xff], &vec![]), "rns://N/65535/-_8///");
}

#[test]
fn destination_url_encodes_both_names() {
    assert_eq!(
        generate_destination_url(&1, "node.config", "infra", &vec!["/ab/".to_string(), "/cd/".to_string()]),
        "rns://D/1/bm9kZS5jb25maWc/aW5mcmE//ab/,/cd///"
    );
    assert_eq!(generate_destination_url(&0, "", "", &vec![]), "rns://D/0/////");
    assert_eq!(generate_destination_url(&2, "ü", "a", &vec!["h".to_string()]), "rns://D/2/w7w/YQ/h//");
}

#[test]
fn connection_texts_in_order() {
    let interfaces = vec![
        Connection::new_tcp("a".to_string(), 1),
        Connection::Serial { path: "p".to_string(), baud: 9600 },
    ];
    assert_eq!(connection_texts(&interfaces), vec!["Tcp;a:1", "Serial;p:9600"]);
    assert_eq!(join_strings(&vec!["x".to_string(), "y".to_string(), "z".to_string()], ", "), "x, y, z");
    assert_eq!(join_strings(&vec![], ","), "");
}

#[test]
fn log_line_parts() {
    assert_eq!(compose_log_line("t", "ERROR", "boom"), "@[t] ERROR | boom");
    assert_eq!(compose_log_line("", "", ""), "@[]  | ");
    assert_eq!(LoggingLevel::Info.as_str(), "INFO ");
    assert_eq!(LoggingLevel::Warn.as_str(), "WARN ");
    assert_eq!(LoggingLevel::Trace.as_str(), "TRACE");
    assert_eq!(LoggingLevel::Error.as_str(), "ERROR");
    assert_eq!(LoggingLevel::Fatal.as_str(), "FATAL");
}

#[test]
fn painted_label_is_the_label_once_stripped() {
    for on in [true, false] {
        colored::control::set_override(on);
        for lvl in [
            LoggingLevel::Trace,
            LoggingLevel::Info,
            LoggingLevel::Warn,
            LoggingLevel::Error,
            LoggingLevel::Fatal,
        ] {
            assert_eq!(strip_ansi(&painted_label(lvl)), lvl.as_str());
        }
    }
    colored::control::set_override(true);
    assert_eq!(painted_label(LoggingLevel::Error), "\x1b[31mERROR\x1b[0m");
    assert_eq!(painted_label(LoggingLevel::Trace), "\x1b[35mTRACE\x1b[0m");
    assert_eq!(painted_label(LoggingLevel::Info), "\x1b[34mINFO \x1b[0m");
    assert_eq!(painted_label(LoggingLevel::Warn), "\x1b[33mWARN \x1b[0m");
    assert_eq!(painted_label(LoggingLevel::Fatal), "\x1b[101;30mFATAL\x1b[0m");
}

#[test]
fn logging_format_ends_with_level_and_message() {
    let line = strip_ansi(&logging_format(LoggingLevel::Error, "Failed to spawn process <x>"));
    assert!(line.starts_with("@["));
    assert!(line.ends_with("] ERROR | Failed to spawn process <x>"));
    let time = &line[2..line.len() - "] ERROR | Failed to spawn process <x>".len()];
    assert_eq!(time.len(), 26);
    assert_eq!(&time[4..5], "-");
    assert_eq!(&time[10..11], " ");
    assert_eq!(&time[13..14], ":");
}

#[test]
fn parse_url_reads_a_node_with_five_parts() {
    let (rest, uri) = parse_url("rns://N/1/skipped/cat/example.com/abc/tail").unwrap();
    match uri {
        RnsUri::Node(n) => {
            assert_eq!(n.kind, 'N');
            assert_eq!(n.version, "1");
            assert_eq!(n.category, "cat");
            assert_eq!(n.domain, "example.com");
            assert_eq!(n.id, "abc");
        }
        RnsUri::Destination => panic!("not a node"),
    }
    assert_eq!(rest, "tail");
}

#[test]
fn parse_url_reads_a_destination_with_four_parts() {
    let (rest, uri) = parse_url("rns://D/1/a/b/c/tail/").unwrap();
    assert!(matches!(uri, RnsUri::Destination));
    assert_eq!(rest, "tail/");
    let (rest, uri) = parse_url("rns://D/////").unwrap();
    assert!(matches!(uri, RnsUri::Destination));
    assert_eq!(rest, "");
}

#[test]
fn parse_url_refuses_what_is_no_address() {
    for text in [
        "",
        "rns://S/1/a/b/c/d/",
        "rns://N/1/a/b/c/",
        "rns://N/1/a/b/c/d",
        "rns://D/1/a/b/c",
        "rns:/D/1/a/b/c/",
        "rns://D1/a/b/c/",
    ] {
        assert!(parse_url(text).is_none());
    }
}
