use rns_dns::request::{request_router, select_request, RequestError};
use rns_dns::words::{is_whitespace, split_words};
use rns_dns::types::{
    Connection, DestinationConfig, NodeSettings, PrivateIdentity, RNSDNSERRORS,
};

#[test]
fn whitespace_is_the_unicode_property() {
    for c in ['\t', '\n', '\u{b}', '\u{c}', '\r', ' ', '\u{85}', '\u{a0}', '\u{1680}', '\u{2000}',
        '\u{200a}', '\u{2028}', '\u{2029}', '\u{202f}', '\u{205f}', '\u{3000}']
    {
        assert!(is_whitespace(c));
        assert!(c.is_whitespace());
    }
    for c in ['a', '0', '\u{8}', '\u{e}', '\u{200b}', '\u{1f}', '\u{feff}', '\u{2007}'] {
        assert_eq!(is_whitespace(c), c.is_whitespace());
    }
    for code in 0u32..0x3100 {
        if let Some(c) = char::from_u32(code) {
            assert_eq!(is_whitespace(c), c.is_whitespace());
        }
    }
}

#[test]
fn words_are_runs_between_white_space() {
    assert_eq!(split_words("LOOKUP a.b  c"), vec!["LOOKUP", "a.b", "c"]);
    assert_eq!(split_words("  x\t\ny\u{3000}z  "), vec!["x", "y", "z"]);
    assert!(split_words("").is_empty());
    assert!(split_words(" \t ").is_empty());
    assert_eq!(split_words("é ü"), vec!["é", "ü"]);
    for text in ["a b", " a  b ", "", "one", "\u{a0}x\u{2003}y"] {
        let want: Vec<&str> = text.split_whitespace().collect();
        assert_eq!(split_words(text), want);
    }
}

#[test]
fn select_request_splits_command_and_arguments() {
    let p = select_request("  LOOKUP example.com now ").ok().unwrap();
    assert_eq!(p.command, "LOOKUP");
    assert_eq!(p.args, vec!["example.com", "now"]);
    let q = select_request("PING").ok().unwrap();
    assert_eq!(q.command, "PING");
    assert!(q.args.is_empty());
}

#[test]
fn select_request_refuses_an_empty_request() {
    assert_eq!(select_request("").err(), Some(RequestError::FailedToParse));
    assert_eq!(select_request(" \n\t").err(), Some(RequestError::FailedToParse));
}

#[test]
fn router_knows_four_commands() {
    for c in ["LOOKUP", "PING", "UPDATE", "CREATE", " PING x y", "CREATE a"] {
        assert_eq!(request_router(c), Ok(()));
    }
    for c in ["lookup", "DELETE", "PINGX", "x PING", "LOOK UP"] {
        assert_eq!(request_router(c), Err(RequestError::UnknownCommand));
    }
    assert_eq!(request_router(""), Err(RequestError::FailedToParse));
    assert_eq!(request_router("   "), Err(RequestError::FailedToParse));
}

#[test]
fn request_error_from_option() {
    assert_eq!(RequestError::from(None), RequestError::FailedToParse);
    assert_eq!(RequestError::from(Some("x")), RequestError::FailedToParse);
}

#[test]
fn connection_text() {
    assert_eq!(Connection::new_tcp("0.0.0.0".to_string(), 53317).to_string(), "Tcp;0.0.0.0:53317");
    assert_eq!(
        Connection::new_udp("0.0.0.0".to_string(), 4243, "127.0.0.1".to_string(), 4242).to_string(),
        "Udp;0.0.0.0:4243:127.0.0.1:4242"
    );
    assert_eq!(
        Connection::Serial { path: "/dev/ttyUSB0".to_string(), baud: 115200 }.to_string(),
        "Serial;/dev/ttyUSB0:115200"
    );
    assert_eq!(
        Connection::LoRa { freq: 868000000, bw: 125000, sf: 7, tx_power: 0 }.to_string(),
        "LoRa;868000000:125000:7:0"
    );
}

#[test]
fn builders_keep_their_arguments() {
    match Connection::new_tcp("h".to_string(), 1) {
        Connection::Tcp { local_host, local_port } => {
            assert_eq!(local_host, "h");
            assert_eq!(local_port, 1);
        }
        _ => panic!("not tcp"),
    }
    match Connection::new_udp("h".to_string(), 1, "r".to_string(), 2) {
        Connection::Udp { local_host, local_port, remote_host, remote_port } => {
            assert_eq!((local_host.as_str(), local_port), ("h", 1));
            assert_eq!((remote_host.as_str(), remote_port), ("r", 2));
        }
        _ => panic!("not udp"),
    }
    let d = DestinationConfig::new("app".to_string(), "space".to_string());
    assert_eq!(d.app_name, "app");
    assert_eq!(d.application_space, "space");
    let n = NodeSettings::new(
        vec![Connection::new_tcp("h".to_string(), 1)],
        PrivateIdentity::FromString("me".to_string()),
    );
    assert_eq!(n.interfaces.len(), 1);
    assert!(matches!(n.private_identity, PrivateIdentity::FromString(ref s) if s == "me"));
    assert!(matches!(PrivateIdentity::default(), PrivateIdentity::Rand));
    assert_eq!(RNSDNSERRORS::AlreadyExists, RNSDNSERRORS::AlreadyExists);
}
