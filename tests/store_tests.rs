use golem_monitor::reply::{Reply, StoreError};
use golem_monitor::scan::ScanStream;
use golem_monitor::store::{
    decode_hash, decode_scan_page, hgetall_command, node_key, scan_command, srem_command,
    sscan_command,
};
use golem_monitor::text::{parse_u64, u64_to_decimal};

fn bulk(s: &str) -> Reply {
    Reply::BulkString(s.as_bytes().to_vec())
}

fn page(cursor: &str, keys: &[&str]) -> Reply {
    Reply::Array(vec![bulk(cursor), Reply::Array(keys.iter().map(|k| bulk(k)).collect())])
}

#[test]
fn decimal_text_of_numbers() {
    assert_eq!(u64_to_decimal(0), "0");
    assert_eq!(u64_to_decimal(22518), "22518");
    assert_eq!(u64_to_decimal(u64::MAX), "18446744073709551615");
}

#[test]
fn parse_decimal_numbers() {
    assert_eq!(parse_u64("314"), Some(314));
    assert_eq!(parse_u64("+7"), Some(7));
    assert_eq!(parse_u64("18446744073709551615"), Some(u64::MAX));
    assert_eq!(parse_u64("18446744073709551616"), None);
    assert_eq!(parse_u64(""), None);
    assert_eq!(parse_u64("+"), None);
    assert_eq!(parse_u64("-1"), None);
    assert_eq!(parse_u64("12a"), None);
    for n in [0u64, 9, 10, 99, 1530717930, u64::MAX] {
        assert_eq!(parse_u64(&u64_to_decimal(n)), Some(n));
    }
}

#[test]
fn reply_decoders() {
    assert_eq!(bulk("abc").into_string().ok(), Some("abc".to_string()));
    assert_eq!(Reply::SimpleString("OK".into()).into_string().ok(), Some("OK".to_string()));
    assert!(matches!(Reply::BulkString(vec![0xff, 0xfe]).into_string(), Err(StoreError::Shape(_))));
    assert!(matches!(Reply::Integer(3).into_string(), Err(StoreError::Shape(_))));
    assert!(matches!(Reply::Nil.into_string(), Err(StoreError::Shape(_))));
    let (a, b) = Reply::Array(vec![bulk("x"), bulk("y"), bulk("z")]).into_pair().ok().unwrap();
    assert_eq!(a.into_string().ok(), Some("x".to_string()));
    assert_eq!(b.into_string().ok(), Some("y".to_string()));
    assert!(matches!(Reply::Array(vec![bulk("x")]).into_pair(), Err(StoreError::Shape(_))));
    assert!(matches!(bulk("x").into_vec(), Err(StoreError::Shape(_))));
    assert_eq!(Reply::Array(vec![Reply::Nil, Reply::Nil]).into_vec().ok().map(|v| v.len()), Some(2));
}

#[test]
fn commands_are_spelled_out() {
    assert_eq!(scan_command("nodeinfo.*", 0, 10), vec!["SCAN", "0", "MATCH", "nodeinfo.*", "COUNT", "10"]);
    assert_eq!(sscan_command("active_nodes", 17, 10), vec!["SSCAN", "active_nodes", "17", "COUNT", "10"]);
    assert_eq!(hgetall_command("nodeinfo.a"), vec!["HGETALL", "nodeinfo.a"]);
    assert_eq!(srem_command("active_nodes", "a"), vec!["SREM", "active_nodes", "a"]);
    assert_eq!(node_key("abc"), "nodeinfo.abc");
}

#[test]
fn scan_page_decoding() {
    let p = decode_scan_page(page("42", &["a", "b"])).ok().unwrap();
    assert_eq!(p.cursor, 42);
    assert_eq!(p.keys, vec!["a", "b"]);
    assert!(matches!(decode_scan_page(page("x", &["a"])), Err(StoreError::Shape(_))));
    assert!(matches!(decode_scan_page(Reply::Array(vec![bulk("0")])), Err(StoreError::Shape(_))));
    assert!(matches!(
        decode_scan_page(Reply::Array(vec![bulk("0"), bulk("a")])),
        Err(StoreError::Shape(_))
    ));
}

#[test]
fn hash_decoding() {
    let r = Reply::Array(vec![bulk("cliid"), bulk("x"), bulk("timestamp"), bulk("5")]);
    let h = decode_hash(r).ok().unwrap();
    assert_eq!(h, vec![("cliid".to_string(), "x".to_string()), ("timestamp".to_string(), "5".to_string())]);
    assert!(decode_hash(Reply::Array(vec![])).ok().unwrap().is_empty());
    assert!(matches!(decode_hash(Reply::Array(vec![bulk("a")])), Err(StoreError::Shape(_))));
    assert!(matches!(decode_hash(Reply::Nil), Err(StoreError::Shape(_))));
}

#[test]
fn scan_yields_every_page_then_stops() {
    // 7 keys, pages of 3: the store answers cursors 0 -> 5 -> 9 -> 0
    let replies = vec![
        page("5", &["k1", "k2", "k3"]),
        page("9", &["k4", "k5", "k6"]),
        page("0", &["k7"]),
    ];
    let mut scan = ScanStream::new();
    let mut asked = Vec::new();
    let mut batches = Vec::new();
    let mut replies = replies.into_iter();
    while let Some(c) = scan.next_cursor() {
        asked.push(c);
        batches.push(scan.on_reply(Ok(replies.next().unwrap())).ok().unwrap());
    }
    assert_eq!(asked, vec![0, 5, 9]);
    assert_eq!(batches.len(), 3);
    let mut all: Vec<String> = batches.concat();
    all.sort();
    assert_eq!(all, vec!["k1", "k2", "k3", "k4", "k5", "k6", "k7"]);
}

#[test]
fn scan_ends_on_error() {
    let mut scan = ScanStream::new();
    let first = scan.on_reply(Ok(page("3", &["a"]))).ok().unwrap();
    assert_eq!(first, vec!["a"]);
    assert_eq!(scan.next_cursor(), Some(3));
    let e = scan.on_reply(Err(StoreError::Transport("timeout".into())));
    assert!(matches!(e, Err(StoreError::Transport(_))));
    assert_eq!(scan.next_cursor(), None);
    let mut scan = ScanStream::new();
    assert!(matches!(scan.on_reply(Ok(Reply::Nil)), Err(StoreError::Shape(_))));
    assert_eq!(scan.next_cursor(), None);
}
