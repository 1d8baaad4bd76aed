use golem_monitor::roster::{
    csv_fields, csv_header, csv_row_values, csv_rows, is_stale, lookup, map_csv_field,
    obfuscate_ip, record_json, redact_record, review_node, str_eq,
};

fn rec(pairs: &[(&str, &str)]) -> Vec<(String, String)> {
    pairs.iter().map(|(k, v)| (k.to_string(), v.to_string())).collect()
}

#[test]
fn obfuscate_keeps_first_component() {
    assert_eq!(obfuscate_ip("206.174.118.78"), "206.x.x.x");
    assert_eq!(obfuscate_ip(""), "x.x.x.x");
    assert_eq!(obfuscate_ip("1.2.3.4"), "1.x.x.x");
    assert_eq!(obfuscate_ip("9.9.9.9"), "9.x.x.x");
    assert_eq!(obfuscate_ip("localhost"), "x.x.x.x");
    assert_eq!(obfuscate_ip(".5"), ".x.x.x");
}

#[test]
fn string_equality() {
    assert!(str_eq("ip", "ip"));
    assert!(!str_eq("ip", "ipa"));
    assert!(!str_eq("ab", "ac"));
    assert!(str_eq("", ""));
}

#[test]
fn columns_map_to_store_fields() {
    assert_eq!(map_csv_field("node_id"), "cliid");
    assert_eq!(map_csv_field("last_seen"), "timestamp");
    assert_eq!(map_csv_field("cpu_cores"), "num_cores");
    assert_eq!(map_csv_field("p2p_protocol_version"), "protocol_version_p2p");
    assert_eq!(map_csv_field("tasks_requested"), "tasks_requested");
    let cols = csv_fields();
    assert_eq!(cols.len(), 44);
    assert_eq!(cols[0], "node_id");
    assert_eq!(cols[43], "rs_failed_total_time");
}

#[test]
fn header_row_lists_columns() {
    let h = csv_header();
    assert!(h.starts_with("node_id,node_name,version,last_seen,os,"));
    assert!(h.ends_with(",rs_failed_cnt,rs_failed_total_time\n"));
    assert_eq!(h.matches(',').count(), 43);
}

#[test]
fn row_values_remap_and_redact() {
    let r = rec(&[("cliid", "n1"), ("ip", "10.1.2.3"), ("num_cores", "8"), ("timestamp", "77")]);
    let row = csv_row_values(&r);
    assert_eq!(row.len(), 44);
    assert_eq!(row[0], "n1");
    assert_eq!(row[1], "");
    assert_eq!(row[3], "77");
    assert_eq!(row[10], "10.x.x.x");
    assert_eq!(row[18], "8");
    assert!(row.iter().enumerate().all(|(i, v)| [0, 3, 10, 18].contains(&i) || v.is_empty()));
}

#[test]
fn csv_rows_quote_where_needed() {
    let records = vec![rec(&[("cliid", "a"), ("node_name", "x,y")]), rec(&[("cliid", "b")])];
    let bytes = csv_rows(&records);
    let text = String::from_utf8(bytes).unwrap();
    let lines: Vec<&str> = text.lines().collect();
    assert_eq!(lines.len(), 2);
    assert!(lines[0].starts_with("a,\"x,y\","));
    assert!(lines[1].starts_with("b,,"));
    assert_eq!(lines[1].matches(',').count(), 43);
    assert!(csv_rows(&vec![]).is_empty());
}

#[test]
fn record_json_escapes_strings() {
    let r = rec(&[("node_name", "say \"hi\""), ("ip", "1.x.x.x")]);
    let bytes = record_json(&r);
    assert_eq!(String::from_utf8(bytes.clone()).unwrap(), "{\"node_name\":\"say \\\"hi\\\"\",\"ip\":\"1.x.x.x\"}");
    let v: serde_json::Value = serde_json::from_slice(&bytes).unwrap();
    assert_eq!(v["node_name"], "say \"hi\"");
    assert_eq!(record_json(&vec![]), b"{}".to_vec());
}

#[test]
fn lookup_takes_last_match() {
    let r = rec(&[("a", "1"), ("b", "2"), ("a", "3")]);
    assert_eq!(lookup(&r, "a").map(|s| s.as_str()), Some("3"));
    assert_eq!(lookup(&r, "c"), None);
}

#[test]
fn redact_only_touches_ip() {
    let r = redact_record(rec(&[("ip", "5.6.7.8"), ("cliid", "q")]));
    assert_eq!(r, rec(&[("ip", "5.x.x.x"), ("cliid", "q")]));
}

#[test]
fn staleness_by_timestamp() {
    let threshold = 120_000;
    let now = 1_000_000;
    let expired = rec(&[("timestamp", &(now - threshold - 1).to_string())]);
    let edge = rec(&[("timestamp", &(now - threshold).to_string())]);
    assert!(is_stale(&expired, threshold, now));
    assert!(!is_stale(&edge, threshold, now));
    assert!(!is_stale(&rec(&[]), threshold, now));
    assert!(!is_stale(&rec(&[("timestamp", "soon")]), threshold, now));
    assert!(!is_stale(&rec(&[("timestamp", "999999999999")]), threshold, now));
}

#[test]
fn expired_node_is_listed_and_removed() {
    let threshold = 120_000;
    let now = 1_700_000_000_000u64;
    let record = rec(&[("cliid", "x"), ("ip", "9.9.9.9"), ("timestamp", &(now - threshold - 1).to_string())]);
    let review = review_node("x", record, Some(threshold), now);
    assert_eq!(review.remove, Some(vec!["SREM".to_string(), "active_nodes".to_string(), "x".to_string()]));
    assert_eq!(lookup(&review.record, "cliid").map(|s| s.as_str()), Some("x"));
    assert_eq!(lookup(&review.record, "ip").map(|s| s.as_str()), Some("9.x.x.x"));
    let fresh = rec(&[("cliid", "y"), ("timestamp", &now.to_string())]);
    assert_eq!(review_node("y", fresh, Some(threshold), now).remove, None);
    let old = rec(&[("cliid", "z"), ("timestamp", "0")]);
    assert_eq!(review_node("z", old, None, now).remove, None);
}
