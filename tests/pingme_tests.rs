use golem_monitor::pingme::{parse_u16, parse_url_params, ping_report, PingParams, PortState, PortStatus, MAX_PORTS};

/// The timestamp a request carries: the last one that reads as a number, 0 where none does.
fn timestamp(p: &PingParams) -> f64 {
    p.timestamps.iter().filter_map(|t| t.parse::<f64>().ok()).last().unwrap_or(0f64)
}

#[test]
fn test_empty() {
    let ping_me = parse_url_params("".as_bytes());
    assert_eq!(ping_me.ports, Vec::<u16>::new());
    assert_eq!(ping_me.port, None);
    assert_eq!(timestamp(&ping_me), 0f64);
}

#[test]
fn test_timestamp() {
    let ping_me = parse_url_params("timestamp=3.14".as_bytes());
    assert_eq!(ping_me.ports, Vec::<u16>::new());
    assert_eq!(ping_me.port, None);
    assert_eq!(timestamp(&ping_me), 3.14);
}

#[test]
fn test_parse_single_port() {
    let ping_me = parse_url_params("port=37&timestamp=7".as_bytes());
    assert_eq!(ping_me.ports, Vec::<u16>::new());
    assert_eq!(ping_me.port, Some(37));
    assert_eq!(timestamp(&ping_me), 7f64);
}

#[test]
fn test_parse_multiple_ports() {
    let ping_me = parse_url_params("ports=40102&ports=40103&ports=3282&timestamp=1530717930.2452438".as_bytes());
    assert_eq!(ping_me.ports, vec![40102, 40103, 3282]);
    assert_eq!(ping_me.port, None);
    assert_eq!(timestamp(&ping_me), 1530717930.2452438);
}

#[test]
fn test_parse_unknown() {
    let ping_me = parse_url_params("portsa=40102&portsb=40103&ports=3282&timestamp=1530717930.2452438".as_bytes());
    assert_eq!(ping_me.ports, vec![3282]);
    assert_eq!(ping_me.port, None);
    assert_eq!(timestamp(&ping_me), 1530717930.2452438);
}

#[test]
fn percent_decoding_and_bad_ports() {
    let p = parse_url_params("port=%33%37&ports=70000&ports=x&ports=%2B5".as_bytes());
    assert_eq!(p.port, Some(37));
    assert_eq!(p.ports, vec![5]);
    let p = parse_url_params("port=1&port=zz".as_bytes());
    assert_eq!(p.port, None);
    assert_eq!(parse_u16("65535"), Some(65535));
    assert_eq!(parse_u16("65536"), None);
}

#[test]
fn ports_list_then_single() {
    let p = PingParams { port: Some(9), ports: vec![1, 2], timestamps: vec![] };
    assert_eq!(p.ports(), vec![1, 2, 9]);
    assert_eq!(p.checked_ports(), Some(vec![1, 2, 9]));
    let many = PingParams { port: Some(9), ports: vec![1, 2, 3, 4, 5], timestamps: vec![] };
    assert_eq!(MAX_PORTS, 5);
    assert_eq!(many.checked_ports(), None);
}

#[test]
fn report_lines() {
    let all = vec![
        PortStatus { port: 40102, state: PortState::Open },
        PortStatus { port: 40103, state: PortState::Timeout },
        PortStatus { port: 3282, state: PortState::Unreachable },
    ];
    let (ok, text) = ping_report(&all);
    assert!(!ok);
    assert_eq!(text, "40102: open\n40103: timeout\n3282: unreachable");
    let (ok, text) = ping_report(&vec![PortStatus { port: 1, state: PortState::Open }]);
    assert!(ok);
    assert_eq!(text, "1: open");
    let (ok, text) = ping_report(&vec![]);
    assert!(ok);
    assert_eq!(text, "");
}
