use golem_monitor::roster::{csv_fields, csv_row_values, lookup, review_node};
use golem_monitor::telemetry::{
    join_words, protocol_versions_to_map, to_node_info, update_for_request, GolemRequest,
    GolemRequestBody, JsonScalar, Metadata, OSInfo, RequestorStats, Settings, Stats,
};
use golem_monitor::updater::{to_hmset_command, to_set_command, write_commands, UpdateMap, UpdateRedis, UpdateVal};

fn settings() -> Settings {
    Settings {
        start_port: Some(40102),
        end_port: Some(40103),
        estimated_blender_performance: Some("400.0".into()),
        estimated_lux_performance: None,
        estimated_performance: Some("1233.5".into()),
        max_memory_size: Some(2_000_000),
        max_price: Some(10),
        min_price: Some(1),
        max_resource_size: None,
        node_name: Some("node-a".into()),
        num_cores: Some(4),
    }
}

fn login(nvgpu: Option<bool>) -> GolemRequest {
    GolemRequest {
        cliid: "x".into(),
        body: GolemRequestBody::Login {
            metadata: Some(Metadata {
                net: Some("mainnet".into()),
                version: Some("0.17.0".into()),
                settings: settings(),
                os_info: OSInfo {
                    platform: None,
                    system: Some("Linux".into()),
                    release: None,
                    version: None,
                    windows_edition: None,
                    linux_distribution: Some(vec!["Ubuntu".into(), "18.04".into(), "bionic".into()]),
                },
                os: Some("linux".into()),
            }),
            protocol_versions: vec![
                ("p2p".into(), JsonScalar::Num("29".into())),
                ("task".into(), JsonScalar::Str("29".into())),
                ("nested".into(), JsonScalar::Other),
            ],
            sessid: Some("s1".into()),
            nvgpu,
        },
    }
}

fn stats(tasks_requested: u64) -> GolemRequest {
    GolemRequest {
        cliid: "x".into(),
        body: GolemRequestBody::Stats(Stats {
            known_tasks: 1,
            supported_tasks: 2,
            computed_tasks: 3,
            tasks_with_errors: 4,
            tasks_with_timeout: 5,
            tasks_requested,
        }),
    }
}

fn get<'a>(f: &'a [(String, String)], k: &str) -> Option<&'a str> {
    f.iter().find(|(n, _)| n == k).map(|(_, v)| v.as_str())
}

#[test]
fn parse_stats_output() {
    let f = to_node_info(&stats(22518), &None, 1234).unwrap();
    assert_eq!(get(&f, "tasks_requested"), Some("22518"));
    assert_eq!(get(&f, "completed"), Some("3"));
    assert_eq!(get(&f, "cliid"), Some("x"));
    assert_eq!(get(&f, "timestamp"), Some("1234"));
    assert_eq!(get(&f, "ip"), None);
    assert_eq!(f.len(), 2 + 6);
}

#[test]
fn parse_requestor_stats_output() {
    let req = GolemRequest {
        cliid: "r".into(),
        body: GolemRequestBody::RequestorStats(RequestorStats {
            tasks_cnt: 1,
            finished_task_cnt: 2,
            requested_subtasks_cnt: 3,
            collected_results_cnt: 4,
            verified_results_cnt: 5,
            timed_out_subtasks_cnt: 6,
            not_downloadable_subtasks_cnt: 7,
            failed_subtasks_cnt: 8,
            work_offers_cnt: 9,
            finished_ok_cnt: 10,
            finished_ok_total_time: "3.14".into(),
            finished_with_failures_cnt: 11,
            finished_with_failures_total_time: "0.0".into(),
            failed_cnt: 12,
            failed_total_time: "1.5".into(),
        }),
    };
    let f = to_node_info(&req, &Some("1.2.3.4".into()), 9).unwrap();
    assert_eq!(get(&f, "rs_finished_ok_total_time"), Some("3.14"));
    assert_eq!(get(&f, "rs_failed_cnt"), Some("12"));
    assert_eq!(get(&f, "ip"), Some("1.2.3.4"));
    assert_eq!(f.len(), 3 + 15);
}

#[test]
fn login_writes_metadata_and_versions() {
    let f = to_node_info(&login(None), &None, 5).unwrap();
    assert_eq!(get(&f, "sessid"), Some("s1"));
    assert_eq!(get(&f, "net"), Some("mainnet"));
    assert_eq!(get(&f, "start_port"), Some("40102"));
    assert_eq!(get(&f, "estimated_performance"), Some("1233.5"));
    assert_eq!(get(&f, "max_memory_size"), Some("2000000"));
    assert_eq!(get(&f, "num_cores"), Some("4"));
    assert_eq!(get(&f, "os"), Some("linux"));
    assert_eq!(get(&f, "os_system"), Some("Linux"));
    assert_eq!(get(&f, "os_linux_distribution"), Some("Ubuntu 18.04 bionic"));
    assert_eq!(get(&f, "protocol_version_p2p"), Some("29"));
    assert_eq!(get(&f, "protocol_version_task"), Some("29"));
    assert_eq!(get(&f, "protocol_version_nested"), None);
    assert_eq!(get(&f, "nvgpu_is_supported"), None);
    assert_eq!(get(&f, "max_resource_size"), None);
}

#[test]
fn parse_login_nvgpu() {
    let f = to_node_info(&login(Some(true)), &None, 5).unwrap();
    assert_eq!(get(&f, "nvgpu_is_supported"), Some("true"));
    let f = to_node_info(&login(Some(false)), &None, 5).unwrap();
    assert_eq!(get(&f, "nvgpu_is_supported"), Some("false"));
}

#[test]
fn other_messages_write_nothing() {
    for body in [GolemRequestBody::Logout, GolemRequestBody::VMSnapshot, GolemRequestBody::TaskComputer, GolemRequestBody::NodeInfo, GolemRequestBody::Other] {
        let req = GolemRequest { cliid: "x".into(), body };
        assert!(to_node_info(&req, &None, 1).is_none());
        assert!(update_for_request(req, &None, 1).is_none());
    }
}

#[test]
fn p2p_snapshot_is_stored_as_sent() {
    let req = GolemRequest { cliid: "c".into(), body: GolemRequestBody::P2PSnapshot("{\"peers\":[]}".into()) };
    match update_for_request(req, &None, 1) {
        Some(UpdateRedis::UpdateRedisVal(u)) => {
            assert_eq!(u.collection, "p2pstats");
            assert_eq!(u.key, "c");
            assert_eq!(u.value, "{\"peers\":[]}");
            assert_eq!(to_set_command(&u), vec!["SET", "p2pstats.c", "{\"peers\":[]}"]);
        }
        _ => panic!("a plain write expected"),
    }
}

#[test]
fn stats_post_then_dump() {
    let upd = update_for_request(stats(314), &None, 1_700_000_000_000).unwrap();
    let fields = match upd {
        UpdateRedis::UpdateRedisMap(u) => {
            assert_eq!(u.collection, "nodeinfo");
            assert_eq!(u.key, "x");
            u.value
        }
        _ => panic!("a record write expected"),
    };
    let row = csv_row_values(&fields);
    let cols = csv_fields();
    let col = |name: &str| row[cols.iter().position(|c| *c == name).unwrap()].as_str();
    assert_eq!(col("tasks_requested"), "314");
    assert_eq!(col("node_id"), "x");
    assert_eq!(col("last_seen"), "1700000000000");
    assert_eq!(col("subtasks_success"), "3");
    for c in ["node_name", "version", "os", "ip", "start_port", "cpu_cores", "min_price", "rs_tasks_cnt", "p2p_protocol_version"] {
        assert_eq!(col(c), "", "column {}", c);
    }
}

#[test]
fn login_from_source_address_lists_redacted() {
    let fields = to_node_info(&login(None), &Some("9.9.9.9".into()), 10).unwrap();
    assert_eq!(get(&fields, "ip"), Some("9.9.9.9"));
    let review = review_node("x", fields, None, 11);
    assert_eq!(lookup(&review.record, "ip").map(|s| s.as_str()), Some("9.x.x.x"));
    assert!(review.remove.is_none());
}

#[test]
fn versions_with_booleans() {
    let m = protocol_versions_to_map(&vec![("x".into(), JsonScalar::Bool(true)), ("y".into(), JsonScalar::Other)]);
    assert_eq!(m, vec![("protocol_version_x".to_string(), "true".to_string())]);
    assert_eq!(join_words(&vec!["a".into(), "b".into()]), "a b");
    assert_eq!(join_words(&vec![]), "");
}

#[test]
fn record_write_adds_membership_first() {
    let u = UpdateMap {
        collection: "nodeinfo".into(),
        key: "k".into(),
        value: vec![("a".into(), "1".into()), ("b".into(), "2".into())],
    };
    assert_eq!(to_hmset_command(&u), vec!["HMSET", "nodeinfo.k", "a", "1", "b", "2"]);
    let plan = write_commands(&UpdateRedis::UpdateRedisMap(u));
    assert_eq!(plan.membership, Some(vec!["SADD".to_string(), "active_nodes".to_string(), "k".to_string()]));
    assert_eq!(plan.write, vec!["HMSET", "nodeinfo.k", "a", "1", "b", "2"]);
    let plan = write_commands(&UpdateRedis::UpdateRedisVal(UpdateVal {
        collection: "p2pstats".into(),
        key: "k".into(),
        value: "v".into(),
    }));
    assert!(plan.membership.is_none());
    assert_eq!(plan.write, vec!["SET", "p2pstats.k", "v"]);
}

#[test]
fn concurrent_writes_keep_their_own_fields() {
    let a = UpdateMap { collection: "nodeinfo".into(), key: "x".into(), value: vec![("tasks_requested".into(), "1".into())] };
    let b = UpdateMap { collection: "nodeinfo".into(), key: "x".into(), value: vec![("node_name".into(), "n".into()), ("timestamp".into(), "9".into())] };
    let wa = write_commands(&UpdateRedis::UpdateRedisMap(a)).write;
    let wb = write_commands(&UpdateRedis::UpdateRedisMap(b)).write;
    assert_eq!(wa, vec!["HMSET", "nodeinfo.x", "tasks_requested", "1"]);
    assert_eq!(wb, vec!["HMSET", "nodeinfo.x", "node_name", "n", "timestamp", "9"]);
}
