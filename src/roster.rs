//! The roster read pipeline: what a node's stored record becomes in the CSV
//! dump and in the JSON node list, and which stale nodes a list read prunes.
use vstd::prelude::*;
use crate::reply::strings_view;
use crate::store::{ACTIVE_SET, pairs_view, srem_command};
use crate::text::{decimal, lemma_decimal_round_trip, parse_u64, parse_u64_spec, push_char};

verus! {

/// The text up to the first `.`, or all of it where there is none.
pub open spec fn first_component(s: Seq<char>) -> Seq<char>
    decreases s.len(),
{
    if s.len() == 0 || s[0] == '.' {
        seq![]
    } else {
        seq![s[0]] + first_component(s.drop_first())
    }
}

/// An address with all but its first dot-delimited component hidden; a
/// value with no dot hides entirely.
pub open spec fn obfuscate_spec(s: Seq<char>) -> Seq<char> {
    if s.contains('.') {
        first_component(s) + ".x.x.x"@
    } else {
        "x.x.x.x"@
    }
}

/// Redacts an IP address: `"1.2.3.4"` becomes `"1.x.x.x"`, and a value
/// with no dot becomes `"x.x.x.x"`.
pub fn obfuscate_ip(s: &str) -> (r: String)
    ensures
        r@ == obfuscate_spec(s@),
{
    let len = s.unicode_len();
    let mut head = String::new();
    let mut i: usize = 0;
    assert(s@.subrange(0, len as int) =~= s@);
    assert(head@ + first_component(s@) =~= first_component(s@));
    while i < len
        invariant
            i <= len == s@.len(),
            !s@.subrange(0, i as int).contains('.'),
            first_component(s@) == head@ + first_component(s@.subrange(i as int, len as int)),
        decreases len - i,
    {
        let c = s.get_char(i);
        let ghost rest = s@.subrange(i as int, len as int);
        assert(rest[0] == c);
        if c == '.' {
            assert(s@.contains('.')) by {
                assert(s@[i as int] == '.');
            }
            assert(first_component(rest) =~= Seq::<char>::empty());
            assert(head@ =~= first_component(s@));
            head.append(".x.x.x");
            return head;
        }
        assert(rest.drop_first() =~= s@.subrange(i + 1, len as int));
        assert(!s@.subrange(0, i + 1).contains('.')) by {
            if s@.subrange(0, i + 1).contains('.') {
                let k = choose|k: int| 0 <= k < i + 1 && #[trigger] s@.subrange(0, i + 1)[k] == '.';
                if k < i {
                    assert(s@.subrange(0, i as int)[k] == '.');
                }
            }
        }
        push_char(&mut head, c);
        assert(first_component(s@) =~= head@ + first_component(s@.subrange(i + 1, len as int)));
        i = i + 1;
    }
    assert(s@.subrange(0, len as int) =~= s@);
    "x.x.x.x".to_string()
}

/// Whether two strings hold the same text.
pub fn str_eq(a: &str, b: &str) -> (r: bool)
    ensures
        r == (a@ == b@),
{
    let n = a.unicode_len();
    if n != b.unicode_len() {
        return false;
    }
    let mut i: usize = 0;
    while i < n
        invariant
            i <= n == a@.len() == b@.len(),
            a@.subrange(0, i as int) == b@.subrange(0, i as int),
        decreases n - i,
    {
        if a.get_char(i) != b.get_char(i) {
            return false;
        }
        assert(a@.subrange(0, i + 1) =~= a@.subrange(0, i as int).push(a@[i as int]));
        assert(b@.subrange(0, i + 1) =~= b@.subrange(0, i as int).push(b@[i as int]));
        i = i + 1;
    }
    assert(a@ =~= a@.subrange(0, n as int));
    assert(b@ =~= b@.subrange(0, n as int));
    true
}


/// The columns of the CSV dump, in order.
pub open spec fn csv_columns() -> Seq<Seq<char>> {
    seq![
        "node_id"@,
        "node_name"@,
        "version"@,
        "last_seen"@,
        "os"@,
        "os_system"@,
        "os_release"@,
        "os_version"@,
        "os_windows_edition"@,
        "os_linux_distribution"@,
        "ip"@,
        "start_port"@,
        "end_port"@,
        "performance_general"@,
        "performance_blender"@,
        "performance_lux"@,
        "allowed_resource_size"@,
        "allowed_resource_memory"@,
        "cpu_cores"@,
        "min_price"@,
        "max_price"@,
        "subtasks_success"@,
        "subtasks_error"@,
        "subtasks_timeout"@,
        "p2p_protocol_version"@,
        "task_protocol_version"@,
        "tasks_requested"@,
        "known_tasks"@,
        "supported_tasks"@,
        "rs_tasks_cnt"@,
        "rs_finished_task_cnt"@,
        "rs_requested_subtasks_cnt"@,
        "rs_collected_results_cnt"@,
        "rs_verified_results_cnt"@,
        "rs_timed_out_subtasks_cnt"@,
        "rs_not_downloadable_subtasks_cnt"@,
        "rs_failed_subtasks_cnt"@,
        "rs_work_offers_cnt"@,
        "rs_finished_ok_cnt"@,
        "rs_finished_ok_total_time"@,
        "rs_finished_with_failures_cnt"@,
        "rs_finished_with_failures_total_time"@,
        "rs_failed_cnt"@,
        "rs_failed_total_time"@,
    ]
}

/// The store field that a CSV column shows.
pub open spec fn csv_field_spec(c: Seq<char>) -> Seq<char> {
    if c == "node_id"@ { "cliid"@ }
    else if c == "last_seen"@ { "timestamp"@ }
    else if c == "performance_general"@ { "estimated_performance"@ }
    else if c == "performance_lux"@ { "estimated_lux_performance"@ }
    else if c == "performance_blender"@ { "estimated_blender_performance"@ }
    else if c == "allowed_resource_size"@ { "max_resource_size"@ }
    else if c == "allowed_resource_memory"@ { "max_memory_size"@ }
    else if c == "cpu_cores"@ { "num_cores"@ }
    else if c == "subtasks_success"@ { "completed"@ }
    else if c == "subtasks_error"@ { "tasks_with_errors"@ }
    else if c == "subtasks_timeout"@ { "tasks_with_timeout"@ }
    else if c == "task_protocol_version"@ { "protocol_version_task"@ }
    else if c == "p2p_protocol_version"@ { "protocol_version_p2p"@ }
    else { c }
}

/// The columns of the CSV dump, in order.
pub fn csv_fields() -> (v: Vec<&'static str>)
    ensures
        crate::store::strs(v@) == csv_columns(),
{
    let mut v: Vec<&'static str> = Vec::new();
    v.push("node_id");
    v.push("node_name");
    v.push("version");
    v.push("last_seen");
    v.push("os");
    v.push("os_system");
    v.push("os_release");
    v.push("os_version");
    v.push("os_windows_edition");
    v.push("os_linux_distribution");
    v.push("ip");
    v.push("start_port");
    v.push("end_port");
    v.push("performance_general");
    v.push("performance_blender");
    v.push("performance_lux");
    v.push("allowed_resource_size");
    v.push("allowed_resource_memory");
    v.push("cpu_cores");
    v.push("min_price");
    v.push("max_price");
    v.push("subtasks_success");
    v.push("subtasks_error");
    v.push("subtasks_timeout");
    v.push("p2p_protocol_version");
    v.push("task_protocol_version");
    v.push("tasks_requested");
    v.push("known_tasks");
    v.push("supported_tasks");
    v.push("rs_tasks_cnt");
    v.push("rs_finished_task_cnt");
    v.push("rs_requested_subtasks_cnt");
    v.push("rs_collected_results_cnt");
    v.push("rs_verified_results_cnt");
    v.push("rs_timed_out_subtasks_cnt");
    v.push("rs_not_downloadable_subtasks_cnt");
    v.push("rs_failed_subtasks_cnt");
    v.push("rs_work_offers_cnt");
    v.push("rs_finished_ok_cnt");
    v.push("rs_finished_ok_total_time");
    v.push("rs_finished_with_failures_cnt");
    v.push("rs_finished_with_failures_total_time");
    v.push("rs_failed_cnt");
    v.push("rs_failed_total_time");
    assert(crate::store::strs(v@) =~= csv_columns());
    v
}

/// The store field that the CSV column `c` shows; a column with no entry
/// of its own shows the field of its own name.
pub fn map_csv_field<'a>(c: &'a str) -> (r: &'a str)
    ensures
        r@ == csv_field_spec(c@),
{
    if str_eq(c, "node_id") { "cliid" }
    else if str_eq(c, "last_seen") { "timestamp" }
    else if str_eq(c, "performance_general") { "estimated_performance" }
    else if str_eq(c, "performance_lux") { "estimated_lux_performance" }
    else if str_eq(c, "performance_blender") { "estimated_blender_performance" }
    else if str_eq(c, "allowed_resource_size") { "max_resource_size" }
    else if str_eq(c, "allowed_resource_memory") { "max_memory_size" }
    else if str_eq(c, "cpu_cores") { "num_cores" }
    else if str_eq(c, "subtasks_success") { "completed" }
    else if str_eq(c, "subtasks_error") { "tasks_with_errors" }
    else if str_eq(c, "subtasks_timeout") { "tasks_with_timeout" }
    else if str_eq(c, "task_protocol_version") { "protocol_version_task" }
    else if str_eq(c, "p2p_protocol_version") { "protocol_version_p2p" }
    else { c }
}

/// The value of the last field named `name`: where a name repeats, the
/// later pair stands, as when the pairs are collected into a map.
pub open spec fn lookup_spec(fields: Seq<(Seq<char>, Seq<char>)>, name: Seq<char>) -> Option<Seq<char>>
    decreases fields.len(),
{
    if fields.len() == 0 {
        None
    } else if fields.last().0 == name {
        Some(fields.last().1)
    } else {
        lookup_spec(fields.drop_last(), name)
    }
}

/// The value of the last field of `record` named `name`.
pub fn lookup<'a>(record: &'a Vec<(String, String)>, name: &str) -> (r: Option<&'a String>)
    ensures
        match r {
            Some(v) => lookup_spec(pairs_view(record@), name@) == Some(v@),
            None => lookup_spec(pairs_view(record@), name@) is None,
        },
{
    let n = record.len();
    let mut i: usize = n;
    assert(pairs_view(record@).take(n as int) =~= pairs_view(record@));
    while i > 0
        invariant
            i <= n == record@.len(),
            lookup_spec(pairs_view(record@), name@)
                == lookup_spec(pairs_view(record@).take(i as int), name@),
        decreases i,
    {
        let ghost pre = pairs_view(record@).take(i as int);
        assert(pre.last() == (record@[i - 1].0@, record@[i - 1].1@));
        if str_eq(record[i - 1].0.as_str(), name) {
            return Some(&record[i - 1].1);
        }
        assert(pre.drop_last() =~= pairs_view(record@).take(i - 1));
        i = i - 1;
    }
    None
}

/// What the CSV column `col` shows of a stored record: the value of its
/// field, redacted for `ip`, or empty where the record lacks the field.
pub open spec fn csv_value_spec(record: Seq<(Seq<char>, Seq<char>)>, col: Seq<char>) -> Seq<char> {
    match lookup_spec(record, csv_field_spec(col)) {
        Some(v) => if col == "ip"@ { obfuscate_spec(v) } else { v },
        None => seq![],
    }
}

/// The CSV row of a stored record, one value per column.
pub open spec fn csv_row_spec(record: Seq<(Seq<char>, Seq<char>)>) -> Seq<Seq<char>> {
    Seq::new(csv_columns().len(), |i: int| csv_value_spec(record, csv_columns()[i]))
}

/// The values of the CSV row of a stored record, in column order.
pub fn csv_row_values(record: &Vec<(String, String)>) -> (r: Vec<String>)
    ensures
        strings_view(r@) == csv_row_spec(pairs_view(record@)),
{
    let cols = csv_fields();
    let mut r: Vec<String> = Vec::new();
    let mut i: usize = 0;
    while i < cols.len()
        invariant
            i <= cols@.len(),
            crate::store::strs(cols@) == csv_columns(),
            r@.len() == i,
            forall|j: int| 0 <= j < i ==> (#[trigger] r@[j])@ == csv_value_spec(pairs_view(record@), csv_columns()[j]),
        decreases cols@.len() - i,
    {
        let col = cols[i];
        assert(col@ == csv_columns()[i as int]);
        let value = match lookup(record, map_csv_field(col)) {
            Some(v) => if str_eq(col, "ip") {
                obfuscate_ip(v.as_str())
            } else {
                v.clone()
            },
            None => String::new(),
        };
        r.push(value);
        i = i + 1;
    }
    assert(strings_view(r@) =~= csv_row_spec(pairs_view(record@)));
    r
}

/// The bytes of one CSV record of the given fields.
pub uninterp spec fn csv_record_bytes(fields: Seq<Seq<char>>) -> Seq<u8>;

/// Relies on `csv::Writer::write_record`, with the writer's default
/// settings, into a `Vec`: one CSV record of the fields. A fresh writer has
/// no earlier record whose length could differ, and writing into a `Vec`
/// does not fail, so neither `write_record` nor `into_inner` fails here.
#[verifier::external_body]
fn csv_record(fields: &Vec<String>) -> (r: Option<Vec<u8>>)
    ensures
        r is Some,
        r matches Some(b) ==> b@ == csv_record_bytes(strings_view(fields@)),
{
    let mut w = csv::Writer::from_writer(Vec::new());
    match w.write_record(fields) {
        Ok(()) => w.into_inner().ok(),
        Err(_) => None,
    }
}

/// The CSV rows of the records, one after the other.
pub open spec fn csv_rows_spec(records: Seq<Seq<(Seq<char>, Seq<char>)>>) -> Seq<u8>
    decreases records.len(),
{
    if records.len() == 0 {
        seq![]
    } else {
        csv_rows_spec(records.drop_last()) + csv_record_bytes(csv_row_spec(records.last()))
    }
}

/// The stored records, as field/value pairs.
pub open spec fn records_view(records: Seq<Vec<(String, String)>>) -> Seq<Seq<(Seq<char>, Seq<char>)>> {
    Seq::new(records.len(), |i: int| pairs_view(records[i]@))
}

/// The CSV rows of a batch of stored records, one per record, in order.
pub fn csv_rows(records: &Vec<Vec<(String, String)>>) -> (r: Vec<u8>)
    ensures
        r@ == csv_rows_spec(records_view(records@)),
{
    let mut out: Vec<u8> = Vec::new();
    let mut i: usize = 0;
    while i < records.len()
        invariant
            i <= records@.len(),
            out@ == csv_rows_spec(records_view(records@).take(i as int)),
        decreases records@.len() - i,
    {
        let row = csv_row_values(&records[i]);
        let mut bytes = csv_record(&row).unwrap();
        out.append(&mut bytes);
        assert(records_view(records@).take(i + 1).drop_last() =~= records_view(records@).take(i as int));
        i = i + 1;
    }
    assert(records_view(records@).take(i as int) =~= records_view(records@));
    out
}

/// The names joined by commas.
pub open spec fn comma_joined(names: Seq<Seq<char>>) -> Seq<char>
    decreases names.len(),
{
    if names.len() == 0 {
        seq![]
    } else if names.len() == 1 {
        names[0]
    } else {
        comma_joined(names.drop_last()) + seq![','] + names.last()
    }
}

/// The header row of the CSV dump: the column names joined by commas, and
/// a newline.
pub fn csv_header() -> (r: String)
    ensures
        r@ == comma_joined(csv_columns()) + seq!['\n'],
{
    let cols = csv_fields();
    let mut r = String::new();
    let mut i: usize = 0;
    while i < cols.len()
        invariant
            i <= cols@.len(),
            crate::store::strs(cols@) == csv_columns(),
            r@ == comma_joined(csv_columns().take(i as int)),
        decreases cols@.len() - i,
    {
        if i > 0 {
            push_char(&mut r, ',');
        }
        r.append(cols[i]);
        assert(csv_columns().take(i + 1).drop_last() =~= csv_columns().take(i as int));
        i = i + 1;
    }
    assert(csv_columns().take(i as int) =~= csv_columns());
    push_char(&mut r, '\n');
    r
}

/// The fields of a record with its `ip` redacted.
pub open spec fn redacted_spec(record: Seq<(Seq<char>, Seq<char>)>) -> Seq<(Seq<char>, Seq<char>)> {
    Seq::new(record.len(), |i: int|
        if record[i].0 == "ip"@ { (record[i].0, obfuscate_spec(record[i].1)) } else { record[i] })
}

/// A stored record as the node list shows it: its `ip` redacted, every
/// other field as it is.
pub fn redact_record(record: Vec<(String, String)>) -> (r: Vec<(String, String)>)
    ensures
        pairs_view(r@) == redacted_spec(pairs_view(record@)),
{
    let mut r: Vec<(String, String)> = Vec::new();
    let mut i: usize = 0;
    while i < record.len()
        invariant
            i <= record@.len(),
            r@.len() == i,
            forall|j: int| 0 <= j < i ==> (#[trigger] pairs_view(r@)[j]) == redacted_spec(pairs_view(record@))[j],
        decreases record@.len() - i,
    {
        let name = record[i].0.clone();
        let value = if str_eq(name.as_str(), "ip") {
            obfuscate_ip(record[i].1.as_str())
        } else {
            record[i].1.clone()
        };
        let ghost before = r@;
        r.push((name, value));
        assert forall|j: int| 0 <= j < i + 1 implies (#[trigger] pairs_view(r@)[j]) == redacted_spec(pairs_view(record@))[j] by {
            if j < i {
                assert(r@[j] == before[j]);
                assert(pairs_view(before)[j] == pairs_view(r@)[j]);
            }
        }
        i = i + 1;
    }
    assert(pairs_view(r@) =~= redacted_spec(pairs_view(record@)));
    r
}

/// The JSON string literal of a text: quoted, and escaped as JSON asks.
pub uninterp spec fn json_string_bytes(s: Seq<char>) -> Seq<u8>;

/// Relies on `serde_json::to_vec` on a `str`: the JSON string literal of
/// the text. Serialising a `str` only writes into the `Vec`, which does not
/// fail.
#[verifier::external_body]
fn json_string(s: &str) -> (r: Option<Vec<u8>>)
    ensures
        r is Some,
        r matches Some(b) ==> b@ == json_string_bytes(s@),
{
    serde_json::to_vec(s).ok()
}

/// `"name":"value"`.
pub open spec fn member_bytes(p: (Seq<char>, Seq<char>)) -> Seq<u8> {
    json_string_bytes(p.0) + seq![58u8] + json_string_bytes(p.1)
}

/// The members of a JSON object, separated by commas.
pub open spec fn members_bytes(fields: Seq<(Seq<char>, Seq<char>)>) -> Seq<u8>
    decreases fields.len(),
{
    if fields.len() == 0 {
        seq![]
    } else if fields.len() == 1 {
        member_bytes(fields[0])
    } else {
        members_bytes(fields.drop_last()) + seq![44u8] + member_bytes(fields.last())
    }
}

/// A record as a JSON object of strings, its fields in order.
pub open spec fn record_json_spec(fields: Seq<(Seq<char>, Seq<char>)>) -> Seq<u8> {
    seq![123u8] + members_bytes(fields) + seq![125u8]
}

/// A record as a JSON object whose members are its fields, in order.
pub fn record_json(record: &Vec<(String, String)>) -> (r: Vec<u8>)
    ensures
        r@ == record_json_spec(pairs_view(record@)),
{
    let mut out: Vec<u8> = Vec::new();
    out.push(123u8);
    let mut i: usize = 0;
    while i < record.len()
        invariant
            i <= record@.len(),
            out@ == seq![123u8] + members_bytes(pairs_view(record@).take(i as int)),
        decreases record@.len() - i,
    {
        let ghost before = out@;
        if i > 0 {
            out.push(44u8);
        }
        let mut name = json_string(record[i].0.as_str()).unwrap();
        let mut value = json_string(record[i].1.as_str()).unwrap();
        let ghost m = member_bytes(pairs_view(record@)[i as int]);
        out.append(&mut name);
        out.push(58u8);
        out.append(&mut value);
        let ghost prefix = pairs_view(record@).take(i + 1);
        assert(prefix.drop_last() =~= pairs_view(record@).take(i as int));
        assert(prefix.last() == pairs_view(record@)[i as int]);
        if i > 0 {
            assert(out@ =~= before + seq![44u8] + m);
        } else {
            assert(out@ =~= before + m);
        }
        i = i + 1;
    }
    assert(pairs_view(record@).take(i as int) =~= pairs_view(record@));
    out.push(125u8);
    out
}

/// Whether a record was last written more than `threshold_ms` before
/// `now_ms`, by its `timestamp` field; a record without a readable
/// timestamp is not stale.
pub open spec fn stale_spec(record: Seq<(Seq<char>, Seq<char>)>, threshold_ms: u64, now_ms: u64) -> bool {
    match lookup_spec(record, "timestamp"@) {
        Some(t) => match parse_u64_spec(t) {
            Some(ts) => ts + threshold_ms < now_ms,
            None => false,
        },
        None => false,
    }
}

/// Whether the record's `timestamp` plus `threshold_ms` lies before `now_ms`.
pub fn is_stale(record: &Vec<(String, String)>, threshold_ms: u64, now_ms: u64) -> (r: bool)
    ensures
        r == stale_spec(pairs_view(record@), threshold_ms, now_ms),
{
    match lookup(record, "timestamp") {
        Some(t) => match parse_u64(t.as_str()) {
            Some(ts) => ts < now_ms && now_ms - ts > threshold_ms,
            None => false,
        },
        None => false,
    }
}

/// A node as one list read sees it.
pub struct NodeReview {
    /// The record to show: the stored one, with its `ip` redacted.
    pub record: Vec<(String, String)>,
    /// The command that drops a stale node from the active set, if it is
    /// stale.
    pub remove: Option<Vec<String>>,
}

/// Reviews a node for the node list: its record is shown in any case,
/// redacted; where a threshold is set and the record is stale, the node is
/// also to be dropped from the active set.
pub fn review_node(node_id: &str, record: Vec<(String, String)>, threshold_ms: Option<u64>, now_ms: u64) -> (r: NodeReview)
    ensures
        pairs_view(r.record@) == redacted_spec(pairs_view(record@)),
        r.remove is Some <==> (threshold_ms matches Some(t) && stale_spec(pairs_view(record@), t, now_ms)),
        r.remove matches Some(c) ==> strings_view(c@) == seq!["SREM"@, ACTIVE_SET@, node_id@],
{
    let stale = match threshold_ms {
        Some(t) => is_stale(&record, t, now_ms),
        None => false,
    };
    let remove = if stale { Some(srem_command(ACTIVE_SET, node_id)) } else { None };
    NodeReview { record: redact_record(record), remove }
}

/// A record last written `threshold_ms + 1` milliseconds before `now_ms` is
/// stale: a list read drops its node from the active set, and still shows
/// its record.
pub proof fn lemma_expired_node_pruned(record: Seq<(Seq<char>, Seq<char>)>, threshold_ms: u64, now_ms: u64, ts: u64)
    requires
        ts + threshold_ms + 1 == now_ms,
        lookup_spec(record, "timestamp"@) == Some(decimal(ts as nat)),
    ensures
        stale_spec(record, threshold_ms, now_ms),
{
    lemma_decimal_round_trip(ts);
}

/// No two fields share a name.
pub open spec fn distinct_names(record: Seq<(Seq<char>, Seq<char>)>) -> bool {
    forall|i: int, j: int| 0 <= i < j < record.len() ==> (#[trigger] record[i]).0 != (#[trigger] record[j]).0
}

proof fn lemma_lookup_finds(record: Seq<(Seq<char>, Seq<char>)>, i: int)
    requires
        distinct_names(record),
        0 <= i < record.len(),
    ensures
        lookup_spec(record, record[i].0) == Some(record[i].1),
    decreases record.len(),
{
    if i < record.len() - 1 {
        let rest = record.drop_last();
        assert(record.last().0 != record[i].0);
        assert(rest[i] == record[i]);
        assert forall|a: int, b: int| 0 <= a < b < rest.len() implies (#[trigger] rest[a]).0 != (#[trigger] rest[b]).0 by {
            assert(rest[a] == record[a] && rest[b] == record[b]);
        }
        lemma_lookup_finds(rest, i);
    }
}

pub proof fn lemma_lookup_absent(record: Seq<(Seq<char>, Seq<char>)>, name: Seq<char>)
    requires
        avoids(record, name),
    ensures
        lookup_spec(record, name) is None,
{
    lemma_lookup_misses(record, name);
}

proof fn lemma_lookup_misses(record: Seq<(Seq<char>, Seq<char>)>, name: Seq<char>)
    requires
        forall|i: int| 0 <= i < record.len() ==> (#[trigger] record[i]).0 != name,
    ensures
        lookup_spec(record, name) is None,
    decreases record.len(),
{
    if record.len() > 0 {
        let rest = record.drop_last();
        assert(record[record.len() - 1].0 != name);
        assert forall|i: int| 0 <= i < rest.len() implies (#[trigger] rest[i]).0 != name by {
            assert(rest[i] == record[i]);
        }
        lemma_lookup_misses(rest, name);
    }
}

/// Written fields come back under their columns: in the dump of a record
/// whose fields have distinct names, a column shows the value of the field
/// it maps to (the address redacted), and is empty where no such field was
/// written.
pub proof fn lemma_dump_shows_written_fields(record: Seq<(Seq<char>, Seq<char>)>, col: Seq<char>)
    requires
        distinct_names(record),
    ensures
        forall|i: int| 0 <= i < record.len() && (#[trigger] record[i]).0 == csv_field_spec(col)
            ==> csv_value_spec(record, col)
                == (if col == "ip"@ { obfuscate_spec(record[i].1) } else { record[i].1 }),
        (forall|i: int| 0 <= i < record.len() ==> (#[trigger] record[i]).0 != csv_field_spec(col))
            ==> csv_value_spec(record, col) == Seq::<char>::empty(),
{
    assert forall|i: int| 0 <= i < record.len() && (#[trigger] record[i]).0 == csv_field_spec(col)
        implies csv_value_spec(record, col)
            == (if col == "ip"@ { obfuscate_spec(record[i].1) } else { record[i].1 }) by {
        lemma_lookup_finds(record, i);
    }
    if forall|i: int| 0 <= i < record.len() ==> (#[trigger] record[i]).0 != csv_field_spec(col) {
        lemma_lookup_misses(record, csv_field_spec(col));
    }
}

/// No field of `f` is named `n`.
pub open spec fn avoids(f: Seq<(Seq<char>, Seq<char>)>, n: Seq<char>) -> bool {
    forall|i: int| 0 <= i < f.len() ==> (#[trigger] f[i]).0 != n
}

pub proof fn lemma_avoids_add(a: Seq<(Seq<char>, Seq<char>)>, b: Seq<(Seq<char>, Seq<char>)>, n: Seq<char>)
    ensures
        avoids(a + b, n) == (avoids(a, n) && avoids(b, n)),
{
    if avoids(a, n) && avoids(b, n) {
        assert forall|i: int| 0 <= i < (a + b).len() implies (#[trigger] (a + b)[i]).0 != n by {
            if i < a.len() {
                assert((a + b)[i] == a[i]);
            } else {
                assert((a + b)[i] == b[i - a.len()]);
            }
        }
    }
    if avoids(a + b, n) {
        assert forall|i: int| 0 <= i < a.len() implies (#[trigger] a[i]).0 != n by {
            assert((a + b)[i] == a[i]);
        }
        assert forall|i: int| 0 <= i < b.len() implies (#[trigger] b[i]).0 != n by {
            assert((a + b)[i + a.len()] == b[i]);
        }
    }
}

/// Fields appended after the last field named `n` do not change what `n`
/// looks up.
pub proof fn lemma_lookup_after(a: Seq<(Seq<char>, Seq<char>)>, b: Seq<(Seq<char>, Seq<char>)>, n: Seq<char>)
    requires
        avoids(b, n),
    ensures
        lookup_spec(a + b, n) == lookup_spec(a, n),
    decreases b.len(),
{
    if b.len() == 0 {
        assert(a + b =~= a);
    } else {
        assert((a + b).drop_last() =~= a + b.drop_last());
        assert((a + b).last() == b.last());
        assert(b[b.len() - 1].0 != n);
        assert forall|i: int| 0 <= i < b.drop_last().len() implies (#[trigger] b.drop_last()[i]).0 != n by {
            assert(b.drop_last()[i] == b[i]);
        }
        lemma_lookup_after(a, b.drop_last(), n);
    }
}

/// Looking a field up in the record as the node list shows it gives the
/// stored value, redacted where the field is `ip`.
pub proof fn lemma_lookup_redacted(f: Seq<(Seq<char>, Seq<char>)>, n: Seq<char>)
    ensures
        lookup_spec(redacted_spec(f), n) == match lookup_spec(f, n) {
            Some(v) => Some(if n == "ip"@ { obfuscate_spec(v) } else { v }),
            None => None,
        },
    decreases f.len(),
{
    if f.len() > 0 {
        assert(redacted_spec(f).drop_last() =~= redacted_spec(f.drop_last()));
        lemma_lookup_redacted(f.drop_last(), n);
    }
}

} // verus!
