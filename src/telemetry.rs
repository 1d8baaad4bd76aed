//! Inbound telemetry: the messages a node sends, and the record fields that
//! each of them writes.
use vstd::prelude::*;
use crate::roster::{avoids, csv_field_spec, csv_value_spec, lemma_avoids_add, lemma_lookup_absent, lemma_lookup_after, lemma_lookup_redacted, lookup_spec, obfuscate_spec, redacted_spec};
use crate::store::{NODE_COLLECTION, P2P_COLLECTION, pairs_view};
use crate::updater::{UpdateMap, UpdateRedis, UpdateVal};
use crate::text::{decimal, push_char, u64_to_decimal};

verus! {

/// A scalar of a JSON document, as far as a stored field can show it.
pub enum JsonScalar {
    Str(String),
    /// A number, as its JSON text.
    Num(String),
    Bool(bool),
    /// `null`, an array or an object: nothing a field can hold.
    Other,
}

/// The node's advertised settings.
pub struct Settings {
    pub start_port: Option<u16>,
    pub end_port: Option<u16>,
    pub estimated_blender_performance: Option<String>,
    pub estimated_lux_performance: Option<String>,
    /// A number, as its JSON text.
    pub estimated_performance: Option<String>,
    /// In whole units: the fraction that a node may send is cut off.
    pub max_memory_size: Option<u64>,
    pub max_price: Option<u64>,
    pub min_price: Option<u64>,
    /// In whole units: the fraction that a node may send is cut off.
    pub max_resource_size: Option<u64>,
    pub node_name: Option<String>,
    pub num_cores: Option<u32>,
}

/// What the node reports of its operating system.
pub struct OSInfo {
    pub platform: Option<String>,
    pub system: Option<String>,
    pub release: Option<String>,
    pub version: Option<String>,
    pub windows_edition: Option<String>,
    /// Name, version and id of a Linux distribution.
    pub linux_distribution: Option<Vec<String>>,
}

pub struct Metadata {
    pub net: Option<String>,
    pub version: Option<String>,
    pub settings: Settings,
    pub os_info: OSInfo,
    /// The platform as older nodes report it.
    pub os: Option<String>,
}

/// The requestor-role counters; the total times are numbers, as their JSON
/// text.
pub struct RequestorStats {
    pub tasks_cnt: u64,
    pub finished_task_cnt: u64,
    pub requested_subtasks_cnt: u64,
    pub collected_results_cnt: u64,
    pub verified_results_cnt: u64,
    pub timed_out_subtasks_cnt: u64,
    pub not_downloadable_subtasks_cnt: u64,
    pub failed_subtasks_cnt: u64,
    pub work_offers_cnt: u64,
    pub finished_ok_cnt: u64,
    pub finished_ok_total_time: String,
    pub finished_with_failures_cnt: u64,
    pub finished_with_failures_total_time: String,
    pub failed_cnt: u64,
    pub failed_total_time: String,
}

/// The computed-task counters.
pub struct Stats {
    pub known_tasks: u64,
    pub supported_tasks: u64,
    pub computed_tasks: u64,
    pub tasks_with_errors: u64,
    pub tasks_with_timeout: u64,
    pub tasks_requested: u64,
}

/// The message of a telemetry request, by its type.
pub enum GolemRequestBody {
    Login {
        metadata: Option<Metadata>,
        protocol_versions: Vec<(String, JsonScalar)>,
        sessid: Option<String>,
        /// Whether the node supports NVIDIA GPUs, where it says.
        nvgpu: Option<bool>,
    },
    Logout,
    Stats(Stats),
    VMSnapshot,
    /// The snapshot, as the JSON text to store.
    P2PSnapshot(String),
    RequestorStats(RequestorStats),
    TaskComputer,
    NodeInfo,
    /// A message type that this service does not know: acknowledged, and
    /// nothing is written.
    Other,
}

/// A telemetry request: the client id and its message. The timestamp that
/// the client sends is not trusted, so it is not kept.
pub struct GolemRequest {
    pub cliid: String,
    pub body: GolemRequestBody,
}

pub type Fields = Seq<(Seq<char>, Seq<char>)>;

/// The field `name` where the value is present.
pub open spec fn opt_text(name: Seq<char>, v: Option<String>) -> Fields {
    match v {
        Some(s) => seq![(name, s@)],
        None => seq![],
    }
}

/// The field `name`, in decimal, where the value is present.
pub open spec fn opt_num(name: Seq<char>, v: Option<u64>) -> Fields {
    match v {
        Some(n) => seq![(name, decimal(n as nat))],
        None => seq![],
    }
}

pub open spec fn opt_u16(v: Option<u16>) -> Option<u64> {
    match v {
        Some(n) => Some(n as u64),
        None => None,
    }
}

pub open spec fn opt_u32(v: Option<u32>) -> Option<u64> {
    match v {
        Some(n) => Some(n as u64),
        None => None,
    }
}

fn push_text(out: &mut Vec<(String, String)>, name: &str, v: &Option<String>)
    ensures
        pairs_view(final(out)@) == pairs_view(old(out)@) + opt_text(name@, *v),
{
    let ghost before = out@;
    match v {
        Some(s) => {
            out.push((name.to_string(), s.clone()));
            assert(pairs_view(out@) =~= pairs_view(before) + opt_text(name@, *v));
        },
        None => {
            assert(pairs_view(out@) =~= pairs_view(before) + opt_text(name@, *v));
        },
    }
}

fn push_num(out: &mut Vec<(String, String)>, name: &str, v: Option<u64>)
    ensures
        pairs_view(final(out)@) == pairs_view(old(out)@) + opt_num(name@, v),
{
    let ghost before = out@;
    match v {
        Some(n) => {
            out.push((name.to_string(), u64_to_decimal(n)));
            assert(pairs_view(out@) =~= pairs_view(before) + opt_num(name@, v));
        },
        None => {
            assert(pairs_view(out@) =~= pairs_view(before) + opt_num(name@, v));
        },
    }
}

fn u16_opt(v: Option<u16>) -> (r: Option<u64>)
    ensures
        r == opt_u16(v),
{
    match v {
        Some(n) => Some(n as u64),
        None => None,
    }
}

fn u32_opt(v: Option<u32>) -> (r: Option<u64>)
    ensures
        r == opt_u32(v),
{
    match v {
        Some(n) => Some(n as u64),
        None => None,
    }
}

/// The words joined by single spaces.
pub open spec fn space_joined(words: Seq<Seq<char>>) -> Seq<char>
    decreases words.len(),
{
    if words.len() == 0 {
        seq![]
    } else if words.len() == 1 {
        words[0]
    } else {
        space_joined(words.drop_last()) + seq![' '] + words.last()
    }
}

/// The words joined by single spaces.
pub fn join_words(words: &Vec<String>) -> (r: String)
    ensures
        r@ == space_joined(crate::reply::strings_view(words@)),
{
    let mut r = String::new();
    let mut i: usize = 0;
    while i < words.len()
        invariant
            i <= words@.len(),
            r@ == space_joined(crate::reply::strings_view(words@).take(i as int)),
        decreases words@.len() - i,
    {
        if i > 0 {
            push_char(&mut r, ' ');
        }
        r.append(words[i].as_str());
        assert(crate::reply::strings_view(words@).take(i + 1).drop_last()
            =~= crate::reply::strings_view(words@).take(i as int));
        i = i + 1;
    }
    assert(crate::reply::strings_view(words@).take(i as int) =~= crate::reply::strings_view(words@));
    r
}

/// The platform: the one of the OS report, or else the legacy one.
pub open spec fn platform_of(m: Metadata) -> Option<String> {
    match m.os_info.platform {
        Some(p) => Some(p),
        None => m.os,
    }
}

/// The Linux distribution, its words joined by spaces.
pub open spec fn distribution_of(m: Metadata) -> Fields {
    match m.os_info.linux_distribution {
        Some(words) => seq![("os_linux_distribution"@, space_joined(crate::reply::strings_view(words@)))],
        None => seq![],
    }
}

/// The fields of the settings that describe the node's ports and speed.
pub open spec fn performance_fields(s: Settings) -> Fields {
    opt_num("start_port"@, opt_u16(s.start_port))
    + opt_num("end_port"@, opt_u16(s.end_port))
    + opt_text("estimated_blender_performance"@, s.estimated_blender_performance)
    + opt_text("estimated_lux_performance"@, s.estimated_lux_performance)
    + opt_text("estimated_performance"@, s.estimated_performance)
}

/// The fields of the settings that describe what the node offers, and at
/// what price.
pub open spec fn offer_fields(s: Settings) -> Fields {
    opt_num("max_memory_size"@, s.max_memory_size)
    + opt_num("max_price"@, s.max_price)
    + opt_num("min_price"@, s.min_price)
    + opt_num("max_resource_size"@, s.max_resource_size)
    + opt_text("node_name"@, s.node_name)
    + opt_num("num_cores"@, opt_u32(s.num_cores))
}

/// The fields that describe the node's operating system.
pub open spec fn os_fields(m: Metadata) -> Fields {
    opt_text("os"@, platform_of(m))
    + opt_text("os_system"@, m.os_info.system)
    + opt_text("os_release"@, m.os_info.release)
    + opt_text("os_version"@, m.os_info.version)
    + opt_text("os_windows_edition"@, m.os_info.windows_edition)
    + distribution_of(m)
}

/// The fields that a login's metadata writes.
pub open spec fn metadata_fields(m: Metadata) -> Fields {
    opt_text("net"@, m.net) + opt_text("version"@, m.version) + performance_fields(m.settings)
        + offer_fields(m.settings) + os_fields(m)
}

fn push_performance(out: &mut Vec<(String, String)>, s: &Settings)
    ensures
        pairs_view(final(out)@) == pairs_view(old(out)@) + performance_fields(*s),
{
    let ghost start = pairs_view(out@);
    push_num(out, "start_port", u16_opt(s.start_port));
    push_num(out, "end_port", u16_opt(s.end_port));
    push_text(out, "estimated_blender_performance", &s.estimated_blender_performance);
    push_text(out, "estimated_lux_performance", &s.estimated_lux_performance);
    push_text(out, "estimated_performance", &s.estimated_performance);
    assert(pairs_view(out@) =~= start + performance_fields(*s));
}

fn push_offer(out: &mut Vec<(String, String)>, s: &Settings)
    ensures
        pairs_view(final(out)@) == pairs_view(old(out)@) + offer_fields(*s),
{
    let ghost start = pairs_view(out@);
    push_num(out, "max_memory_size", s.max_memory_size);
    push_num(out, "max_price", s.max_price);
    push_num(out, "min_price", s.min_price);
    push_num(out, "max_resource_size", s.max_resource_size);
    push_text(out, "node_name", &s.node_name);
    push_num(out, "num_cores", u32_opt(s.num_cores));
    assert(pairs_view(out@) =~= start + offer_fields(*s));
}

fn push_os(out: &mut Vec<(String, String)>, m: &Metadata)
    ensures
        pairs_view(final(out)@) == pairs_view(old(out)@) + os_fields(*m),
{
    let ghost start = pairs_view(out@);
    let platform = match &m.os_info.platform {
        Some(p) => Some(p.clone()),
        None => match &m.os {
            Some(p) => Some(p.clone()),
            None => None,
        },
    };
    assert(platform == platform_of(*m));
    push_text(out, "os", &platform);
    push_text(out, "os_system", &m.os_info.system);
    push_text(out, "os_release", &m.os_info.release);
    push_text(out, "os_version", &m.os_info.version);
    push_text(out, "os_windows_edition", &m.os_info.windows_edition);
    let ghost before = out@;
    match &m.os_info.linux_distribution {
        Some(words) => {
            out.push(("os_linux_distribution".to_string(), join_words(words)));
            assert(pairs_view(out@) =~= pairs_view(before) + distribution_of(*m));
        },
        None => {
            assert(pairs_view(out@) =~= pairs_view(before) + distribution_of(*m));
        },
    }
    assert(pairs_view(out@) =~= start + os_fields(*m));
}

fn push_metadata(out: &mut Vec<(String, String)>, m: &Metadata)
    ensures
        pairs_view(final(out)@) == pairs_view(old(out)@) + metadata_fields(*m),
{
    let ghost start = pairs_view(out@);
    push_text(out, "net", &m.net);
    push_text(out, "version", &m.version);
    push_performance(out, &m.settings);
    push_offer(out, &m.settings);
    push_os(out, m);
    assert(pairs_view(out@) =~= start + metadata_fields(*m));
}

/// The fields that a `Stats` message writes.
pub open spec fn stats_fields(s: Stats) -> Fields {
    seq![
        ("known_tasks"@, decimal(s.known_tasks as nat)),
        ("supported_tasks"@, decimal(s.supported_tasks as nat)),
        ("tasks_requested"@, decimal(s.tasks_requested as nat)),
        ("tasks_with_errors"@, decimal(s.tasks_with_errors as nat)),
        ("tasks_with_timeout"@, decimal(s.tasks_with_timeout as nat)),
        ("completed"@, decimal(s.computed_tasks as nat)),
    ]
}

/// The first half of the fields that a `RequestorStats` message writes.
pub open spec fn requestor_task_fields(r: RequestorStats) -> Fields {
    seq![
        ("rs_tasks_cnt"@, decimal(r.tasks_cnt as nat)),
        ("rs_finished_task_cnt"@, decimal(r.finished_task_cnt as nat)),
        ("rs_requested_subtasks_cnt"@, decimal(r.requested_subtasks_cnt as nat)),
        ("rs_collected_results_cnt"@, decimal(r.collected_results_cnt as nat)),
        ("rs_verified_results_cnt"@, decimal(r.verified_results_cnt as nat)),
        ("rs_timed_out_subtasks_cnt"@, decimal(r.timed_out_subtasks_cnt as nat)),
        ("rs_not_downloadable_subtasks_cnt"@, decimal(r.not_downloadable_subtasks_cnt as nat)),
        ("rs_failed_subtasks_cnt"@, decimal(r.failed_subtasks_cnt as nat)),
    ]
}

/// The second half of the fields that a `RequestorStats` message writes.
pub open spec fn requestor_outcome_fields(r: RequestorStats) -> Fields {
    seq![
        ("rs_work_offers_cnt"@, decimal(r.work_offers_cnt as nat)),
        ("rs_finished_ok_cnt"@, decimal(r.finished_ok_cnt as nat)),
        ("rs_finished_ok_total_time"@, r.finished_ok_total_time@),
        ("rs_finished_with_failures_cnt"@, decimal(r.finished_with_failures_cnt as nat)),
        ("rs_finished_with_failures_total_time"@, r.finished_with_failures_total_time@),
        ("rs_failed_cnt"@, decimal(r.failed_cnt as nat)),
        ("rs_failed_total_time"@, r.failed_total_time@),
    ]
}

fn push_stats(out: &mut Vec<(String, String)>, s: &Stats)
    ensures
        pairs_view(final(out)@) == pairs_view(old(out)@) + stats_fields(*s),
{
    let ghost start = pairs_view(out@);
    out.push(("known_tasks".to_string(), u64_to_decimal(s.known_tasks)));
    out.push(("supported_tasks".to_string(), u64_to_decimal(s.supported_tasks)));
    out.push(("tasks_requested".to_string(), u64_to_decimal(s.tasks_requested)));
    out.push(("tasks_with_errors".to_string(), u64_to_decimal(s.tasks_with_errors)));
    out.push(("tasks_with_timeout".to_string(), u64_to_decimal(s.tasks_with_timeout)));
    out.push(("completed".to_string(), u64_to_decimal(s.computed_tasks)));
    assert(pairs_view(out@) =~= start + stats_fields(*s));
}

fn push_requestor_tasks(out: &mut Vec<(String, String)>, r: &RequestorStats)
    ensures
        pairs_view(final(out)@) == pairs_view(old(out)@) + requestor_task_fields(*r),
{
    let ghost start = pairs_view(out@);
    out.push(("rs_tasks_cnt".to_string(), u64_to_decimal(r.tasks_cnt)));
    out.push(("rs_finished_task_cnt".to_string(), u64_to_decimal(r.finished_task_cnt)));
    out.push(("rs_requested_subtasks_cnt".to_string(), u64_to_decimal(r.requested_subtasks_cnt)));
    out.push(("rs_collected_results_cnt".to_string(), u64_to_decimal(r.collected_results_cnt)));
    out.push(("rs_verified_results_cnt".to_string(), u64_to_decimal(r.verified_results_cnt)));
    out.push(("rs_timed_out_subtasks_cnt".to_string(), u64_to_decimal(r.timed_out_subtasks_cnt)));
    out.push(("rs_not_downloadable_subtasks_cnt".to_string(), u64_to_decimal(r.not_downloadable_subtasks_cnt)));
    out.push(("rs_failed_subtasks_cnt".to_string(), u64_to_decimal(r.failed_subtasks_cnt)));
    assert(pairs_view(out@) =~= start + requestor_task_fields(*r));
}

fn push_requestor_outcomes(out: &mut Vec<(String, String)>, r: &RequestorStats)
    ensures
        pairs_view(final(out)@) == pairs_view(old(out)@) + requestor_outcome_fields(*r),
{
    let ghost start = pairs_view(out@);
    out.push(("rs_work_offers_cnt".to_string(), u64_to_decimal(r.work_offers_cnt)));
    out.push(("rs_finished_ok_cnt".to_string(), u64_to_decimal(r.finished_ok_cnt)));
    out.push(("rs_finished_ok_total_time".to_string(), r.finished_ok_total_time.clone()));
    out.push(("rs_finished_with_failures_cnt".to_string(), u64_to_decimal(r.finished_with_failures_cnt)));
    out.push(("rs_finished_with_failures_total_time".to_string(), r.finished_with_failures_total_time.clone()));
    out.push(("rs_failed_cnt".to_string(), u64_to_decimal(r.failed_cnt)));
    out.push(("rs_failed_total_time".to_string(), r.failed_total_time.clone()));
    assert(pairs_view(out@) =~= start + requestor_outcome_fields(*r));
}

pub open spec fn bool_text(b: bool) -> Seq<char> {
    if b { "true"@ } else { "false"@ }
}

/// The text that a stored field shows of a JSON scalar; none for anything
/// else.
pub open spec fn scalar_text(v: JsonScalar) -> Option<Seq<char>> {
    match v {
        JsonScalar::Str(s) => Some(s@),
        JsonScalar::Num(t) => Some(t@),
        JsonScalar::Bool(b) => Some(bool_text(b)),
        JsonScalar::Other => None,
    }
}

/// One `protocol_version_<name>` field per protocol version whose value a
/// field can show, in order.
pub open spec fn version_fields(pv: Seq<(String, JsonScalar)>) -> Fields
    decreases pv.len(),
{
    if pv.len() == 0 {
        seq![]
    } else {
        version_fields(pv.drop_last()) + match scalar_text(pv.last().1) {
            Some(t) => seq![("protocol_version_"@ + pv.last().0@, t)],
            None => seq![],
        }
    }
}

fn bool_string(b: bool) -> (r: String)
    ensures
        r@ == bool_text(b),
{
    if b { "true".to_string() } else { "false".to_string() }
}

/// The protocol versions of a login as fields: each name prefixed with
/// `protocol_version_`; a value that is no string, number or boolean is
/// left out.
pub fn protocol_versions_to_map(pv: &Vec<(String, JsonScalar)>) -> (r: Vec<(String, String)>)
    ensures
        pairs_view(r@) == version_fields(pv@),
{
    let mut out: Vec<(String, String)> = Vec::new();
    let mut i: usize = 0;
    while i < pv.len()
        invariant
            i <= pv@.len(),
            pairs_view(out@) == version_fields(pv@.take(i as int)),
        decreases pv@.len() - i,
    {
        let ghost before = out@;
        let value = match &pv[i].1 {
            JsonScalar::Str(s) => Some(s.clone()),
            JsonScalar::Num(t) => Some(t.clone()),
            JsonScalar::Bool(b) => Some(bool_string(*b)),
            JsonScalar::Other => None,
        };
        assert(pv@.take(i + 1).drop_last() =~= pv@.take(i as int));
        assert(pv@.take(i + 1).last() == pv@[i as int]);
        match value {
            Some(v) => {
                let mut name = "protocol_version_".to_string();
                name.append(pv[i].0.as_str());
                out.push((name, v));
                assert(pairs_view(out@) =~= version_fields(pv@.take(i + 1)));
            },
            None => {
                assert(pairs_view(out@) =~= version_fields(pv@.take(i + 1)));
            },
        }
        i = i + 1;
    }
    assert(pv@.take(i as int) =~= pv@);
    out
}

/// The fields that every written message starts with: who, from where,
/// and when the server received it.
pub open spec fn head_fields(cliid: String, sessid: Option<String>, ip: Option<String>, now_ms: u64) -> Fields {
    seq![("cliid"@, cliid@)] + opt_text("sessid"@, sessid) + opt_text("ip"@, ip)
        + seq![("timestamp"@, decimal(now_ms as nat))]
}

fn push_head(out: &mut Vec<(String, String)>, cliid: &String, sessid: &Option<String>, ip: &Option<String>, now_ms: u64)
    ensures
        pairs_view(final(out)@) == pairs_view(old(out)@) + head_fields(*cliid, *sessid, *ip, now_ms),
{
    let ghost start = pairs_view(out@);
    out.push(("cliid".to_string(), cliid.clone()));
    assert(pairs_view(out@) =~= start + seq![("cliid"@, cliid@)]);
    push_text(out, "sessid", sessid);
    push_text(out, "ip", ip);
    let ghost mid = pairs_view(out@);
    out.push(("timestamp".to_string(), u64_to_decimal(now_ms)));
    assert(pairs_view(out@) =~= mid + seq![("timestamp"@, decimal(now_ms as nat))]);
    assert(pairs_view(out@) =~= start + head_fields(*cliid, *sessid, *ip, now_ms));
}

/// The record fields that a request writes, where it writes any: a login
/// writes its session, metadata, GPU support and protocol versions; a
/// `Stats` or `RequestorStats` message its counters. Every one of them also
/// writes the client id, the source address where known, and `now_ms` as
/// the time of the last update.
pub open spec fn node_fields_spec(req: GolemRequest, ip: Option<String>, now_ms: u64) -> Option<Fields> {
    match req.body {
        GolemRequestBody::Login { metadata, protocol_versions, sessid, nvgpu } => Some(
            head_fields(req.cliid, sessid, ip, now_ms)
            + match metadata {
                Some(m) => metadata_fields(m),
                None => seq![],
            }
            + match nvgpu {
                Some(b) => seq![("nvgpu_is_supported"@, bool_text(b))],
                None => seq![],
            }
            + version_fields(protocol_versions@)),
        GolemRequestBody::Stats(s) => Some(head_fields(req.cliid, None, ip, now_ms) + stats_fields(s)),
        GolemRequestBody::RequestorStats(r) => Some(
            head_fields(req.cliid, None, ip, now_ms) + requestor_task_fields(r) + requestor_outcome_fields(r)),
        _ => None,
    }
}

/// The record fields that a request writes, received at `now_ms` from
/// `ip`; `None` for a message that writes no record.
pub fn to_node_info(req: &GolemRequest, ip: &Option<String>, now_ms: u64) -> (r: Option<Vec<(String, String)>>)
    ensures
        match r {
            Some(v) => node_fields_spec(*req, *ip, now_ms) == Some(pairs_view(v@)),
            None => node_fields_spec(*req, *ip, now_ms) is None,
        },
{
    let mut out: Vec<(String, String)> = Vec::new();
    let ghost empty = pairs_view(out@);
    assert(empty =~= Seq::<(Seq<char>, Seq<char>)>::empty());
    match &req.body {
        GolemRequestBody::Login { metadata, protocol_versions, sessid, nvgpu } => {
            push_head(&mut out, &req.cliid, sessid, ip, now_ms);
            let ghost g1 = pairs_view(out@);
            match metadata {
                Some(m) => push_metadata(&mut out, m),
                None => {},
            }
            let ghost g2 = pairs_view(out@);
            match nvgpu {
                Some(b) => out.push(("nvgpu_is_supported".to_string(), bool_string(*b))),
                None => {},
            }
            let ghost g3 = pairs_view(out@);
            let mut versions = protocol_versions_to_map(protocol_versions);
            out.append(&mut versions);
            assert(g2 =~= g1 + match *metadata { Some(m) => metadata_fields(m), None => seq![] });
            assert(g3 =~= g2 + match *nvgpu { Some(b) => seq![("nvgpu_is_supported"@, bool_text(b))], None => seq![] });
            assert(pairs_view(out@) =~= g3 + version_fields(protocol_versions@));
            assert(pairs_view(out@) =~= node_fields_spec(*req, *ip, now_ms)->0);
            Some(out)
        },
        GolemRequestBody::Stats(s) => {
            push_head(&mut out, &req.cliid, &None, ip, now_ms);
            push_stats(&mut out, s);
            assert(pairs_view(out@) =~= node_fields_spec(*req, *ip, now_ms)->0);
            Some(out)
        },
        GolemRequestBody::RequestorStats(r) => {
            push_head(&mut out, &req.cliid, &None, ip, now_ms);
            push_requestor_tasks(&mut out, r);
            push_requestor_outcomes(&mut out, r);
            assert(pairs_view(out@) =~= node_fields_spec(*req, *ip, now_ms)->0);
            Some(out)
        },
        _ => None,
    }
}

/// The update that a request makes: a peer-to-peer snapshot is stored as
/// it came, under the client id; a message that writes a record writes its
/// fields to the client's node record; any other message writes nothing and
/// is acknowledged all the same.
pub fn update_for_request(req: GolemRequest, ip: &Option<String>, now_ms: u64) -> (r: Option<UpdateRedis>)
    ensures
        match req.body {
            GolemRequestBody::P2PSnapshot(blob) => r matches Some(UpdateRedis::UpdateRedisVal(u))
                && u.collection@ == P2P_COLLECTION@ && u.key@ == req.cliid@ && u.value@ == blob@,
            _ => match node_fields_spec(req, *ip, now_ms) {
                Some(f) => r matches Some(UpdateRedis::UpdateRedisMap(u))
                    && u.collection@ == NODE_COLLECTION@ && u.key@ == req.cliid@
                    && pairs_view(u.value@) == f,
                None => r is None,
            },
        },
{
    match &req.body {
        GolemRequestBody::P2PSnapshot(blob) => {
            return Some(UpdateRedis::UpdateRedisVal(UpdateVal {
                collection: P2P_COLLECTION.to_string(),
                key: req.cliid.clone(),
                value: blob.clone(),
            }));
        },
        _ => {},
    }
    match to_node_info(&req, ip, now_ms) {
        Some(fields) => Some(UpdateRedis::UpdateRedisMap(UpdateMap {
            collection: NODE_COLLECTION.to_string(),
            key: req.cliid.clone(),
            value: fields,
        })),
        None => None,
    }
}

/// No metadata field is named `ip`.
proof fn lemma_metadata_avoids_ip(m: Metadata)
    ensures
        avoids(metadata_fields(m), "ip"@),
{
    reveal_strlit("start_port");
    reveal_strlit("end_port");
    reveal_strlit("estimated_blender_performance");
    reveal_strlit("estimated_lux_performance");
    reveal_strlit("estimated_performance");
    reveal_strlit("max_memory_size");
    reveal_strlit("max_price");
    reveal_strlit("min_price");
    reveal_strlit("max_resource_size");
    reveal_strlit("node_name");
    reveal_strlit("num_cores");
    reveal_strlit("os");
    reveal_strlit("os_system");
    reveal_strlit("os_release");
    reveal_strlit("os_version");
    reveal_strlit("os_windows_edition");
    reveal_strlit("net");
    reveal_strlit("version");
    reveal_strlit("os_linux_distribution");
    reveal_strlit("nvgpu_is_supported");
    reveal_strlit("timestamp");
    reveal_strlit("cliid");
    reveal_strlit("sessid");
    reveal_strlit("ip");
    let n = "ip"@;
    assert("start_port"@.len() != n.len());
    lemma_opt_num_avoids("start_port"@, opt_u16(m.settings.start_port), n);
    assert("end_port"@.len() != n.len());
    lemma_opt_num_avoids("end_port"@, opt_u16(m.settings.end_port), n);
    assert("estimated_blender_performance"@.len() != n.len());
    lemma_opt_text_avoids("estimated_blender_performance"@, m.settings.estimated_blender_performance, n);
    assert("estimated_lux_performance"@.len() != n.len());
    lemma_opt_text_avoids("estimated_lux_performance"@, m.settings.estimated_lux_performance, n);
    assert("estimated_performance"@.len() != n.len());
    lemma_opt_text_avoids("estimated_performance"@, m.settings.estimated_performance, n);
    lemma_avoids_add(opt_num("start_port"@, opt_u16(m.settings.start_port)), opt_num("end_port"@, opt_u16(m.settings.end_port)), n);
    lemma_avoids_add(opt_num("start_port"@, opt_u16(m.settings.start_port)) + opt_num("end_port"@, opt_u16(m.settings.end_port)), opt_text("estimated_blender_performance"@, m.settings.estimated_blender_performance), n);
    lemma_avoids_add(opt_num("start_port"@, opt_u16(m.settings.start_port)) + opt_num("end_port"@, opt_u16(m.settings.end_port)) + opt_text("estimated_blender_performance"@, m.settings.estimated_blender_performance), opt_text("estimated_lux_performance"@, m.settings.estimated_lux_performance), n);
    lemma_avoids_add(opt_num("start_port"@, opt_u16(m.settings.start_port)) + opt_num("end_port"@, opt_u16(m.settings.end_port)) + opt_text("estimated_blender_performance"@, m.settings.estimated_blender_performance) + opt_text("estimated_lux_performance"@, m.settings.estimated_lux_performance), opt_text("estimated_performance"@, m.settings.estimated_performance), n);
    assert("max_memory_size"@.len() != n.len());
    lemma_opt_num_avoids("max_memory_size"@, m.settings.max_memory_size, n);
    assert("max_price"@.len() != n.len());
    lemma_opt_num_avoids("max_price"@, m.settings.max_price, n);
    assert("min_price"@.len() != n.len());
    lemma_opt_num_avoids("min_price"@, m.settings.min_price, n);
    assert("max_resource_size"@.len() != n.len());
    lemma_opt_num_avoids("max_resource_size"@, m.settings.max_resource_size, n);
    assert("node_name"@.len() != n.len());
    lemma_opt_text_avoids("node_name"@, m.settings.node_name, n);
    assert("num_cores"@.len() != n.len());
    lemma_opt_num_avoids("num_cores"@, opt_u32(m.settings.num_cores), n);
    lemma_avoids_add(opt_num("max_memory_size"@, m.settings.max_memory_size), opt_num("max_price"@, m.settings.max_price), n);
    lemma_avoids_add(opt_num("max_memory_size"@, m.settings.max_memory_size) + opt_num("max_price"@, m.settings.max_price), opt_num("min_price"@, m.settings.min_price), n);
    lemma_avoids_add(opt_num("max_memory_size"@, m.settings.max_memory_size) + opt_num("max_price"@, m.settings.max_price) + opt_num("min_price"@, m.settings.min_price), opt_num("max_resource_size"@, m.settings.max_resource_size), n);
    lemma_avoids_add(opt_num("max_memory_size"@, m.settings.max_memory_size) + opt_num("max_price"@, m.settings.max_price) + opt_num("min_price"@, m.settings.min_price) + opt_num("max_resource_size"@, m.settings.max_resource_size), opt_text("node_name"@, m.settings.node_name), n);
    lemma_avoids_add(opt_num("max_memory_size"@, m.settings.max_memory_size) + opt_num("max_price"@, m.settings.max_price) + opt_num("min_price"@, m.settings.min_price) + opt_num("max_resource_size"@, m.settings.max_resource_size) + opt_text("node_name"@, m.settings.node_name), opt_num("num_cores"@, opt_u32(m.settings.num_cores)), n);
    assert(avoids(distribution_of(m), n)) by {
        if m.os_info.linux_distribution is Some {
            assert(distribution_of(m)[0].0 == "os_linux_distribution"@);
            assert("os_linux_distribution"@.len() != n.len());
        }
    }
    assert("os"@[0] != n[0]);
    lemma_opt_text_avoids("os"@, platform_of(m), n);
    assert("os_system"@.len() != n.len());
    lemma_opt_text_avoids("os_system"@, m.os_info.system, n);
    assert("os_release"@.len() != n.len());
    lemma_opt_text_avoids("os_release"@, m.os_info.release, n);
    assert("os_version"@.len() != n.len());
    lemma_opt_text_avoids("os_version"@, m.os_info.version, n);
    assert("os_windows_edition"@.len() != n.len());
    lemma_opt_text_avoids("os_windows_edition"@, m.os_info.windows_edition, n);
    lemma_avoids_add(opt_text("os"@, platform_of(m)), opt_text("os_system"@, m.os_info.system), n);
    lemma_avoids_add(opt_text("os"@, platform_of(m)) + opt_text("os_system"@, m.os_info.system), opt_text("os_release"@, m.os_info.release), n);
    lemma_avoids_add(opt_text("os"@, platform_of(m)) + opt_text("os_system"@, m.os_info.system) + opt_text("os_release"@, m.os_info.release), opt_text("os_version"@, m.os_info.version), n);
    lemma_avoids_add(opt_text("os"@, platform_of(m)) + opt_text("os_system"@, m.os_info.system) + opt_text("os_release"@, m.os_info.release) + opt_text("os_version"@, m.os_info.version), opt_text("os_windows_edition"@, m.os_info.windows_edition), n);
    lemma_avoids_add(opt_text("os"@, platform_of(m)) + opt_text("os_system"@, m.os_info.system) + opt_text("os_release"@, m.os_info.release) + opt_text("os_version"@, m.os_info.version) + opt_text("os_windows_edition"@, m.os_info.windows_edition), distribution_of(m), n);
    assert("net"@.len() != n.len());
    lemma_opt_text_avoids("net"@, m.net, n);
    assert("version"@.len() != n.len());
    lemma_opt_text_avoids("version"@, m.version, n);
    lemma_avoids_add(opt_text("net"@, m.net), opt_text("version"@, m.version), n);
    lemma_avoids_add(opt_text("net"@, m.net) + opt_text("version"@, m.version), performance_fields(m.settings), n);
    lemma_avoids_add(opt_text("net"@, m.net) + opt_text("version"@, m.version) + performance_fields(m.settings), offer_fields(m.settings), n);
    lemma_avoids_add(opt_text("net"@, m.net) + opt_text("version"@, m.version) + performance_fields(m.settings) + offer_fields(m.settings), os_fields(m), n);
}

proof fn lemma_opt_text_avoids(name: Seq<char>, v: Option<String>, n: Seq<char>)
    requires
        name != n,
    ensures
        avoids(opt_text(name, v), n),
{
}

proof fn lemma_opt_num_avoids(name: Seq<char>, v: Option<u64>, n: Seq<char>)
    requires
        name != n,
    ensures
        avoids(opt_num(name, v), n),
{
}

/// No protocol-version field has a name shorter than its prefix.
proof fn lemma_versions_avoid(pv: Seq<(String, JsonScalar)>, n: Seq<char>)
    requires
        n.len() < 17,
    ensures
        avoids(version_fields(pv), n),
    decreases pv.len(),
{
    reveal_strlit("protocol_version_");
    if pv.len() > 0 {
        lemma_versions_avoid(pv.drop_last(), n);
        let piece = match scalar_text(pv.last().1) {
            Some(t) => seq![("protocol_version_"@ + pv.last().0@, t)],
            None => Seq::<(Seq<char>, Seq<char>)>::empty(),
        };
        assert(avoids(piece, n)) by {
            if piece.len() > 0 {
                assert(piece[0].0.len() >= 17);
            }
        }
        lemma_avoids_add(version_fields(pv.drop_last()), piece, n);
    }
}

/// A login stores the source address that it came from under `ip`, and the
/// node list shows that address redacted to its first component.
pub proof fn lemma_login_source_address_listed_redacted(req: GolemRequest, ip: String, now_ms: u64)
    requires
        req.body is Login,
    ensures
        node_fields_spec(req, Some(ip), now_ms) matches Some(f)
            && lookup_spec(f, "ip"@) == Some(ip@)
            && lookup_spec(redacted_spec(f), "ip"@) == Some(obfuscate_spec(ip@)),
{
    reveal_strlit("ip");
    reveal_strlit("timestamp");
    reveal_strlit("nvgpu_is_supported");
    let n = "ip"@;
    match req.body {
        GolemRequestBody::Login { metadata, protocol_versions, sessid, nvgpu } => {
            let pre = seq![("cliid"@, req.cliid@)] + opt_text("sessid"@, sessid) + seq![("ip"@, ip@)];
            let ts = seq![("timestamp"@, decimal(now_ms as nat))];
            assert(head_fields(req.cliid, sessid, Some(ip), now_ms) =~= pre + ts);
            let meta = match metadata { Some(m) => metadata_fields(m), None => seq![] };
            let gpu = match nvgpu { Some(b) => seq![("nvgpu_is_supported"@, bool_text(b))], None => seq![] };
            let vers = version_fields(protocol_versions@);
            assert(avoids(ts, n)) by {
                assert(ts[0].0 == "timestamp"@);
                assert("timestamp"@.len() != n.len());
            }
            assert(avoids(meta, n)) by {
                if let Some(m) = metadata { lemma_metadata_avoids_ip(m); }
            }
            assert(avoids(gpu, n)) by {
                if nvgpu is Some {
                    assert(gpu[0].0 == "nvgpu_is_supported"@);
                    assert("nvgpu_is_supported"@.len() != n.len());
                }
            }
            lemma_versions_avoid(protocol_versions@, n);
            lemma_avoids_add(ts, meta, n);
            lemma_avoids_add(ts + meta, gpu, n);
            lemma_avoids_add(ts + meta + gpu, vers, n);
            let f = pre + ts + meta + gpu + vers;
            assert(f =~= pre + (ts + meta + gpu + vers));
            lemma_lookup_after(pre, ts + meta + gpu + vers, n);
            assert(pre.last() == ("ip"@, ip@));
            assert(lookup_spec(pre, n) == Some(ip@));
            assert(node_fields_spec(req, Some(ip), now_ms) == Some(f));
            lemma_lookup_redacted(f, n);
        },
        _ => {},
    }
}

/// A `Stats` message stores the client id, the time and the counters: the
/// dump shows the id under `node_id` and `tasks_requested` under its own
/// column, and every column whose field the message does not write is empty.
pub proof fn lemma_stats_post_then_dump(req: GolemRequest, ip: Option<String>, now_ms: u64, col: Seq<char>)
    requires
        req.body is Stats,
    ensures
        node_fields_spec(req, ip, now_ms) matches Some(f)
            && csv_value_spec(f, "tasks_requested"@) == decimal(req.body->Stats_0.tasks_requested as nat)
            && csv_value_spec(f, "node_id"@) == req.cliid@
            && (avoids(f, csv_field_spec(col)) ==> csv_value_spec(f, col) == Seq::<char>::empty()),
{
    reveal_strlit("allowed_resource_memory");
    reveal_strlit("allowed_resource_size");
    reveal_strlit("cliid");
    reveal_strlit("completed");
    reveal_strlit("cpu_cores");
    reveal_strlit("ip");
    reveal_strlit("known_tasks");
    reveal_strlit("last_seen");
    reveal_strlit("node_id");
    reveal_strlit("p2p_protocol_version");
    reveal_strlit("performance_blender");
    reveal_strlit("performance_general");
    reveal_strlit("performance_lux");
    reveal_strlit("sessid");
    reveal_strlit("subtasks_error");
    reveal_strlit("subtasks_success");
    reveal_strlit("subtasks_timeout");
    reveal_strlit("supported_tasks");
    reveal_strlit("task_protocol_version");
    reveal_strlit("tasks_requested");
    reveal_strlit("tasks_with_errors");
    reveal_strlit("tasks_with_timeout");
    reveal_strlit("timestamp");
    assert("tasks_requested"@.len() != "node_id"@.len());
    assert("tasks_requested"@.len() != "last_seen"@.len());
    assert("tasks_requested"@.len() != "performance_general"@.len());
    assert("tasks_requested"@[0] != "performance_lux"@[0]);
    assert("tasks_requested"@.len() != "performance_blender"@.len());
    assert("tasks_requested"@.len() != "allowed_resource_size"@.len());
    assert("tasks_requested"@.len() != "allowed_resource_memory"@.len());
    assert("tasks_requested"@.len() != "cpu_cores"@.len());
    assert("tasks_requested"@.len() != "subtasks_success"@.len());
    assert("tasks_requested"@.len() != "subtasks_error"@.len());
    assert("tasks_requested"@.len() != "subtasks_timeout"@.len());
    assert("tasks_requested"@.len() != "task_protocol_version"@.len());
    assert("tasks_requested"@.len() != "p2p_protocol_version"@.len());
    assert(csv_field_spec("tasks_requested"@) == "tasks_requested"@);
    assert(csv_field_spec("node_id"@) == "cliid"@);
    let s = req.body->Stats_0;
    let head = head_fields(req.cliid, None, ip, now_ms);
    let f = head + stats_fields(s);
    assert(node_fields_spec(req, ip, now_ms) == Some(f));
    // tasks_requested: the fields after it are named otherwise
    let n = "tasks_requested"@;
    let stats = stats_fields(s);
    let a = head + stats.take(3);
    let b = stats.skip(3);
    assert(f =~= a + b);
    assert(avoids(b, n)) by {
        assert("tasks_requested"@.len() != "tasks_with_errors"@.len());
        assert("tasks_requested"@.len() != "tasks_with_timeout"@.len());
        assert("tasks_requested"@.len() != "completed"@.len());
        assert(b[0].0 == "tasks_with_errors"@ && b[1].0 == "tasks_with_timeout"@ && b[2].0 == "completed"@);
    }
    lemma_lookup_after(a, b, n);
    assert(a.last() == ("tasks_requested"@, decimal(s.tasks_requested as nat)));
    // cliid: the first field, and no later one shares its name
    let c = "cliid"@;
    let first = seq![("cliid"@, req.cliid@)];
    let rest = opt_text("sessid"@, None) + opt_text("ip"@, ip) + seq![("timestamp"@, decimal(now_ms as nat))] + stats;
    assert(f =~= first + rest);
    assert(avoids(rest, c)) by {
        assert("cliid"@.len() != "ip"@.len());
        assert("cliid"@.len() != "timestamp"@.len());
        assert("cliid"@.len() != "known_tasks"@.len());
        assert("cliid"@.len() != "supported_tasks"@.len());
        assert("cliid"@.len() != "tasks_requested"@.len());
        assert("cliid"@.len() != "tasks_with_errors"@.len());
        assert("cliid"@.len() != "tasks_with_timeout"@.len());
        assert("cliid"@.len() != "completed"@.len());
        assert forall|i: int| 0 <= i < rest.len() implies (#[trigger] rest[i]).0 != c by {
            assert(rest[i].0 == "ip"@ || rest[i].0 == "timestamp"@ || rest[i].0 == "known_tasks"@
                || rest[i].0 == "supported_tasks"@ || rest[i].0 == "tasks_requested"@
                || rest[i].0 == "tasks_with_errors"@ || rest[i].0 == "tasks_with_timeout"@ || rest[i].0 == "completed"@);
        }
    }
    lemma_lookup_after(first, rest, c);
    if avoids(f, csv_field_spec(col)) {
        lemma_lookup_absent(f, csv_field_spec(col));
    }
}

} // verus!
