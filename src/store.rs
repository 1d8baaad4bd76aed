//! Commands for the key-value store, and the decoding of their replies.
use vstd::prelude::*;
use crate::reply::{Reply, StoreError, all_text, reply_text, shape_error, strings_view, text_of, texts, texts_of};
use crate::text::{decimal, parse_u64, parse_u64_spec, u64_to_decimal};

verus! {

/// The set that holds the ids of the nodes considered live.
pub const ACTIVE_SET: &'static str = "active_nodes";

/// The collection that holds one record per node.
pub const NODE_COLLECTION: &'static str = "nodeinfo";

/// The collection that holds each node's peer-to-peer snapshot.
pub const P2P_COLLECTION: &'static str = "p2pstats";

/// The key pattern that matches every node record.
pub const NODE_KEY_PATTERN: &'static str = "nodeinfo.*";

pub open spec fn strs(s: Seq<&str>) -> Seq<Seq<char>> {
    Seq::new(s.len(), |i: int| s[i]@)
}

/// `<collection>.<key>`: where a record of a collection is stored.
pub open spec fn store_key_spec(collection: Seq<char>, key: Seq<char>) -> Seq<char> {
    collection + seq!['.'] + key
}

/// The store key of `key` in `collection`.
pub fn store_key(collection: &str, key: &str) -> (r: String)
    ensures
        r@ == store_key_spec(collection@, key@),
{
    let mut r = collection.to_string();
    crate::text::push_char(&mut r, '.');
    r.append(key);
    r
}

/// The store key of a node's record.
pub fn node_key(node_id: &str) -> (r: String)
    ensures
        r@ == store_key_spec(NODE_COLLECTION@, node_id@),
{
    store_key(NODE_COLLECTION, node_id)
}

fn arg(s: &str) -> (r: String)
    ensures
        r@ == s@,
{
    s.to_string()
}

/// `SCAN <cursor> MATCH <pattern> COUNT <count>`.
pub fn scan_command(pattern: &str, cursor: u64, count: u64) -> (r: Vec<String>)
    ensures
        strings_view(r@) == seq![
            "SCAN"@,
            decimal(cursor as nat),
            "MATCH"@,
            pattern@,
            "COUNT"@,
            decimal(count as nat),
        ],
{
    let mut r: Vec<String> = Vec::new();
    r.push(arg("SCAN"));
    r.push(u64_to_decimal(cursor));
    r.push(arg("MATCH"));
    r.push(arg(pattern));
    r.push(arg("COUNT"));
    r.push(u64_to_decimal(count));
    assert(strings_view(r@) =~= seq!["SCAN"@, decimal(cursor as nat), "MATCH"@, pattern@, "COUNT"@, decimal(count as nat)]);
    r
}

/// `SSCAN <set> <cursor> COUNT <count>`.
pub fn sscan_command(set_key: &str, cursor: u64, count: u64) -> (r: Vec<String>)
    ensures
        strings_view(r@) == seq!["SSCAN"@, set_key@, decimal(cursor as nat), "COUNT"@, decimal(count as nat)],
{
    let mut r: Vec<String> = Vec::new();
    r.push(arg("SSCAN"));
    r.push(arg(set_key));
    r.push(u64_to_decimal(cursor));
    r.push(arg("COUNT"));
    r.push(u64_to_decimal(count));
    assert(strings_view(r@) =~= seq!["SSCAN"@, set_key@, decimal(cursor as nat), "COUNT"@, decimal(count as nat)]);
    r
}

/// `HGETALL <key>`.
pub fn hgetall_command(key: &str) -> (r: Vec<String>)
    ensures
        strings_view(r@) == seq!["HGETALL"@, key@],
{
    let mut r: Vec<String> = Vec::new();
    r.push(arg("HGETALL"));
    r.push(arg(key));
    assert(strings_view(r@) =~= seq!["HGETALL"@, key@]);
    r
}

/// `SREM <set> <member>`.
pub fn srem_command(set_key: &str, member: &str) -> (r: Vec<String>)
    ensures
        strings_view(r@) == seq!["SREM"@, set_key@, member@],
{
    let mut r: Vec<String> = Vec::new();
    r.push(arg("SREM"));
    r.push(arg(set_key));
    r.push(arg(member));
    assert(strings_view(r@) =~= seq!["SREM"@, set_key@, member@]);
    r
}

/// One page of a cursor scan: the cursor to continue from (0 when the scan
/// is complete) and the keys or members of this page.
pub struct ScanPage {
    pub cursor: u64,
    pub keys: Vec<String>,
}

/// What a scan reply holds: a pair of the next cursor, as decimal text, and
/// an array of texts.
pub open spec fn scan_page_of(r: Reply) -> Option<(u64, Seq<Seq<char>>)> {
    match r {
        Reply::Array(v) => if v@.len() >= 2 {
            match (text_of(v@[0]), v@[1]) {
                (Some(c), Reply::Array(items)) => match parse_u64_spec(c) {
                    Some(n) => if all_text(items@) { Some((n, texts_of(items@))) } else { None },
                    None => None,
                },
                _ => None,
            }
        } else {
            None
        },
        _ => None,
    }
}

/// Decodes the reply to `SCAN` or `SSCAN`; a shape error where the reply is
/// not a cursor and a list of texts.
pub fn decode_scan_page(reply: Reply) -> (res: Result<ScanPage, StoreError>)
    ensures
        res is Ok <==> scan_page_of(reply) is Some,
        res matches Ok(p) ==> scan_page_of(reply) == Some((p.cursor, strings_view(p.keys@))),
        res matches Err(e) ==> e is Shape,
{
    let ghost r0 = reply;
    let (cursor_val, data_val) = match reply.into_pair() {
        Ok(p) => p,
        Err(e) => return Err(e),
    };
    let cursor_text = match reply_text(&cursor_val) {
        Ok(s) => s,
        Err(e) => return Err(e),
    };
    let cursor = match parse_u64(cursor_text.as_str()) {
        Some(c) => c,
        None => return Err(shape_error("cursor expected")),
    };
    let items = match data_val.into_vec() {
        Ok(v) => v,
        Err(e) => return Err(e),
    };
    let keys = match texts(&items) {
        Ok(k) => k,
        Err(e) => return Err(e),
    };
    Ok(ScanPage { cursor, keys })
}

/// The field/value pairs of a record, as text.
pub open spec fn pairs_view(v: Seq<(String, String)>) -> Seq<(Seq<char>, Seq<char>)> {
    Seq::new(v.len(), |i: int| (v[i].0@, v[i].1@))
}

/// What a reply to `HGETALL` holds: an array of texts of even length,
/// read as field, value, field, value, ...
pub open spec fn hash_of(r: Reply) -> Option<Seq<(Seq<char>, Seq<char>)>> {
    match r {
        Reply::Array(v) => if v@.len() % 2 == 0 && all_text(v@) {
            Some(Seq::new(v@.len() / 2, |j: int| (text_of(v@[2 * j])->0, text_of(v@[2 * j + 1])->0)))
        } else {
            None
        },
        _ => None,
    }
}

/// Decodes the reply to `HGETALL` into field/value pairs, in the order of
/// the reply; a shape error where it is not an even list of texts.
pub fn decode_hash(reply: Reply) -> (res: Result<Vec<(String, String)>, StoreError>)
    ensures
        res is Ok <==> hash_of(reply) is Some,
        res matches Ok(v) ==> hash_of(reply) == Some(pairs_view(v@)),
        res matches Err(e) ==> e is Shape,
{
    let items = match reply.into_vec() {
        Ok(v) => v,
        Err(e) => return Err(e),
    };
    let n = items.len();
    let mut out: Vec<(String, String)> = Vec::new();
    let mut i: usize = 0;
    while i + 1 < n
        invariant
            n == items@.len(),
            reply == Reply::Array(items),
            i % 2 == 0,
            i <= n,
            out@.len() == i / 2,
            all_text(items@.subrange(0, i as int)),
            forall|j: int| 0 <= j < i / 2 ==> (#[trigger] out@[j]).0@ == text_of(items@[2 * j])->0
                && out@[j].1@ == text_of(items@[2 * j + 1])->0,
        decreases n - i,
    {
        let k = match reply_text(&items[i]) {
            Ok(s) => s,
            Err(e) => {
                assert(text_of(items@[i as int]) is None);
                return Err(e);
            },
        };
        let v = match reply_text(&items[i + 1]) {
            Ok(s) => s,
            Err(e) => {
                assert(text_of(items@[i + 1]) is None);
                return Err(e);
            },
        };
        out.push((k, v));
        assert forall|j: int| 0 <= j < i + 2 implies (#[trigger] text_of(items@.subrange(0, i + 2)[j])) is Some by {
            if j < i {
                assert(items@.subrange(0, i as int)[j] == items@.subrange(0, i + 2)[j]);
            }
        }
        i = i + 2;
    }
    if i < n {
        return Err(shape_error("pair expected"));
    }
    assert(items@.subrange(0, i as int) =~= items@);
    assert(pairs_view(out@) =~= Seq::new(items@.len() / 2, |j: int| (text_of(items@[2 * j])->0, text_of(items@[2 * j + 1])->0)));
    Ok(out)
}

} // verus!
