//! The serialised writer's decisions: which store commands one update
//! becomes, and in what order they go out.
use vstd::prelude::*;
use crate::reply::{StoreError, strings_view};
use crate::store::{ACTIVE_SET, pairs_view, store_key, store_key_spec};

verus! {

/// A write of several fields of one record.
pub struct UpdateMap {
    pub collection: String,
    pub key: String,
    pub value: Vec<(String, String)>,
}

/// A write of one plain value.
pub struct UpdateVal {
    pub collection: String,
    pub key: String,
    pub value: String,
}

/// One update for the writer.
pub enum UpdateRedis {
    UpdateRedisMap(UpdateMap),
    UpdateRedisVal(UpdateVal),
}

/// Why the writer could not take or answer an update.
#[derive(Clone, Copy, PartialEq, Eq, Structural)]
pub enum MailboxFault {
    /// The writer's mailbox has closed.
    Closed,
    /// The update was not delivered in time.
    Timeout,
}

/// A failed update.
pub enum Error {
    /// The writer could not take the update or answer it.
    MailboxError(MailboxFault),
    /// The store did not carry out the write.
    StoreError(StoreError),
}

/// Field, value, field, value, ...
pub open spec fn flat_pairs(p: Seq<(Seq<char>, Seq<char>)>) -> Seq<Seq<char>>
    decreases p.len(),
{
    if p.len() == 0 {
        seq![]
    } else {
        flat_pairs(p.drop_last()) + seq![p.last().0, p.last().1]
    }
}

/// `HMSET <collection>.<key> <field> <value> ...`: the fields of this
/// update, and no other.
pub fn to_hmset_command(msg: &UpdateMap) -> (r: Vec<String>)
    ensures
        strings_view(r@) == seq!["HMSET"@, store_key_spec(msg.collection@, msg.key@)]
            + flat_pairs(pairs_view(msg.value@)),
{
    let mut r: Vec<String> = Vec::new();
    r.push("HMSET".to_string());
    r.push(store_key(msg.collection.as_str(), msg.key.as_str()));
    let ghost head = seq!["HMSET"@, store_key_spec(msg.collection@, msg.key@)];
    assert(strings_view(r@) =~= head + flat_pairs(pairs_view(msg.value@).take(0)));
    let mut i: usize = 0;
    while i < msg.value.len()
        invariant
            i <= msg.value@.len(),
            strings_view(r@) == head + flat_pairs(pairs_view(msg.value@).take(i as int)),
        decreases msg.value@.len() - i,
    {
        let ghost before = strings_view(r@);
        r.push(msg.value[i].0.clone());
        r.push(msg.value[i].1.clone());
        let ghost taken = pairs_view(msg.value@).take(i + 1);
        assert(taken.drop_last() =~= pairs_view(msg.value@).take(i as int));
        assert(strings_view(r@) =~= before + seq![taken.last().0, taken.last().1]);
        i = i + 1;
    }
    assert(pairs_view(msg.value@).take(i as int) =~= pairs_view(msg.value@));
    r
}

/// `SET <collection>.<key> <value>`.
pub fn to_set_command(msg: &UpdateVal) -> (r: Vec<String>)
    ensures
        strings_view(r@) == seq!["SET"@, store_key_spec(msg.collection@, msg.key@), msg.value@],
{
    let mut r: Vec<String> = Vec::new();
    r.push("SET".to_string());
    r.push(store_key(msg.collection.as_str(), msg.key.as_str()));
    r.push(msg.value.clone());
    assert(strings_view(r@) =~= seq!["SET"@, store_key_spec(msg.collection@, msg.key@), msg.value@]);
    r
}

/// The commands of one update, in the order they go out: first, for a
/// record write, the one that adds the key to the active set, whose answer
/// nobody waits for; then the write, whose answer is the update's.
pub struct WritePlan {
    pub membership: Option<Vec<String>>,
    pub write: Vec<String>,
}

/// The commands that carry out an update: a record write adds its key to
/// the active set, then writes exactly its own fields in one command; a
/// plain write sets its value.
pub fn write_commands(msg: &UpdateRedis) -> (r: WritePlan)
    ensures
        match msg {
            UpdateRedis::UpdateRedisMap(u) => r.membership matches Some(m)
                && strings_view(m@) == seq!["SADD"@, ACTIVE_SET@, u.key@]
                && strings_view(r.write@) == seq!["HMSET"@, store_key_spec(u.collection@, u.key@)]
                    + flat_pairs(pairs_view(u.value@)),
            UpdateRedis::UpdateRedisVal(u) => r.membership is None
                && strings_view(r.write@) == seq!["SET"@, store_key_spec(u.collection@, u.key@), u.value@],
        },
{
    match msg {
        UpdateRedis::UpdateRedisMap(u) => {
            let mut m: Vec<String> = Vec::new();
            m.push("SADD".to_string());
            m.push(ACTIVE_SET.to_string());
            m.push(u.key.clone());
            assert(strings_view(m@) =~= seq!["SADD"@, ACTIVE_SET@, u.key@]);
            WritePlan { membership: Some(m), write: to_hmset_command(u) }
        },
        UpdateRedis::UpdateRedisVal(u) => WritePlan { membership: None, write: to_set_command(u) },
    }
}

/// A stored record after one field write: each written field takes its
/// value, later pairs of the write over earlier ones; other fields keep
/// theirs.
pub open spec fn hash_after(rec: Map<Seq<char>, Seq<char>>, w: Seq<(Seq<char>, Seq<char>)>) -> Map<Seq<char>, Seq<char>>
    decreases w.len(),
{
    if w.len() == 0 {
        rec
    } else {
        hash_after(rec, w.drop_last()).insert(w.last().0, w.last().1)
    }
}

/// A stored record after field writes carried out one after the other.
pub open spec fn hash_after_all(rec: Map<Seq<char>, Seq<char>>, ws: Seq<Seq<(Seq<char>, Seq<char>)>>) -> Map<Seq<char>, Seq<char>>
    decreases ws.len(),
{
    if ws.len() == 0 {
        rec
    } else {
        hash_after(hash_after_all(rec, ws.drop_last()), ws.last())
    }
}

/// The value of field `k` after `ws` was written, or before, or in one of
/// the writes.
pub open spec fn value_from(rec: Map<Seq<char>, Seq<char>>, ws: Seq<Seq<(Seq<char>, Seq<char>)>>, k: Seq<char>, v: Seq<char>) -> bool {
    (rec.contains_key(k) && rec[k] == v)
        || exists|i: int, j: int| 0 <= i < ws.len() && 0 <= j < ws[i].len() && #[trigger] ws[i][j] == (k, v)
}

proof fn lemma_hash_after_source(rec: Map<Seq<char>, Seq<char>>, w: Seq<(Seq<char>, Seq<char>)>, k: Seq<char>)
    requires
        hash_after(rec, w).contains_key(k),
    ensures
        (rec.contains_key(k) && rec[k] == hash_after(rec, w)[k])
            || exists|j: int| 0 <= j < w.len() && #[trigger] w[j] == (k, hash_after(rec, w)[k]),
    decreases w.len(),
{
    if w.len() > 0 {
        let prev = w.drop_last();
        if w.last().0 == k {
            assert(w[w.len() - 1] == (k, hash_after(rec, w)[k]));
        } else {
            lemma_hash_after_source(rec, prev, k);
            if !(rec.contains_key(k) && rec[k] == hash_after(rec, w)[k]) {
                let j = choose|j: int| 0 <= j < prev.len() && #[trigger] prev[j] == (k, hash_after(rec, prev)[k]);
                assert(w[j] == prev[j]);
            }
        }
    }
}

/// Field writes carried out whole, one at a time, mix nothing: after any
/// sequence of them, every field of the record holds the value it held
/// before or a value that one of the writes sent for that very field.
pub proof fn lemma_serial_writes_mix_nothing(
    rec: Map<Seq<char>, Seq<char>>,
    ws: Seq<Seq<(Seq<char>, Seq<char>)>>,
    k: Seq<char>,
)
    requires
        hash_after_all(rec, ws).contains_key(k),
    ensures
        value_from(rec, ws, k, hash_after_all(rec, ws)[k]),
    decreases ws.len(),
{
    if ws.len() > 0 {
        let prev = ws.drop_last();
        let before = hash_after_all(rec, prev);
        let v = hash_after_all(rec, ws)[k];
        lemma_hash_after_source(before, ws.last(), k);
        if before.contains_key(k) && before[k] == v {
            lemma_serial_writes_mix_nothing(rec, prev, k);
            if !(rec.contains_key(k) && rec[k] == v) {
                let (i, j) = choose|i: int, j: int| 0 <= i < prev.len() && 0 <= j < prev[i].len() && #[trigger] prev[i][j] == (k, v);
                assert(ws[i][j] == prev[i][j]);
            }
        } else {
            let j = choose|j: int| 0 <= j < ws.last().len() && #[trigger] ws.last()[j] == (k, v);
            assert(ws[ws.len() - 1][j] == (k, v));
        }
    }
}

} // verus!
