//! The store's reply grammar, and the decoders that read typed values out of
//! a reply or fail with a typed error.
use vstd::prelude::*;

verus! {

/// One reply of the key-value store, as its wire protocol frames it.
pub enum Reply {
    Nil,
    /// Zero, one or more replies.
    Array(Vec<Reply>),
    /// A byte string; text where the bytes are UTF-8.
    BulkString(Vec<u8>),
    /// An error that the store reported.
    Error(String),
    Integer(i64),
    SimpleString(String),
}

/// A failed store round trip.
pub enum StoreError {
    /// The store could not be reached, or did not answer in time.
    Transport(String),
    /// A reply did not have the shape that the command calls for.
    Shape(String),
    /// The store answered with an error of its own.
    Remote(String),
}

impl StoreError {
    /// The error's message.
    pub fn message(&self) -> (r: String)
        ensures
            r@ == (match self {
                StoreError::Transport(m) => m@,
                StoreError::Shape(m) => m@,
                StoreError::Remote(m) => m@,
            }),
    {
        match self {
            StoreError::Transport(m) => m.clone(),
            StoreError::Shape(m) => m.clone(),
            StoreError::Remote(m) => m.clone(),
        }
    }
}

/// The text that UTF-8 bytes decode to; `None` where they are not UTF-8.
pub uninterp spec fn utf8_decoded(b: Seq<u8>) -> Option<Seq<char>>;

/// Relies on `std::str::from_utf8`: the text of the bytes where they are
/// valid UTF-8, an error otherwise.
#[verifier::external_body]
fn utf8_text(b: &[u8]) -> (r: Option<String>)
    ensures
        r matches Some(t) ==> utf8_decoded(b@) == Some(t@),
        r is None ==> utf8_decoded(b@) is None,
{
    match std::str::from_utf8(b) {
        Ok(s) => Some(s.to_string()),
        Err(_) => None,
    }
}

pub(crate) fn shape_error(what: &str) -> (e: StoreError)
    ensures
        e is Shape,
{
    StoreError::Shape(what.to_string())
}

/// The text that a reply carries: a simple string, or a bulk string of UTF-8.
pub open spec fn text_of(r: Reply) -> Option<Seq<char>> {
    match r {
        Reply::BulkString(b) => utf8_decoded(b@),
        Reply::SimpleString(s) => Some(s@),
        _ => None,
    }
}

/// The text of `r`, or a shape error.
pub fn reply_text(r: &Reply) -> (res: Result<String, StoreError>)
    ensures
        res matches Ok(s) ==> text_of(*r) == Some(s@),
        res matches Err(e) ==> text_of(*r) is None && e is Shape,
{
    match r {
        Reply::BulkString(b) => match utf8_text(b.as_slice()) {
            Some(s) => Ok(s),
            None => Err(shape_error("utf-8 format")),
        },
        Reply::SimpleString(s) => Ok(s.clone()),
        _ => Err(shape_error("Invalid response")),
    }
}

impl Reply {
    /// Reads the reply as text.
    pub fn into_string(self) -> (res: Result<String, StoreError>)
        ensures
            res matches Ok(s) ==> text_of(self) == Some(s@),
            res matches Err(e) ==> text_of(self) is None && e is Shape,
    {
        reply_text(&self)
    }

    /// Reads the reply as a pair: the first two items of an array of at
    /// least two.
    pub fn into_pair(self) -> (res: Result<(Reply, Reply), StoreError>)
        ensures
            res is Ok <==> (self matches Reply::Array(v) && v@.len() >= 2),
            res matches Ok(p) ==> (self matches Reply::Array(v) && p.0 == v@[0] && p.1 == v@[1]),
            res matches Err(e) ==> e is Shape,
    {
        match self {
            Reply::Array(v) => {
                if v.len() >= 2 {
                    let mut v = v;
                    let ghost items = v@;
                    v.truncate(2);
                    let second = v.pop().unwrap();
                    let first = v.pop().unwrap();
                    assert(first == items[0] && second == items[1]);
                    Ok((first, second))
                } else {
                    Err(shape_error("pair expected"))
                }
            },
            _ => Err(shape_error("pair expected")),
        }
    }

    /// Reads the reply as a list of replies.
    pub fn into_vec(self) -> (res: Result<Vec<Reply>, StoreError>)
        ensures
            res is Ok <==> self is Array,
            res matches Ok(v) ==> self == Reply::Array(v),
            res matches Err(e) ==> e is Shape,
    {
        match self {
            Reply::Array(v) => Ok(v),
            _ => Err(shape_error("array expected")),
        }
    }
}

/// Every item of `items` carries text.
pub open spec fn all_text(items: Seq<Reply>) -> bool {
    forall|i: int| 0 <= i < items.len() ==> (#[trigger] text_of(items[i])) is Some
}

/// The texts of a list of replies that all carry text.
pub open spec fn texts_of(items: Seq<Reply>) -> Seq<Seq<char>> {
    Seq::new(items.len(), |i: int| text_of(items[i])->0)
}

/// The text of each string.
pub open spec fn strings_view(v: Seq<String>) -> Seq<Seq<char>> {
    Seq::new(v.len(), |i: int| v[i]@)
}

/// Reads every item of a list of replies as text.
pub fn texts(items: &Vec<Reply>) -> (res: Result<Vec<String>, StoreError>)
    ensures
        res is Ok <==> all_text(items@),
        res matches Ok(v) ==> strings_view(v@) == texts_of(items@),
        res matches Err(e) ==> e is Shape,
{
    let mut out: Vec<String> = Vec::new();
    let mut i: usize = 0;
    while i < items.len()
        invariant
            i <= items@.len(),
            out@.len() == i,
            all_text(items@.subrange(0, i as int)),
            forall|j: int| 0 <= j < i ==> Some((#[trigger] out@[j])@) == text_of(items@[j]),
        decreases items@.len() - i,
    {
        match reply_text(&items[i]) {
            Ok(s) => {
                out.push(s);
            },
            Err(e) => {
                return Err(e);
            },
        }
        assert forall|j: int| 0 <= j < i + 1 implies (#[trigger] text_of(items@.subrange(0, i + 1)[j])) is Some by {
            if j < i {
                assert(items@.subrange(0, i as int)[j] == items@.subrange(0, i + 1)[j]);
            }
        }
        i = i + 1;
    }
    assert(items@.subrange(0, i as int) =~= items@);
    assert(strings_view(out@) =~= texts_of(items@));
    Ok(out)
}

} // verus!
