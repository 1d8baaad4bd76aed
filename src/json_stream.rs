//! The streaming array encoder: serialised records in, byte chunks out, the
//! chunks together forming one JSON array.
use vstd::prelude::*;

verus! {

/// Elements separated by a comma and a newline.
pub open spec fn joined(items: Seq<Seq<u8>>) -> Seq<u8>
    decreases items.len(),
{
    if items.len() == 0 {
        seq![]
    } else if items.len() == 1 {
        items[0]
    } else {
        joined(items.drop_last()) + seq![44u8, 10u8] + items.last()
    }
}

/// The whole array: `[`, the elements separated by `,\n`, `]`.
pub open spec fn json_array(items: Seq<Seq<u8>>) -> Seq<u8> {
    seq![91u8] + joined(items) + seq![93u8]
}

/// What of the array stands once `items` have been appended and the end is
/// not yet known: nothing before the first element, then `[` and the
/// elements.
pub open spec fn array_prefix(items: Seq<Seq<u8>>) -> Seq<u8> {
    if items.len() == 0 { seq![] } else { seq![91u8] + joined(items) }
}

/// The chunks, one after the other.
pub open spec fn concat_chunks(chunks: Seq<Vec<u8>>) -> Seq<u8>
    decreases chunks.len(),
{
    if chunks.len() == 0 { seq![] } else { concat_chunks(chunks.drop_last()) + chunks.last()@ }
}

/// The length of the longest element.
pub open spec fn max_len(items: Seq<Seq<u8>>) -> nat
    decreases items.len(),
{
    if items.len() == 0 {
        0
    } else if items.last().len() > max_len(items.drop_last()) {
        items.last().len()
    } else {
        max_len(items.drop_last())
    }
}

/// The bytes that stand before the next element: `[` before the first,
/// `,\n` before any other.
pub open spec fn sep_len(state: EncoderState) -> nat {
    if state == EncoderState::Start { 1 } else { 2 }
}

#[derive(Clone, Copy, PartialEq, Eq, Structural)]
pub enum EncoderState {
    /// Nothing has been written yet.
    Start,
    /// The array is open and holds at least one element.
    InArray,
    /// The array is closed; the stream is exhausted.
    AtEnd,
}

/// Buffers a JSON array as its elements come and hands it out in chunks.
/// A chunk is handed out once the buffer holds more than `min_chunk` bytes,
/// and before an element that would take the buffer past `max_chunk`; chunks
/// end only between elements, so no chunk ends inside an element.
pub struct JsonStream {
    state: EncoderState,
    buffer: Vec<u8>,
    min_chunk: usize,
    max_chunk: usize,
    /// The elements appended so far.
    items: Ghost<Seq<Seq<u8>>>,
    /// All bytes handed out so far.
    emitted: Ghost<Seq<u8>>,
    /// How many elements the bytes handed out so far hold.
    flushed: Ghost<nat>,
}

impl JsonStream {
    pub closed spec fn state(&self) -> EncoderState {
        self.state
    }

    /// The serialised elements appended so far.
    pub closed spec fn items(&self) -> Seq<Seq<u8>> {
        self.items@
    }

    /// The bytes handed out so far.
    pub closed spec fn emitted(&self) -> Seq<u8> {
        self.emitted@
    }

    /// How many elements the bytes handed out so far hold.
    pub closed spec fn flushed(&self) -> nat {
        self.flushed@
    }

    /// The bytes held back, not handed out yet.
    pub closed spec fn buffered(&self) -> Seq<u8> {
        self.buffer@
    }

    pub closed spec fn min_chunk(&self) -> usize {
        self.min_chunk
    }

    pub closed spec fn max_chunk(&self) -> usize {
        self.max_chunk
    }

    pub closed spec fn wf(&self) -> bool {
        &&& self.flushed@ <= self.items@.len()
        &&& match self.state {
            EncoderState::Start => self.items@.len() == 0 && self.emitted@.len() == 0
                && self.buffer@.len() == 0,
            EncoderState::InArray => self.items@.len() > 0
                && self.emitted@ + self.buffer@ == array_prefix(self.items@)
                && self.emitted@ == array_prefix(self.items@.take(self.flushed@ as int))
                && self.buffer@.len() <= self.min_chunk
                && (self.buffer@.len() <= self.max_chunk || self.buffer@.len() <= max_len(self.items@) + 2),
            EncoderState::AtEnd => self.emitted@ == json_array(self.items@)
                && self.buffer@.len() == 0 && self.flushed@ == self.items@.len(),
        }
    }

    fn take_buffer(&mut self) -> (chunk: Vec<u8>)
        ensures
            chunk@ == old(self).buffer@,
            final(self).buffer@.len() == 0,
            final(self).state == old(self).state,
            final(self).min_chunk == old(self).min_chunk,
            final(self).max_chunk == old(self).max_chunk,
            final(self).items == old(self).items,
            final(self).emitted@ == old(self).emitted@ + old(self).buffer@,
            final(self).flushed == old(self).flushed,
    {
        let mut chunk: Vec<u8> = Vec::with_capacity(self.max_chunk);
        std::mem::swap(&mut chunk, &mut self.buffer);
        self.emitted = Ghost(self.emitted@ + chunk@);
        chunk
    }
}

/// An encoder for one array, with the given chunk sizes.
pub fn stream_json_array(min_chunk: usize, max_chunk: usize) -> (s: JsonStream)
    ensures
        s.wf(),
        s.state() == EncoderState::Start,
        s.items().len() == 0,
        s.emitted().len() == 0,
        s.buffered().len() == 0,
        s.min_chunk() == min_chunk,
        s.max_chunk() == max_chunk,
{
    JsonStream {
        state: EncoderState::Start,
        buffer: Vec::with_capacity(max_chunk),
        min_chunk,
        max_chunk,
        items: Ghost(Seq::empty()),
        emitted: Ghost(Seq::empty()),
        flushed: Ghost(0),
    }
}

proof fn lemma_max_len_push(items: Seq<Seq<u8>>, x: Seq<u8>)
    ensures
        max_len(items.push(x)) >= max_len(items),
        max_len(items.push(x)) >= x.len(),
{
    assert(items.push(x).drop_last() =~= items);
}

proof fn lemma_joined_push(items: Seq<Seq<u8>>, x: Seq<u8>)
    requires
        items.len() > 0,
    ensures
        joined(items.push(x)) == joined(items) + seq![44u8, 10u8] + x,
{
    assert(items.push(x).drop_last() =~= items);
}

impl JsonStream {
    /// Appends one serialised element, and hands out the chunks that are
    /// due: first the buffer so far, where the element would take it past
    /// `max_chunk`; then the buffer with the element, where it now holds
    /// more than `min_chunk` bytes. So every chunk holds more than
    /// `min_chunk` bytes but one cut short to keep within `max_chunk`, and no
    /// chunk passes `max_chunk` but one that a single element (with the
    /// bytes before it) passes alone.
    #[verifier::rlimit(60)]
    pub fn push(&mut self, item: Vec<u8>) -> (chunks: Vec<Vec<u8>>)
        requires
            old(self).wf(),
            old(self).state() != EncoderState::AtEnd,
        ensures
            final(self).wf(),
            final(self).state() == EncoderState::InArray,
            final(self).items() == old(self).items().push(item@),
            final(self).min_chunk() == old(self).min_chunk(),
            final(self).max_chunk() == old(self).max_chunk(),
            final(self).emitted() == old(self).emitted() + concat_chunks(chunks@),
            final(self).flushed() <= final(self).items().len(),
            final(self).emitted() == array_prefix(final(self).items().take(final(self).flushed() as int)),
            forall|i: int| 0 <= i < chunks@.len() ==> (#[trigger] chunks@[i])@.len() > 0,
            chunks@.len() <= 2,
            forall|i: int| 0 <= i < chunks@.len() ==> (#[trigger] chunks@[i])@.len() > old(self).min_chunk()
                || (i == 0 && chunks@[i]@ == old(self).buffered()
                    && old(self).buffered().len() + sep_len(old(self).state()) + item@.len() > old(self).max_chunk()),
            forall|i: int| 0 <= i < chunks@.len() ==> (#[trigger] chunks@[i])@.len() <= old(self).max_chunk()
                || chunks@[i]@.len() <= max_len(final(self).items()) + 2,
            final(self).buffered().len() <= final(self).min_chunk(),
    {
        let ghost old_items = self.items@;
        let ghost new_items = old_items.push(item@);
        let mut chunks: Vec<Vec<u8>> = Vec::new();
        let sep: usize = if self.state == EncoderState::Start { 1 } else { 2 };
        let ghost old_buf = self.buffer@;
        proof { lemma_max_len_push(old_items, item@); }
        if self.buffer.len() > 0 && (self.buffer.len() >= self.max_chunk
            || self.max_chunk - self.buffer.len() < sep
            || self.max_chunk - self.buffer.len() - sep < item.len())
        {
            assert(old_buf.len() + sep_len(old(self).state) + item@.len() > self.max_chunk);
            let chunk = self.take_buffer();
            proof {
                self.flushed = Ghost(old_items.len());
                assert(old_items.take(old_items.len() as int) =~= old_items);
            }
            chunks.push(chunk);
        }
        let ghost before = chunks@;
        let ghost cut = before.len() == 1;
        assert(!cut ==> (old_buf.len() == 0 || old_buf.len() + sep_len(old(self).state) + item@.len() <= self.max_chunk));
        assert(cut ==> self.buffer@.len() == 0);
        assert(concat_chunks(before) == self.emitted@.subrange(old(self).emitted@.len() as int, self.emitted@.len() as int)
            && self.emitted@ == old(self).emitted@ + concat_chunks(before)) by {
            if before.len() == 1 {
                assert(before.drop_last() =~= Seq::<Vec<u8>>::empty());
                assert(concat_chunks(Seq::<Vec<u8>>::empty()) =~= Seq::<u8>::empty());
            } else {
                assert(before =~= Seq::<Vec<u8>>::empty());
            }
        }
        let ghost sum = self.emitted@ + self.buffer@;
        assert(self.state == EncoderState::InArray ==> sum =~= array_prefix(old_items));
        let mut item = item;
        if self.state == EncoderState::Start {
            self.buffer.push(91u8);
            assert(new_items.drop_last() =~= Seq::<Seq<u8>>::empty());
            assert(joined(new_items) == item@);
            assert(self.emitted@ + self.buffer@ =~= seq![91u8]);
        } else {
            self.buffer.push(44u8);
            self.buffer.push(10u8);
            proof { lemma_joined_push(old_items, item@); }
            assert(self.emitted@ + self.buffer@ =~= sum + seq![44u8, 10u8]);
        }
        let ghost item_bytes = item@;
        let ghost mid = self.emitted@ + self.buffer@;
        self.buffer.append(&mut item);
        assert(self.emitted@ + self.buffer@ =~= mid + item_bytes);
        proof {
            if old(self).state == EncoderState::Start {
                assert(mid + item_bytes =~= array_prefix(new_items));
            } else {
                assert(mid + item_bytes =~= seq![91u8] + (joined(old_items) + seq![44u8, 10u8] + item_bytes));
            }
        }
        self.items = Ghost(new_items);
        self.state = EncoderState::InArray;
        assert(self.emitted@ + self.buffer@ =~= array_prefix(new_items));
        assert(self.items@.take(self.flushed@ as int) =~= old_items.take(self.flushed@ as int));
        assert(self.buffer@.len() <= self.max_chunk || self.buffer@.len() <= max_len(new_items) + 2);
        if self.buffer.len() > self.min_chunk {
            let chunk = self.take_buffer();
            proof {
                self.flushed = Ghost(new_items.len());
                assert(new_items.take(new_items.len() as int) =~= new_items);
            }
            chunks.push(chunk);
            assert(chunks@.drop_last() =~= before);
            assert(self.emitted@ =~= old(self).emitted@ + concat_chunks(chunks@));
        }
        chunks
    }

    /// Closes the array once the upstream is exhausted and hands out the
    /// rest of it as the last chunk; `None` where it was closed already.
    pub fn finish(&mut self) -> (chunk: Option<Vec<u8>>)
        requires
            old(self).wf(),
        ensures
            final(self).wf(),
            final(self).state() == EncoderState::AtEnd,
            final(self).items() == old(self).items(),
            old(self).state() == EncoderState::AtEnd ==> chunk is None
                && final(self).emitted() == old(self).emitted(),
            old(self).state() != EncoderState::AtEnd ==> (chunk matches Some(c)
                && final(self).emitted() == old(self).emitted() + c@
                && c@.len() <= old(self).buffered().len() + 2),
            final(self).emitted() == json_array(final(self).items()),
    {
        if self.state == EncoderState::AtEnd {
            return None;
        }
        if self.state == EncoderState::Start {
            self.buffer.push(91u8);
        }
        self.buffer.push(93u8);
        let chunk = self.take_buffer();
        proof {
            self.flushed = Ghost(self.items@.len());
        }
        self.state = EncoderState::AtEnd;
        assert(self.emitted@ =~= json_array(self.items@));
        Some(chunk)
    }
}

/// With no element the encoder hands out `[]`.
pub proof fn lemma_empty_array()
    ensures
        json_array(Seq::<Seq<u8>>::empty()) == seq![91u8, 93u8],
{
    assert(json_array(Seq::<Seq<u8>>::empty()) =~= seq![91u8, 93u8]);
}

} // verus!
