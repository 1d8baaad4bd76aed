//! The cursor scan driver: turns "fetch the page at this cursor" into a
//! finite sequence of key batches, from cursor 0 until the store answers
//! with cursor 0.
use vstd::prelude::*;
use crate::reply::{Reply, StoreError, strings_view};
use crate::store::{ScanPage, decode_scan_page, scan_page_of};

verus! {

/// The cursor to fetch after a page that answered `next`: none once the
/// store has answered 0.
pub open spec fn scan_step(next: u64) -> Option<u64> {
    if next == 0 { None } else { Some(next) }
}

/// The state of one scan: the cursor whose page is to be fetched next, or
/// none once the scan has ended, by completion or by error.
pub struct ScanStream {
    pub pending: Option<u64>,
}

impl ScanStream {
    /// A scan that starts at cursor 0.
    pub fn new() -> (s: ScanStream)
        ensures
            s.pending == Some(0u64),
    {
        ScanStream { pending: Some(0) }
    }

    /// The cursor to fetch next; none once the scan has ended.
    pub fn next_cursor(&self) -> (r: Option<u64>)
        ensures
            r == self.pending,
    {
        self.pending
    }

    /// Takes the page fetched at the pending cursor and hands out its batch.
    pub fn on_page(&mut self, page: ScanPage) -> (batch: Vec<String>)
        requires
            old(self).pending is Some,
        ensures
            final(self).pending == scan_step(page.cursor),
            batch == page.keys,
    {
        if page.cursor == 0 {
            self.pending = None;
        } else {
            self.pending = Some(page.cursor);
        }
        page.keys
    }

    /// Takes the outcome of the fetch at the pending cursor. A decoded page
    /// hands out its batch; a failed fetch or a reply of the wrong shape
    /// ends the scan with that error. Batches handed out before stay valid.
    pub fn on_reply(&mut self, reply: Result<Reply, StoreError>) -> (r: Result<Vec<String>, StoreError>)
        requires
            old(self).pending is Some,
        ensures
            reply matches Err(e0) ==> r matches Err(e) && e == e0 && final(self).pending is None,
            reply matches Ok(rep) ==> match scan_page_of(rep) {
                Some((c, keys)) => r matches Ok(b) && strings_view(b@) == keys
                    && final(self).pending == scan_step(c),
                None => r matches Err(e) && e is Shape && final(self).pending is None,
            },
    {
        match reply {
            Ok(rep) => match decode_scan_page(rep) {
                Ok(page) => Ok(self.on_page(page)),
                Err(e) => {
                    self.pending = None;
                    Err(e)
                },
            },
            Err(e) => {
                self.pending = None;
                Err(e)
            },
        }
    }
}

/// The batches that a scan hands out when the store answers the i-th fetch
/// with `pages[i]` (next cursor, batch): it fetches while a cursor is
/// pending.
pub open spec fn scan_run(pending: Option<u64>, pages: Seq<(u64, Seq<Seq<char>>)>) -> Seq<Seq<Seq<char>>>
    decreases pages.len(),
{
    if pages.len() == 0 || pending is None {
        seq![]
    } else {
        seq![pages[0].1] + scan_run(scan_step(pages[0].0), pages.drop_first())
    }
}

/// A store's paging of a key space: every page but the last gives a
/// non-zero cursor to continue from, and the last gives 0.
pub open spec fn complete_paging(pages: Seq<(u64, Seq<Seq<char>>)>) -> bool {
    &&& pages.len() > 0
    &&& pages.last().0 == 0
    &&& forall|i: int| 0 <= i < pages.len() - 1 ==> (#[trigger] pages[i]).0 != 0
}

/// The keys of a sequence of batches, in order.
pub open spec fn flatten_batches(b: Seq<Seq<Seq<char>>>) -> Seq<Seq<char>>
    decreases b.len(),
{
    if b.len() == 0 { seq![] } else { b[0] + flatten_batches(b.drop_first()) }
}

/// A scan started at cursor 0 on a store that pages its key space as
/// `pages` hands out exactly one batch per page, in order, and fetches
/// nothing after the page that ends the scan (`later` is never read). So the
/// keys handed out are, with their multiplicities, the keys of all pages.
pub proof fn lemma_scan_yields_every_page(
    pages: Seq<(u64, Seq<Seq<char>>)>,
    later: Seq<(u64, Seq<Seq<char>>)>,
)
    requires
        complete_paging(pages),
    ensures
        scan_run(Some(0u64), pages + later) == Seq::new(pages.len(), |i: int| pages[i].1),
        scan_run(Some(0u64), pages + later).len() == pages.len(),
        flatten_batches(scan_run(Some(0u64), pages + later)).to_multiset()
            == flatten_batches(Seq::new(pages.len(), |i: int| pages[i].1)).to_multiset(),
{
    lemma_scan_run_from(Some(0u64), pages, later);
}

proof fn lemma_scan_run_from(
    pending: Option<u64>,
    pages: Seq<(u64, Seq<Seq<char>>)>,
    later: Seq<(u64, Seq<Seq<char>>)>,
)
    requires
        pending is Some,
        complete_paging(pages),
    ensures
        scan_run(pending, pages + later) == Seq::new(pages.len(), |i: int| pages[i].1),
    decreases pages.len(),
{
    let all = pages + later;
    assert(all[0] == pages[0]);
    if pages.len() == 1 {
        assert(scan_run(scan_step(pages[0].0), all.drop_first()) == Seq::<Seq<Seq<char>>>::empty());
        assert(scan_run(pending, all) =~= Seq::new(pages.len(), |i: int| pages[i].1));
    } else {
        let rest = pages.drop_first();
        assert(pages[0].0 != 0);
        assert forall|i: int| 0 <= i < rest.len() - 1 implies (#[trigger] rest[i]).0 != 0 by {
            assert(rest[i] == pages[i + 1]);
        }
        lemma_scan_run_from(scan_step(pages[0].0), rest, later);
        assert(all.drop_first() =~= rest + later);
        assert(scan_run(pending, all) =~= Seq::new(pages.len(), |i: int| pages[i].1));
    }
}

} // verus!
