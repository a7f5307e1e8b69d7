//! The buffer pool manager.
//!
//! The pool owns the frames and the pages in them, the page table and the
//! eviction policy. It never talks to the page store itself. An operation
//! that needs the store answers with the request to make ([`Step::Flush`],
//! [`Step::Load`]); the caller makes it, reports the store's answer with
//! [`Bufferpool::flushed`] or [`Bufferpool::loaded`], and calls the operation
//! again. Every call leaves the pool in a consistent state, so a failed
//! request simply ends the exchange.

use vstd::prelude::*;
use crate::codec::{decode_bytes, encode_values};
use crate::error::{PoolError, StoreError};
use crate::page::{page_of, slot_of, Page, PageId, PageView};
use crate::policy::EvictionPolicy;
use crate::table::PageTable;

verus! {

/// A page image that must be written to the page store.
#[derive(Debug, PartialEq, Eq)]
pub struct WriteRequest {
    /// The page to write.
    pub page_id: PageId,
    /// Its on-disk image.
    pub bytes: [u8; 4096],
}

/// What an operation of the pool answers.
#[derive(Debug, PartialEq, Eq)]
pub enum Step<T> {
    /// The operation is complete, with this result.
    Done(T),
    /// A dirty page stands in the way: write it to the store, report the
    /// outcome with `flushed`, and call again.
    Flush(WriteRequest),
    /// A frame is free for this page: read it from the store, report the
    /// outcome with `loaded`, and call again.
    Load(PageId),
}

/// The pool as a mathematical value.
pub struct PoolView<M> {
    /// The resident pages, by id.
    pub pages: Map<PageId, PageView>,
    /// The state of the eviction policy.
    pub policy: M,
    /// The greatest number of pages that may be resident.
    pub limit: nat,
    /// The id that the next created page gets.
    pub next_id: PageId,
}

impl<M> PoolView<M> {
    /// The number of resident pages.
    pub open spec fn resident(self) -> nat {
        self.pages.dom().len()
    }

    /// The pool with page `page_id` replaced by `page`.
    pub open spec fn with_page(self, page_id: PageId, page: PageView) -> PoolView<M> {
        PoolView { pages: self.pages.insert(page_id, page), ..self }
    }

    /// The pool with capacity `limit`.
    pub open spec fn with_limit(self, limit: nat) -> PoolView<M> {
        PoolView { limit, ..self }
    }
}

/// The resident pages that nobody holds.
pub open spec fn idle_pages(pages: Map<PageId, PageView>) -> Set<PageId> {
    Set::new(|page_id: PageId| pages.contains_key(page_id) && pages[page_id].pin_count == 0)
}

/// The buffer of a page that was created and never written: 512 zeros.
pub open spec fn blank_values() -> Seq<i64> {
    Seq::new(512, |i: int| 0i64)
}

/// The id for the next created page once page `page_id` has been seen:
/// greater than every id seen so far, as far as `usize` reaches.
pub open spec fn bump(next_id: PageId, page_id: PageId) -> PageId {
    if page_id < next_id {
        next_id
    } else if page_id < usize::MAX {
        (page_id + 1) as usize
    } else {
        usize::MAX
    }
}

/// What holds of the pool between any two operations.
pub open spec fn pool_inv<P: EvictionPolicy>(v: PoolView<P::V>) -> bool {
    &&& v.pages.dom().finite()
    &&& v.resident() <= v.limit <= usize::MAX
    &&& forall|page_id: PageId| #[trigger]
        v.pages.contains_key(page_id) ==> {
            &&& v.pages[page_id].id == page_id
            &&& v.pages[page_id].values is Some
            &&& v.pages[page_id].values->0.len() == 512
            &&& v.pages[page_id].pin_count <= usize::MAX
            &&& (page_id < v.next_id || v.next_id == usize::MAX)
        }
    &&& P::inv(v.policy)
    &&& P::known(v.policy) == v.pages.dom()
    &&& P::evictable(v.policy) == idle_pages(v.pages)
}

/// The pool after a fetch found page `page_id` resident: one more holder,
/// and the policy has noted the use.
pub open spec fn hit<P: EvictionPolicy>(v: PoolView<P::V>, page_id: PageId) -> PoolView<P::V> {
    PoolView {
        pages: v.pages.insert(page_id, v.pages[page_id].pinned()),
        policy: P::accessed(v.policy, page_id),
        ..v
    }
}

/// The pool after page `page_id` gave up its frame.
pub open spec fn evicted<P: EvictionPolicy>(v: PoolView<P::V>, page_id: PageId) -> PoolView<P::V> {
    PoolView { pages: v.pages.remove(page_id), policy: P::removed(v.policy, page_id), ..v }
}

/// The pool after `page` took a free frame: it is the most recently used
/// page, and may be reclaimed exactly if nobody holds it.
pub open spec fn admitted<P: EvictionPolicy>(v: PoolView<P::V>, page: PageView) -> PoolView<P::V> {
    PoolView {
        pages: v.pages.insert(page.id, page),
        policy: if page.pin_count == 0 {
            P::released(P::accessed(v.policy, page.id), page.id)
        } else {
            P::accessed(v.policy, page.id)
        },
        next_id: bump(v.next_id, page.id),
        ..v
    }
}

/// The pool after one holder of page `page_id` let go, saying whether it
/// modified the page.
pub open spec fn unpinned<P: EvictionPolicy>(
    v: PoolView<P::V>,
    page_id: PageId,
    is_dirty: bool,
) -> PoolView<P::V> {
    let page = v.pages[page_id].unpinned().soiled(is_dirty);
    PoolView {
        pages: v.pages.insert(page_id, page),
        policy: if page.pin_count == 0 {
            P::released(v.policy, page_id)
        } else {
            v.policy
        },
        ..v
    }
}

/// The pool after a use of page `page_id` that takes no hold of it.
pub open spec fn touched<P: EvictionPolicy>(v: PoolView<P::V>, page_id: PageId) -> PoolView<P::V> {
    PoolView {
        policy: if v.pages[page_id].pin_count == 0 {
            P::released(P::accessed(v.policy, page_id), page_id)
        } else {
            P::accessed(v.policy, page_id)
        },
        ..v
    }
}

/// A page as `create_page` makes it: an empty buffer, clean, held once.
pub open spec fn created_page(page_id: PageId) -> PageView {
    PageView::fresh(page_id).opened(blank_values()).pinned()
}

/// A page as `loaded` brings it in: the values read, clean, held by nobody.
pub open spec fn loaded_page(page_id: PageId, values: Seq<i64>) -> PageView {
    PageView::fresh(page_id).opened(values)
}

/// The answer `Ok(())` or the failure `e`.
pub open spec fn outcome_of(failure: Option<PoolError>) -> Result<(), PoolError> {
    match failure {
        Some(e) => Err(e),
        None => Ok(()),
    }
}

/// `step` asks that the image of the resident page `page_id` be written.
pub open spec fn asks_flush<T, M>(
    step: Result<Step<T>, PoolError>,
    v: PoolView<M>,
    page_id: PageId,
) -> bool {
    step matches Ok(Step::Flush(request)) && request.page_id == page_id && request.bytes@
        == encode_values(v.pages[page_id].values->0)
}

/// The pool after it was asked for a free frame: a clean victim has given
/// way; in every other case nothing changed.
pub open spec fn after_room<P: EvictionPolicy>(v: PoolView<P::V>) -> PoolView<P::V> {
    match room_plan::<P>(v) {
        Plan::Reclaim(victim) => evicted::<P>(v, victim),
        _ => v,
    }
}

/// The pool after `fetch`.
pub open spec fn after_fetch<P: EvictionPolicy>(v: PoolView<P::V>, page_id: PageId) -> PoolView<
    P::V,
> {
    if v.pages.contains_key(page_id) {
        hit::<P>(v, page_id)
    } else {
        after_room::<P>(v)
    }
}

/// The pool after `create_page`.
pub open spec fn after_create<P: EvictionPolicy>(v: PoolView<P::V>) -> PoolView<P::V> {
    match room_plan::<P>(v) {
        Plan::Admit | Plan::Reclaim(_) => admitted::<P>(
            after_room::<P>(v),
            created_page(v.next_id),
        ),
        _ => v,
    }
}

/// The pool after `insert`.
pub open spec fn after_insert<P: EvictionPolicy>(
    v: PoolView<P::V>,
    index: usize,
    value: i64,
) -> PoolView<P::V> {
    let page_id = (index / 512) as usize;
    if v.pages.contains_key(page_id) {
        touched::<P>(
            v.with_page(page_id, v.pages[page_id].written((index % 512) as int, value)),
            page_id,
        )
    } else {
        after_room::<P>(v)
    }
}

/// The failure that `loaded` reports, if any: what the store said when the
/// read failed, and `PoolExhausted` when the page has no frame to go to.
pub open spec fn loaded_error<M>(
    v: PoolView<M>,
    page_id: PageId,
    outcome: Result<[u8; 4096], StoreError>,
) -> Option<PoolError> {
    match outcome {
        Err(StoreError::NotFound) => Some(PoolError::NotFound),
        Err(StoreError::Io) => Some(PoolError::IoError),
        Ok(_) => if !v.pages.contains_key(page_id) && v.resident() >= v.limit {
            Some(PoolError::PoolExhausted)
        } else {
            None
        },
    }
}

/// The pool after `loaded`: the page read is taken in unless the read
/// failed, the page is resident already, or there is no free frame.
pub open spec fn after_loaded<P: EvictionPolicy>(
    v: PoolView<P::V>,
    page_id: PageId,
    outcome: Result<[u8; 4096], StoreError>,
) -> PoolView<P::V> {
    match outcome {
        Ok(bytes) => if !v.pages.contains_key(page_id) && v.resident() < v.limit {
            admitted::<P>(v, loaded_page(page_id, decode_bytes(bytes@)))
        } else {
            v
        },
        Err(_) => v,
    }
}

/// The failure that `unpin` reports, if any.
pub open spec fn unpin_error<M>(v: PoolView<M>, page_id: PageId) -> Option<PoolError> {
    if !v.pages.contains_key(page_id) {
        Some(PoolError::NotResident)
    } else if v.pages[page_id].pin_count == 0 {
        Some(PoolError::UnderflowPin)
    } else {
        None
    }
}

/// The pool after `unpin`.
pub open spec fn after_unpin<P: EvictionPolicy>(
    v: PoolView<P::V>,
    page_id: PageId,
    is_dirty: bool,
) -> PoolView<P::V> {
    if unpin_error(v, page_id) is None {
        unpinned::<P>(v, page_id, is_dirty)
    } else {
        v
    }
}

/// The failure that a read or a write of slot `slot` of page `page_id`
/// reports, if any.
pub open spec fn slot_error<M>(v: PoolView<M>, page_id: PageId, slot: usize) -> Option<PoolError> {
    if !v.pages.contains_key(page_id) {
        Some(PoolError::NotResident)
    } else if slot >= 512 {
        Some(PoolError::OutOfRange)
    } else {
        None
    }
}

/// The pool after `set_value`.
pub open spec fn after_set_value<M>(
    v: PoolView<M>,
    page_id: PageId,
    slot: usize,
    value: i64,
) -> PoolView<M> {
    if slot_error(v, page_id, slot) is None {
        v.with_page(page_id, v.pages[page_id].written(slot as int, value))
    } else {
        v
    }
}

/// The pool after `set_all_values`.
pub open spec fn after_set_all_values<M>(
    v: PoolView<M>,
    page_id: PageId,
    input: [i64; 512],
) -> PoolView<M> {
    if v.pages.contains_key(page_id) {
        v.with_page(page_id, v.pages[page_id].overwritten(input@))
    } else {
        v
    }
}

/// The pool after `set_page_limit`.
pub open spec fn after_set_page_limit<M>(v: PoolView<M>, limit: usize) -> PoolView<M> {
    if v.resident() <= limit {
        v.with_limit(limit as nat)
    } else {
        v
    }
}

/// The failure that `flushed` reports for the store's answer `outcome` to a
/// write of page `page_id`, if any: a failed write is an `IoError`, and a
/// page that is not resident cannot be marked clean.
pub open spec fn flushed_error<M>(
    v: PoolView<M>,
    page_id: PageId,
    outcome: Result<(), StoreError>,
) -> Option<PoolError> {
    if outcome is Err {
        Some(PoolError::IoError)
    } else if !v.pages.contains_key(page_id) {
        Some(PoolError::NotResident)
    } else {
        None
    }
}

/// The pool after `flushed`: the page is clean if the write went through,
/// and nothing changes if it did not.
pub open spec fn after_flushed<M>(
    v: PoolView<M>,
    page_id: PageId,
    outcome: Result<(), StoreError>,
) -> PoolView<M> {
    if flushed_error(v, page_id, outcome) is None {
        v.with_page(page_id, v.pages[page_id].cleaned())
    } else {
        v
    }
}

/// The pool after each of `outcomes` was reported in turn.
pub open spec fn after_flushed_all<M>(
    v: PoolView<M>,
    outcomes: Seq<(PageId, Result<(), StoreError>)>,
) -> PoolView<M>
    decreases outcomes.len(),
{
    if outcomes.len() == 0 {
        v
    } else {
        after_flushed(
            after_flushed_all(v, outcomes.drop_last()),
            outcomes.last().0,
            outcomes.last().1,
        )
    }
}

/// The failures among `outcomes`, each with its page, in the order reported.
pub open spec fn flush_failures<M>(
    v: PoolView<M>,
    outcomes: Seq<(PageId, Result<(), StoreError>)>,
) -> Seq<(PageId, PoolError)>
    decreases outcomes.len(),
{
    if outcomes.len() == 0 {
        Seq::empty()
    } else {
        let earlier = flush_failures(v, outcomes.drop_last());
        match flushed_error(
            after_flushed_all(v, outcomes.drop_last()),
            outcomes.last().0,
            outcomes.last().1,
        ) {
            Some(e) => earlier.push((outcomes.last().0, e)),
            None => earlier,
        }
    }
}

/// How the pool gets a free frame.
pub enum Plan {
    /// The page asked for is resident.
    Hit,
    /// The pool is not full.
    Admit,
    /// The policy's victim is clean and gives up its frame.
    Reclaim(PageId),
    /// The policy's victim is dirty and must first be written out.
    Flush(PageId),
    /// The pool is full and every page is held.
    Exhausted,
}

/// How the pool gets a free frame: none is needed below capacity; at
/// capacity the policy's victim gives way, after a flush if it is dirty.
pub open spec fn room_plan<P: EvictionPolicy>(v: PoolView<P::V>) -> Plan {
    if v.resident() < v.limit {
        Plan::Admit
    } else {
        match P::victim(v.policy) {
            None => Plan::Exhausted,
            Some(victim) => if v.pages[victim].dirty {
                Plan::Flush(victim)
            } else {
                Plan::Reclaim(victim)
            },
        }
    }
}

/// How the pool serves a request for page `page_id`.
pub open spec fn fetch_plan<P: EvictionPolicy>(v: PoolView<P::V>, page_id: PageId) -> Plan {
    if v.pages.contains_key(page_id) {
        Plan::Hit
    } else {
        room_plan::<P>(v)
    }
}

/// A fixed number of frames, the pages in them, the page table and the
/// eviction policy `P`.
pub struct Bufferpool<P: EvictionPolicy> {
    frames: Vec<Page>,
    table: PageTable,
    policy: P,
    page_index: PageId,
    page_limit: usize,
}

impl<P: EvictionPolicy> Bufferpool<P> {
    /// The pool as a mathematical value.
    pub closed spec fn view(&self) -> PoolView<P::V> {
        PoolView {
            pages: Map::new(
                |page_id: PageId| self.table@.contains_key(page_id),
                |page_id: PageId| self.frames[self.table@[page_id] as int]@,
            ),
            policy: self.policy@,
            limit: self.page_limit as nat,
            next_id: self.page_index,
        }
    }

    /// The frames, the table and the policy agree with each other.
    pub closed spec fn wf(&self) -> bool {
        &&& self.frames.len() <= self.page_limit
        &&& self.table@.dom().len() == self.frames.len()
        &&& forall|f: int|
            0 <= f < self.frames.len() ==> {
                &&& self.table@.contains_key((#[trigger] self.frames[f])@.id)
                &&& self.table@[self.frames[f]@.id] == f
                &&& self.frames[f]@.values is Some
            }
        &&& forall|page_id: PageId| #[trigger]
            self.table@.contains_key(page_id) ==> {
                &&& self.table@[page_id] < self.frames.len()
                &&& self.frames[self.table@[page_id] as int]@.id == page_id
                &&& (page_id < self.page_index || self.page_index == usize::MAX)
            }
        &&& P::inv(self.policy@)
        &&& P::known(self.policy@) == self.table@.dom()
        &&& P::evictable(self.policy@) == idle_pages(self@.pages)
    }

    /// A consistent pool satisfies the pool invariant: in particular it
    /// never holds more pages than its capacity.
    pub proof fn lemma_wf(&self)
        requires
            self.wf(),
        ensures
            pool_inv::<P>(self@),
    {
        self.table.lemma_finite();
        assert(self@.pages.dom() =~= self.table@.dom());
        assert forall|page_id: PageId| #[trigger]
            self@.pages.contains_key(page_id) implies self@.pages[page_id].values->0.len() == 512
            && self@.pages[page_id].pin_count <= usize::MAX by {
            self.frames[self.table@[page_id] as int].lemma_view_bounds();
        }
    }

    /// An empty pool of capacity zero; set the capacity before first use.
    pub fn new() -> (pool: Self)
        ensures
            pool.wf(),
            pool@ == (PoolView::<P::V> {
                pages: Map::empty(),
                policy: P::empty(),
                limit: 0,
                next_id: 0,
            }),
    {
        let pool = Bufferpool {
            frames: Vec::new(),
            table: PageTable::new(),
            policy: P::new(),
            page_index: 0,
            page_limit: 0,
        };
        proof {
            P::law_empty();
            assert(pool@.pages =~= Map::<PageId, PageView>::empty());
            assert(idle_pages(pool@.pages) =~= Set::<PageId>::empty());
            assert(pool.table@.dom() =~= Set::<PageId>::empty());
        }
        pool
    }

    /// Sets the capacity to `limit` frames. Fails with `CapacityViolation`,
    /// and changes nothing, exactly when more than `limit` pages are resident.
    pub fn set_page_limit(&mut self, limit: usize) -> (done: Result<(), PoolError>)
        requires
            old(self).wf(),
        ensures
            final(self).wf(),
            final(self)@ == after_set_page_limit(old(self)@, limit),
            done == (if old(self)@.resident() <= limit {
                Ok::<(), PoolError>(())
            } else {
                Err(PoolError::CapacityViolation)
            }),
    {
        proof {
            self.lemma_wf();
        }
        if limit < self.frames.len() {
            return Err(PoolError::CapacityViolation);
        }
        self.page_limit = limit;
        proof {
            assert(self@.pages =~= old(self)@.pages);
        }
        Ok(())
    }

    /// The capacity, in frames.
    pub fn page_limit(&self) -> (limit: usize)
        ensures
            limit == self@.limit,
    {
        self.page_limit
    }

    /// The id that the next created page gets.
    pub fn next_page_id(&self) -> (page_id: PageId)
        ensures
            page_id == self@.next_id,
    {
        self.page_index
    }

    /// The number of resident pages.
    pub fn size(&self) -> (count: usize)
        requires
            self.wf(),
        ensures
            count == self@.resident(),
            count <= self@.limit,
    {
        proof {
            self.lemma_wf();
        }
        self.frames.len()
    }

    /// Whether no page is resident.
    pub fn empty(&self) -> (none: bool)
        requires
            self.wf(),
        ensures
            none == (self@.resident() == 0),
    {
        self.size() == 0
    }

    /// Whether every frame is taken.
    pub fn full(&self) -> (all: bool)
        requires
            self.wf(),
        ensures
            all == (self@.resident() >= self@.limit),
    {
        self.size() >= self.page_limit
    }

    /// The frame of page `page_id`, if it is resident.
    fn frame_of(&self, page_id: PageId) -> (frame: Option<usize>)
        requires
            self.wf(),
        ensures
            match frame {
                Some(f) => self@.pages.contains_key(page_id) && f < self.frames.len()
                    && self.frames[f as int]@ == self@.pages[page_id] && self.table@[page_id] == f,
                None => !self@.pages.contains_key(page_id),
            },
    {
        self.table.lookup(page_id)
    }

    /// Whether page `page_id` is resident.
    pub fn is_resident(&self, page_id: PageId) -> (resident: bool)
        requires
            self.wf(),
        ensures
            resident == self@.pages.contains_key(page_id),
    {
        self.frame_of(page_id).is_some()
    }

    /// The resident page `page_id`, to look at.
    pub fn page(&self, page_id: PageId) -> (page: Option<&Page>)
        requires
            self.wf(),
        ensures
            match page {
                Some(p) => self@.pages.contains_key(page_id) && p@ == self@.pages[page_id],
                None => !self@.pages.contains_key(page_id),
            },
    {
        match self.frame_of(page_id) {
            Some(f) => Some(&self.frames[f]),
            None => None,
        }
    }
}

impl<P: EvictionPolicy> Bufferpool<P> {
    /// Takes page `page_id`, which nobody holds, out of its frame. The last
    /// frame moves into the gap, so the frames stay dense.
    fn evict(&mut self, page_id: PageId)
        requires
            old(self).wf(),
            old(self)@.pages.contains_key(page_id),
            old(self)@.pages[page_id].pin_count == 0,
        ensures
            final(self).wf(),
            final(self)@ == evicted::<P>(old(self)@, page_id),
    {
        let ghost before = *self;
        proof {
            self.table.lemma_finite();
            P::law_removed(self.policy@, page_id);
        }
        let frame = match self.table.lookup(page_id) {
            Some(f) => f,
            None => {
                proof {
                    assert(false);
                }
                return ;
            },
        };
        let last = self.frames.len() - 1;
        let moved = self.frames[last].id();
        self.frames.swap_remove(frame);
        self.table.remove(page_id);
        if frame != last {
            self.table.insert(moved, frame);
        }
        self.policy.remove(page_id);
        proof {
            assert(before.frames[frame as int]@.id == page_id);
            assert(before.frames[last as int]@.id == moved);
            assert(self.table@.dom() =~= before.table@.dom().remove(page_id));
            assert forall|f: int| 0 <= f < self.frames.len() implies {
                &&& self.table@.contains_key((#[trigger] self.frames[f])@.id)
                &&& self.table@[self.frames[f]@.id] == f
                &&& self.frames[f]@.values is Some
            } by {
                if f == frame {
                    assert(self.frames[f] == before.frames[last as int]);
                } else {
                    assert(self.frames[f] == before.frames[f]);
                }
            }
            assert forall|q: PageId| #[trigger] self.table@.contains_key(q) implies {
                &&& self.table@[q] < self.frames.len()
                &&& self.frames[self.table@[q] as int]@ == before.frames[before.table@[q] as int]@
            } by {
                assert(before.table@.contains_key(q));
                if q == moved {
                } else {
                    assert(before.table@[q] != last);
                }
            }
            assert(self@.pages =~= before@.pages.remove(page_id));
            assert(idle_pages(self@.pages) =~= idle_pages(before@.pages).remove(page_id));
        }
    }

    /// Puts `page` into a free frame.
    fn install(&mut self, page: Page)
        requires
            old(self).wf(),
            !old(self)@.pages.contains_key(page@.id),
            old(self)@.resident() < old(self)@.limit,
            page@.values is Some,
        ensures
            final(self).wf(),
            final(self)@ == admitted::<P>(old(self)@, page@),
    {
        let ghost before = *self;
        let page_id = page.id();
        let idle = page.pin_count() == 0;
        proof {
            self.table.lemma_finite();
            self.lemma_wf();
            P::law_accessed(self.policy@, page_id);
            P::law_released(P::accessed(self.policy@, page_id), page_id);
        }
        let frame = self.frames.len();
        self.frames.push(page);
        self.table.insert(page_id, frame);
        self.policy.record_access(page_id);
        if idle {
            self.policy.release(page_id);
        }
        if page_id >= self.page_index {
            if page_id < usize::MAX {
                self.page_index = page_id + 1;
            } else {
                self.page_index = usize::MAX;
            }
        }
        proof {
            assert(self.table@.dom() =~= before.table@.dom().insert(page_id));
            assert forall|f: int| 0 <= f < self.frames.len() implies {
                &&& self.table@.contains_key((#[trigger] self.frames[f])@.id)
                &&& self.table@[self.frames[f]@.id] == f
                &&& self.frames[f]@.values is Some
            } by {
                if f < frame {
                    assert(self.frames[f] == before.frames[f]);
                }
            }
            assert(self@.pages =~= before@.pages.insert(page_id, page@));
            if idle {
                assert(idle_pages(self@.pages) =~= idle_pages(before@.pages).insert(page_id));
            } else {
                assert(idle_pages(self@.pages) =~= idle_pages(before@.pages).remove(page_id));
            }
            assert(P::known(self.policy@) =~= self.table@.dom());
            assert(P::evictable(self.policy@) =~= idle_pages(self@.pages));
        }
    }

    /// Frees a frame if the pool is full: the policy's victim gives way.
    /// Answers with the write to make first if the victim is dirty.
    fn make_room(&mut self) -> (room: Result<Option<WriteRequest>, PoolError>)
        requires
            old(self).wf(),
        ensures
            final(self).wf(),
            final(self)@ == after_room::<P>(old(self)@),
            match room_plan::<P>(old(self)@) {
                Plan::Hit => false,
                Plan::Admit | Plan::Reclaim(_) => room == Ok::<Option<WriteRequest>, PoolError>(
                    None,
                ) && final(self)@.resident() < final(self)@.limit,
                Plan::Flush(victim) => room matches Ok(Some(request)) && request.page_id == victim
                    && request.bytes@ == encode_values(old(self)@.pages[victim].values->0),
                Plan::Exhausted => room == Err::<Option<WriteRequest>, PoolError>(
                    PoolError::PoolExhausted,
                ),
            },
    {
        proof {
            self.lemma_wf();
            self.table.lemma_finite();
            P::law_victim(self.policy@);
        }
        if self.frames.len() < self.page_limit {
            return Ok(None);
        }
        let victim = match self.policy.select_victim() {
            Ok(page_id) => page_id,
            Err(_) => {
                return Err(PoolError::PoolExhausted);
            },
        };
        let frame = match self.frame_of(victim) {
            Some(f) => f,
            None => {
                proof {
                    assert(false);
                }
                return Err(PoolError::PoolExhausted);
            },
        };
        if self.frames[frame].is_dirty() {
            match self.frames[frame].serialize() {
                Ok(bytes) => Ok(Some(WriteRequest { page_id: victim, bytes })),
                Err(_) => {
                    proof {
                        assert(false);
                    }
                    Err(PoolError::PoolExhausted)
                },
            }
        } else {
            self.evict(victim);
            proof {
                self.lemma_wf();
            }
            Ok(None)
        }
    }

    /// Asks for page `page_id`, pinned.
    ///
    /// Resident: the policy notes the use, the pin count goes up by one, and
    /// the answer is `Done(page_id)`. Not resident: below capacity the answer
    /// is `Load(page_id)`; at capacity the policy's victim gives way first
    /// (`Flush` with its image while it is dirty; once clean it is evicted
    /// and the answer is `Load(page_id)`), and without a victim the call
    /// fails with `PoolExhausted`.
    pub fn fetch(&mut self, page_id: PageId) -> (step: Result<Step<PageId>, PoolError>)
        requires
            old(self).wf(),
            old(self)@.pages.contains_key(page_id) ==> old(self)@.pages[page_id].pin_count
                < usize::MAX,
        ensures
            final(self).wf(),
            final(self)@ == after_fetch::<P>(old(self)@, page_id),
            match fetch_plan::<P>(old(self)@, page_id) {
                Plan::Hit => step == Ok::<Step<PageId>, PoolError>(Step::Done(page_id)),
                Plan::Admit | Plan::Reclaim(_) => step == Ok::<Step<PageId>, PoolError>(
                    Step::Load(page_id),
                ),
                Plan::Flush(victim) => asks_flush(step, old(self)@, victim),
                Plan::Exhausted => step == Err::<Step<PageId>, PoolError>(PoolError::PoolExhausted),
            },
    {
        let ghost before = *self;
        match self.frame_of(page_id) {
            Some(frame) => {
                proof {
                    P::law_accessed(self.policy@, page_id);
                }
                self.policy.record_access(page_id);
                self.frames[frame].pin();
                proof {
                    assert forall|f: int| 0 <= f < self.frames.len() implies {
                        &&& self.table@.contains_key((#[trigger] self.frames[f])@.id)
                        &&& self.table@[self.frames[f]@.id] == f
                        &&& self.frames[f]@.values is Some
                    } by {
                        if f != frame {
                            assert(self.frames[f] == before.frames[f]);
                        }
                    }
                    assert(self@.pages =~= before@.pages.insert(
                        page_id,
                        before@.pages[page_id].pinned(),
                    ));
                    assert(idle_pages(self@.pages) =~= idle_pages(before@.pages).remove(page_id));
                    assert(P::known(self.policy@) =~= self.table@.dom());
                    assert(P::evictable(self.policy@) =~= idle_pages(self@.pages));
                }
                Ok(Step::Done(page_id))
            },
            None => {
                match self.make_room() {
                    Ok(None) => Ok(Step::Load(page_id)),
                    Ok(Some(request)) => Ok(Step::Flush(request)),
                    Err(e) => Err(e),
                }
            },
        }
    }

    /// Lets go of one hold on page `page_id`; `is_dirty` says whether the
    /// holder modified the page, and is or-ed into its dirty flag. Fails with
    /// `NotResident` when the page is not resident, else with `UnderflowPin`
    /// when nobody holds it; a failed call changes nothing.
    pub fn unpin(&mut self, page_id: PageId, is_dirty: bool) -> (done: Result<(), PoolError>)
        requires
            old(self).wf(),
        ensures
            final(self).wf(),
            final(self)@ == after_unpin::<P>(old(self)@, page_id, is_dirty),
            done == outcome_of(unpin_error(old(self)@, page_id)),
    {
        let ghost before = *self;
        let frame = match self.frame_of(page_id) {
            Some(f) => f,
            None => {
                return Err(PoolError::NotResident);
            },
        };
        if self.frames[frame].pin_count() == 0 {
            return Err(PoolError::UnderflowPin);
        }
        let _ = self.frames[frame].unpin();
        self.frames[frame].mark_dirty(is_dirty);
        let idle = self.frames[frame].pin_count() == 0;
        proof {
            P::law_released(self.policy@, page_id);
        }
        if idle {
            self.policy.release(page_id);
        }
        proof {
            assert forall|f: int| 0 <= f < self.frames.len() implies {
                &&& self.table@.contains_key((#[trigger] self.frames[f])@.id)
                &&& self.table@[self.frames[f]@.id] == f
                &&& self.frames[f]@.values is Some
            } by {
                if f != frame {
                    assert(self.frames[f] == before.frames[f]);
                }
            }
            assert(self@.pages =~= before@.pages.insert(
                page_id,
                before@.pages[page_id].unpinned().soiled(is_dirty),
            ));
            if idle {
                assert(idle_pages(self@.pages) =~= idle_pages(before@.pages).insert(page_id));
            } else {
                assert(idle_pages(self@.pages) =~= idle_pages(before@.pages));
            }
        }
        Ok(())
    }
}

impl<P: EvictionPolicy> Bufferpool<P> {
    /// Makes a new page, pinned, under the next unused id. The page starts
    /// with an empty buffer and is never read from the store.
    ///
    /// Below capacity, or once the policy's clean victim has given way, the
    /// answer is `Done` with the new id. While the victim is dirty the answer
    /// is `Flush` with its image and nothing changes; without a victim the
    /// call fails with `PoolExhausted`.
    pub fn create_page(&mut self) -> (step: Result<Step<PageId>, PoolError>)
        requires
            old(self).wf(),
            old(self)@.next_id < usize::MAX,
        ensures
            final(self).wf(),
            final(self)@ == after_create::<P>(old(self)@),
            match room_plan::<P>(old(self)@) {
                Plan::Hit => false,
                Plan::Admit | Plan::Reclaim(_) => step == Ok::<Step<PageId>, PoolError>(
                    Step::Done(old(self)@.next_id),
                ),
                Plan::Flush(victim) => asks_flush(step, old(self)@, victim),
                Plan::Exhausted => step == Err::<Step<PageId>, PoolError>(PoolError::PoolExhausted),
            },
    {
        match self.make_room() {
            Err(e) => Err(e),
            Ok(Some(request)) => Ok(Step::Flush(request)),
            Ok(None) => {
                proof {
                    self.lemma_wf();
                }
                let page_id = self.page_index;
                let mut page = Page::blank(page_id);
                page.pin();
                self.install(page);
                Ok(Step::Done(page_id))
            },
        }
    }

    /// Takes the store's answer to a `Load` request for page `page_id`.
    ///
    /// A failed read fails the call: `NotFound` when the store has no such
    /// page, `IoError` otherwise. A page read while the same page is already
    /// resident is dropped (the resident copy stands). Without a free frame
    /// the call fails with `PoolExhausted`. Else the page becomes resident:
    /// clean, held by nobody, the most recently used; and the id for the next
    /// created page moves past its id, so that no id is handed out twice.
    pub fn loaded(&mut self, page_id: PageId, outcome: Result<[u8; 4096], StoreError>) -> (done:
        Result<(), PoolError>)
        requires
            old(self).wf(),
        ensures
            final(self).wf(),
            final(self)@ == after_loaded::<P>(old(self)@, page_id, outcome),
            done == outcome_of(loaded_error(old(self)@, page_id, outcome)),
    {
        proof {
            self.lemma_wf();
        }
        match outcome {
            Err(StoreError::NotFound) => Err(PoolError::NotFound),
            Err(StoreError::Io) => Err(PoolError::IoError),
            Ok(bytes) => {
                if self.is_resident(page_id) {
                    return Ok(());
                }
                if self.frames.len() >= self.page_limit {
                    return Err(PoolError::PoolExhausted);
                }
                let page = Page::deserialize(page_id, &bytes);
                self.install(page);
                Ok(())
            },
        }
    }

    /// Takes the store's answer to a `Flush` request for page `page_id`.
    ///
    /// A failed write fails the call with `IoError` and the page stays
    /// dirty: the pool never drops a modified page. After a successful write
    /// the page is clean; if it is not resident the call fails with
    /// `NotResident`.
    pub fn flushed(&mut self, page_id: PageId, outcome: Result<(), StoreError>) -> (done: Result<
        (),
        PoolError,
    >)
        requires
            old(self).wf(),
        ensures
            final(self).wf(),
            final(self)@ == after_flushed(old(self)@, page_id, outcome),
            done == outcome_of(flushed_error(old(self)@, page_id, outcome)),
    {
        let ghost before = *self;
        if outcome.is_err() {
            return Err(PoolError::IoError);
        }
        let frame = match self.frame_of(page_id) {
            Some(f) => f,
            None => {
                return Err(PoolError::NotResident);
            },
        };
        self.frames[frame].mark_clean();
        proof {
            assert forall|f: int| 0 <= f < self.frames.len() implies {
                &&& self.table@.contains_key((#[trigger] self.frames[f])@.id)
                &&& self.table@[self.frames[f]@.id] == f
                &&& self.frames[f]@.values is Some
            } by {
                if f != frame {
                    assert(self.frames[f] == before.frames[f]);
                }
            }
            assert(self@.pages =~= before@.pages.insert(
                page_id,
                before@.pages[page_id].cleaned(),
            ));
            assert(idle_pages(self@.pages) =~= idle_pages(before@.pages));
        }
        Ok(())
    }

    /// Takes the store's answers to the writes that `flush_all` asked for,
    /// one after the other as `flushed` does. A write that failed does not
    /// keep the others from being settled: its page stays dirty, and it is
    /// listed in the result with its error.
    pub fn flushed_all(&mut self, outcomes: &Vec<(PageId, Result<(), StoreError>)>) -> (failed: Vec<
        (PageId, PoolError),
    >)
        requires
            old(self).wf(),
        ensures
            final(self).wf(),
            final(self)@ == after_flushed_all(old(self)@, outcomes@),
            failed@ == flush_failures(old(self)@, outcomes@),
    {
        let ghost before = self@;
        let mut failed: Vec<(PageId, PoolError)> = Vec::new();
        let mut i: usize = 0;
        while i < outcomes.len()
            invariant
                self.wf(),
                i <= outcomes.len(),
                self@ == after_flushed_all(before, outcomes@.take(i as int)),
                failed@ == flush_failures(before, outcomes@.take(i as int)),
            decreases outcomes.len() - i,
        {
            let (page_id, outcome) = outcomes[i];
            proof {
                assert(outcomes@.take(i + 1).drop_last() =~= outcomes@.take(i as int));
                assert(outcomes@.take(i + 1).last() == outcomes@[i as int]);
            }
            match self.flushed(page_id, outcome) {
                Ok(_) => {},
                Err(e) => {
                    failed.push((page_id, e));
                },
            }
            i = i + 1;
        }
        proof {
            assert(outcomes@.take(outcomes.len() as int) =~= outcomes@);
        }
        failed
    }

    /// Asks that page `page_id` reach the store. Fails with `NotResident`
    /// when the page is not resident. A clean page needs nothing (`Done`); for
    /// a dirty one the answer is `Flush` with its image, and the page turns
    /// clean when `flushed` reports the write.
    pub fn flush(&self, page_id: PageId) -> (step: Result<Step<()>, PoolError>)
        requires
            self.wf(),
        ensures
            if !self@.pages.contains_key(page_id) {
                step == Err::<Step<()>, PoolError>(PoolError::NotResident)
            } else if !self@.pages[page_id].dirty {
                step == Ok::<Step<()>, PoolError>(Step::Done(()))
            } else {
                asks_flush(step, self@, page_id)
            },
    {
        let frame = match self.frame_of(page_id) {
            Some(f) => f,
            None => {
                return Err(PoolError::NotResident);
            },
        };
        if !self.frames[frame].is_dirty() {
            return Ok(Step::Done(()));
        }
        match self.frames[frame].serialize() {
            Ok(bytes) => Ok(Step::Flush(WriteRequest { page_id, bytes })),
            Err(e) => {
                proof {
                    assert(false);
                }
                Err(e)
            },
        }
    }

    /// The writes that bring every dirty resident page to the store: one
    /// request for each dirty page, none for a clean one. The caller makes
    /// each write, whether or not an earlier one failed, and reports each
    /// outcome with `flushed`.
    pub fn flush_all(&self) -> (requests: Vec<WriteRequest>)
        requires
            self.wf(),
        ensures
            forall|k: int|
                0 <= k < requests.len() ==> {
                    &&& self@.pages.contains_key((#[trigger] requests[k]).page_id)
                    &&& self@.pages[requests[k].page_id].dirty
                    &&& requests[k].bytes@ == encode_values(
                        self@.pages[requests[k].page_id].values->0,
                    )
                },
            forall|page_id: PageId|
                self@.pages.contains_key(page_id) && self@.pages[page_id].dirty ==> exists|k: int|
                    0 <= k < requests.len() && (#[trigger] requests[k]).page_id == page_id,
            forall|j: int, k: int|
                0 <= j < k < requests.len() ==> (#[trigger] requests[j]).page_id != (
                #[trigger] requests[k]).page_id,
    {
        let mut requests: Vec<WriteRequest> = Vec::new();
        let ghost mut source: Seq<int> = Seq::empty();
        let mut f: usize = 0;
        while f < self.frames.len()
            invariant
                self.wf(),
                f <= self.frames.len(),
                source.len() == requests.len(),
                forall|k: int|
                    0 <= k < requests.len() ==> {
                        &&& 0 <= (#[trigger] source[k]) < f
                        &&& requests[k].page_id == self.frames[source[k]]@.id
                        &&& self.frames[source[k]]@.dirty
                        &&& requests[k].bytes@ == encode_values(
                            self.frames[source[k]]@.values->0,
                        )
                    },
                forall|j: int, k: int|
                    0 <= j < k < source.len() ==> (#[trigger] source[j]) < (#[trigger] source[k]),
                forall|g: int|
                    0 <= g < f && (#[trigger] self.frames[g])@.dirty ==> exists|k: int|
                        0 <= k < source.len() && (#[trigger] source[k]) == g,
            decreases self.frames.len() - f,
        {
            if self.frames[f].is_dirty() {
                match self.frames[f].serialize() {
                    Ok(bytes) => {
                        let page_id = self.frames[f].id();
                        requests.push(WriteRequest { page_id, bytes });
                        proof {
                            let ghost earlier = source;
                            source = source.push(f as int);
                            assert forall|g: int|
                                0 <= g < f + 1 && (#[trigger] self.frames[g])@.dirty implies exists|
                                k: int,
                            |
                                0 <= k < source.len() && (#[trigger] source[k]) == g by {
                                if g < f {
                                    let k = choose|k: int|
                                        0 <= k < earlier.len() && (#[trigger] earlier[k]) == g;
                                    assert(source[k] == g);
                                } else {
                                    assert(source[earlier.len() as int] == g);
                                }
                            }
                        }
                    },
                    Err(_) => {
                        proof {
                            assert(false);
                        }
                    },
                }
            }
            f = f + 1;
        }
        proof {
            assert forall|k: int| 0 <= k < requests.len() implies {
                &&& self@.pages.contains_key((#[trigger] requests[k]).page_id)
                &&& self@.pages[requests[k].page_id].dirty
                &&& requests[k].bytes@ == encode_values(self@.pages[requests[k].page_id].values->0)
            } by {
                let g = source[k];
                assert(self.table@.contains_key(self.frames[g]@.id));
            }
            assert forall|page_id: PageId|
                self@.pages.contains_key(page_id) && self@.pages[page_id].dirty implies exists|
                k: int,
            |
                0 <= k < requests.len() && (#[trigger] requests[k]).page_id == page_id by {
                let g = self.table@[page_id] as int;
                assert(self.frames[g]@.dirty);
                let k = choose|k: int| 0 <= k < source.len() && (#[trigger] source[k]) == g;
                assert(requests[k].page_id == page_id);
            }
            assert forall|j: int, k: int| 0 <= j < k < requests.len() implies (
            #[trigger] requests[j]).page_id != (#[trigger] requests[k]).page_id by {
                assert(source[j] < source[k]);
                assert(self.table@[self.frames[source[j]]@.id] == source[j]);
                assert(self.table@[self.frames[source[k]]@.id] == source[k]);
            }
        }
        requests
    }

    /// Reads slot `slot` of the resident page `page_id`. Fails with
    /// `NotResident` when the page is not resident, else with `OutOfRange`
    /// when `slot >= 512`.
    pub fn get_value(&self, page_id: PageId, slot: usize) -> (value: Result<i64, PoolError>)
        requires
            self.wf(),
        ensures
            value == (match slot_error(self@, page_id, slot) {
                Some(e) => Err::<i64, PoolError>(e),
                None => Ok(self@.pages[page_id].values->0[slot as int]),
            }),
    {
        match self.frame_of(page_id) {
            Some(f) => self.frames[f].get_value(slot),
            None => Err(PoolError::NotResident),
        }
    }

    /// Writes `value` to slot `slot` of the resident page `page_id` and marks
    /// the page dirty. Fails with `NotResident` when the page is not
    /// resident, else with `OutOfRange` when `slot >= 512`; a failed write
    /// changes nothing.
    pub fn set_value(&mut self, page_id: PageId, slot: usize, value: i64) -> (done: Result<
        (),
        PoolError,
    >)
        requires
            old(self).wf(),
        ensures
            final(self).wf(),
            final(self)@ == after_set_value(old(self)@, page_id, slot, value),
            done == outcome_of(slot_error(old(self)@, page_id, slot)),
    {
        let ghost before = *self;
        let frame = match self.frame_of(page_id) {
            Some(f) => f,
            None => {
                return Err(PoolError::NotResident);
            },
        };
        if slot >= 512 {
            return Err(PoolError::OutOfRange);
        }
        let _ = self.frames[frame].set_value(slot, value);
        proof {
            self.lemma_changed_page(before, frame as int);
        }
        Ok(())
    }

    /// Replaces the whole buffer of the resident page `page_id` by `input`
    /// and marks the page dirty. Fails with `NotResident`, and changes
    /// nothing, when the page is not resident.
    pub fn set_all_values(&mut self, page_id: PageId, input: [i64; 512]) -> (done: Result<
        (),
        PoolError,
    >)
        requires
            old(self).wf(),
        ensures
            final(self).wf(),
            final(self)@ == after_set_all_values(old(self)@, page_id, input),
            done == (if old(self)@.pages.contains_key(page_id) {
                Ok::<(), PoolError>(())
            } else {
                Err(PoolError::NotResident)
            }),
    {
        let ghost before = *self;
        let frame = match self.frame_of(page_id) {
            Some(f) => f,
            None => {
                return Err(PoolError::NotResident);
            },
        };
        self.frames[frame].set_all_values(input);
        proof {
            self.lemma_changed_page(before, frame as int);
        }
        Ok(())
    }

    /// Changing what a resident page holds, but neither its id nor its pin
    /// count nor whether it is loaded, keeps the pool consistent.
    proof fn lemma_changed_page(&self, before: Self, frame: int)
        requires
            before.wf(),
            0 <= frame < before.frames.len(),
            self.frames.len() == before.frames.len(),
            forall|f: int|
                0 <= f < self.frames.len() && f != frame ==> self.frames[f] == before.frames[f],
            self.frames[frame]@.id == before.frames[frame]@.id,
            self.frames[frame]@.pin_count == before.frames[frame]@.pin_count,
            self.frames[frame]@.values is Some,
            self.table == before.table,
            self.policy == before.policy,
            self.page_index == before.page_index,
            self.page_limit == before.page_limit,
        ensures
            self.wf(),
            self@ == before@.with_page(before.frames[frame]@.id, self.frames[frame]@),
    {
        assert forall|f: int| 0 <= f < self.frames.len() implies {
            &&& self.table@.contains_key((#[trigger] self.frames[f])@.id)
            &&& self.table@[self.frames[f]@.id] == f
            &&& self.frames[f]@.values is Some
        } by {
            if f != frame {
                assert(self.frames[f] == before.frames[f]);
            }
        }
        assert(self@.pages =~= before@.pages.insert(
            before.frames[frame]@.id,
            self.frames[frame]@,
        ));
        assert(idle_pages(self@.pages) =~= idle_pages(before@.pages));
    }

    /// Writes `value` to record `index`, which lives in slot `index mod 512`
    /// of page `index div 512`.
    ///
    /// If that page is resident the value is written, the page is dirty, and
    /// the policy notes the use; no hold is taken. If it is not, the call
    /// answers as `fetch` does for a page that is not resident, and nothing
    /// is written yet.
    pub fn insert(&mut self, index: usize, value: i64) -> (step: Result<Step<()>, PoolError>)
        requires
            old(self).wf(),
        ensures
            final(self).wf(),
            final(self)@ == after_insert::<P>(old(self)@, index, value),
            match fetch_plan::<P>(old(self)@, (index / 512) as usize) {
                Plan::Hit => step == Ok::<Step<()>, PoolError>(Step::Done(())),
                Plan::Admit | Plan::Reclaim(_) => step == Ok::<Step<()>, PoolError>(
                    Step::Load((index / 512) as usize),
                ),
                Plan::Flush(victim) => asks_flush(step, old(self)@, victim),
                Plan::Exhausted => step == Err::<Step<()>, PoolError>(PoolError::PoolExhausted),
            },
    {
        let ghost before = *self;
        let page_id = page_of(index);
        let slot = slot_of(index);
        match self.frame_of(page_id) {
            Some(frame) => {
                let _ = self.frames[frame].set_value(slot, value);
                proof {
                    self.lemma_changed_page(before, frame as int);
                }
                let ghost written = *self;
                let idle = self.frames[frame].pin_count() == 0;
                proof {
                    P::law_accessed(self.policy@, page_id);
                    P::law_released(P::accessed(self.policy@, page_id), page_id);
                }
                self.policy.record_access(page_id);
                if idle {
                    self.policy.release(page_id);
                }
                proof {
                    assert(self@.pages =~= written@.pages);
                    assert(P::known(self.policy@) =~= self.table@.dom());
                    assert(P::evictable(self.policy@) =~= idle_pages(self@.pages));
                }
                Ok(Step::Done(()))
            },
            None => {
                match self.make_room() {
                    Ok(None) => Ok(Step::Load(page_id)),
                    Ok(Some(request)) => Ok(Step::Flush(request)),
                    Err(e) => Err(e),
                }
            },
        }
    }

    /// The value of record `index` if its page is resident, `None` if not.
    /// Nothing is loaded and no hold is taken.
    pub fn value_at(&self, index: usize) -> (value: Option<i64>)
        requires
            self.wf(),
        ensures
            value == (if self@.pages.contains_key((index / 512) as usize) {
                Some(self@.pages[(index / 512) as usize].values->0[(index % 512) as int])
            } else {
                None
            }),
    {
        match self.frame_of(page_of(index)) {
            Some(f) => match self.frames[f].get_value(slot_of(index)) {
                Ok(value) => Some(value),
                Err(_) => None,
            },
            None => None,
        }
    }
}

} // verus!
