//! What holds of the pool whatever sequence of operations it went through.
//!
//! The operations of [`Bufferpool`](crate::pool::Bufferpool) state what they
//! do as steps on the pool's mathematical value. The laws here are proved of
//! those steps, for every eviction policy.

use vstd::prelude::*;
use crate::codec::{decode_bytes, encode_values, lemma_decode_encode};
use crate::page::{PageId, PageView};
use crate::policy::EvictionPolicy;
use crate::error::StoreError;
use crate::pool::{
    admitted,
    after_create,
    after_fetch,
    after_flushed,
    after_insert,
    after_loaded,
    after_room,
    after_set_all_values,
    after_set_page_limit,
    after_set_value,
    after_unpin,
    bump,
    created_page,
    evicted,
    fetch_plan,
    hit,
    idle_pages,
    loaded_page,
    pool_inv,
    room_plan,
    touched,
    unpinned,
    Plan,
    PoolView,
};

verus! {

/// The number of resident pages never exceeds the capacity.
pub proof fn law_capacity<P: EvictionPolicy>(v: PoolView<P::V>)
    requires
        pool_inv::<P>(v),
    ensures
        v.resident() <= v.limit,
{
}

/// The policy's victim is resident and nobody holds it: a pinned page is
/// never chosen. And when the pool is full and there is no victim, every
/// resident page is pinned.
pub proof fn law_victim_unpinned<P: EvictionPolicy>(v: PoolView<P::V>)
    requires
        pool_inv::<P>(v),
    ensures
        match P::victim(v.policy) {
            Some(victim) => v.pages.contains_key(victim) && v.pages[victim].pin_count == 0,
            None => forall|page_id: PageId| #[trigger]
                v.pages.contains_key(page_id) ==> v.pages[page_id].pin_count > 0,
        },
        match room_plan::<P>(v) {
            Plan::Hit => false,
            Plan::Admit => v.resident() < v.limit,
            Plan::Reclaim(victim) => v.pages.contains_key(victim) && v.pages[victim].pin_count == 0
                && !v.pages[victim].dirty,
            Plan::Flush(victim) => v.pages.contains_key(victim) && v.pages[victim].pin_count == 0
                && v.pages[victim].dirty,
            Plan::Exhausted => forall|page_id: PageId| #[trigger]
                v.pages.contains_key(page_id) ==> v.pages[page_id].pin_count > 0,
        },
{
    P::law_victim(v.policy);
    match P::victim(v.policy) {
        Some(victim) => {
            assert(idle_pages(v.pages).contains(victim));
        },
        None => {
            assert forall|page_id: PageId| #[trigger]
                v.pages.contains_key(page_id) implies v.pages[page_id].pin_count > 0 by {
                if v.pages[page_id].pin_count == 0 {
                    assert(idle_pages(v.pages).contains(page_id));
                }
            }
        },
    }
}

/// A fetch that finds its page resident keeps the pool invariant.
pub proof fn law_hit_keeps_inv<P: EvictionPolicy>(v: PoolView<P::V>, page_id: PageId)
    requires
        pool_inv::<P>(v),
        v.pages.contains_key(page_id),
        v.pages[page_id].pin_count < usize::MAX,
    ensures
        pool_inv::<P>(hit::<P>(v, page_id)),
        hit::<P>(v, page_id).resident() == v.resident(),
{
    let w = hit::<P>(v, page_id);
    P::law_accessed(v.policy, page_id);
    assert(w.pages.dom() =~= v.pages.dom());
    assert(idle_pages(w.pages) =~= idle_pages(v.pages).remove(page_id));
    assert(P::known(w.policy) =~= w.pages.dom());
}

/// An eviction keeps the pool invariant and frees one frame.
pub proof fn law_evicted_keeps_inv<P: EvictionPolicy>(v: PoolView<P::V>, page_id: PageId)
    requires
        pool_inv::<P>(v),
        v.pages.contains_key(page_id),
    ensures
        pool_inv::<P>(evicted::<P>(v, page_id)),
        evicted::<P>(v, page_id).resident() == v.resident() - 1,
        !evicted::<P>(v, page_id).pages.contains_key(page_id),
{
    let w = evicted::<P>(v, page_id);
    P::law_removed(v.policy, page_id);
    assert(w.pages.dom() =~= v.pages.dom().remove(page_id));
    assert(idle_pages(w.pages) =~= idle_pages(v.pages).remove(page_id));
}

/// Taking a page into a free frame keeps the pool invariant and fills one
/// frame; the resident count stays within the capacity.
pub proof fn law_admitted_keeps_inv<P: EvictionPolicy>(v: PoolView<P::V>, page: PageView)
    requires
        pool_inv::<P>(v),
        !v.pages.contains_key(page.id),
        v.resident() < v.limit,
        page.values is Some,
        page.values->0.len() == 512,
        page.pin_count <= usize::MAX,
    ensures
        pool_inv::<P>(admitted::<P>(v, page)),
        admitted::<P>(v, page).resident() == v.resident() + 1,
        admitted::<P>(v, page).pages[page.id] == page,
{
    let w = admitted::<P>(v, page);
    P::law_accessed(v.policy, page.id);
    P::law_released(P::accessed(v.policy, page.id), page.id);
    assert(w.pages.dom() =~= v.pages.dom().insert(page.id));
    if page.pin_count == 0 {
        assert(idle_pages(w.pages) =~= idle_pages(v.pages).insert(page.id));
    } else {
        assert(idle_pages(w.pages) =~= idle_pages(v.pages).remove(page.id));
    }
    assert(P::known(w.policy) =~= w.pages.dom());
    assert(P::evictable(w.policy) =~= idle_pages(w.pages));
    assert forall|q: PageId| #[trigger] w.pages.contains_key(q) implies (q < w.next_id || w.next_id
        == usize::MAX) by {
        if q != page.id {
            assert(v.pages.contains_key(q));
        }
    }
}

/// An unpin of a held page keeps the pool invariant.
pub proof fn law_unpinned_keeps_inv<P: EvictionPolicy>(
    v: PoolView<P::V>,
    page_id: PageId,
    is_dirty: bool,
)
    requires
        pool_inv::<P>(v),
        v.pages.contains_key(page_id),
        v.pages[page_id].pin_count > 0,
    ensures
        pool_inv::<P>(unpinned::<P>(v, page_id, is_dirty)),
        unpinned::<P>(v, page_id, is_dirty).resident() == v.resident(),
{
    let w = unpinned::<P>(v, page_id, is_dirty);
    P::law_released(v.policy, page_id);
    assert(w.pages.dom() =~= v.pages.dom());
    if w.pages[page_id].pin_count == 0 {
        assert(idle_pages(w.pages) =~= idle_pages(v.pages).insert(page_id));
    } else {
        assert(idle_pages(w.pages) =~= idle_pages(v.pages));
    }
}

/// Changing what a resident page holds (a write, a flush) keeps the pool
/// invariant, as long as its id, its pin count and its buffer's size stay.
pub proof fn law_with_page_keeps_inv<P: EvictionPolicy>(
    v: PoolView<P::V>,
    page_id: PageId,
    page: PageView,
)
    requires
        pool_inv::<P>(v),
        v.pages.contains_key(page_id),
        page.id == page_id,
        page.pin_count == v.pages[page_id].pin_count,
        page.values is Some,
        page.values->0.len() == 512,
    ensures
        pool_inv::<P>(v.with_page(page_id, page)),
        v.with_page(page_id, page).resident() == v.resident(),
{
    let w = v.with_page(page_id, page);
    assert(w.pages.dom() =~= v.pages.dom());
    assert(idle_pages(w.pages) =~= idle_pages(v.pages));
}

/// A use that takes no hold keeps the pool invariant.
pub proof fn law_touched_keeps_inv<P: EvictionPolicy>(v: PoolView<P::V>, page_id: PageId)
    requires
        pool_inv::<P>(v),
        v.pages.contains_key(page_id),
    ensures
        pool_inv::<P>(touched::<P>(v, page_id)),
        touched::<P>(v, page_id).resident() == v.resident(),
{
    let w = touched::<P>(v, page_id);
    P::law_accessed(v.policy, page_id);
    P::law_released(P::accessed(v.policy, page_id), page_id);
    assert(P::known(w.policy) =~= w.pages.dom());
    assert(P::evictable(w.policy) =~= idle_pages(w.pages));
}

/// A new capacity that is not below the resident count keeps the pool invariant.
pub proof fn law_with_limit_keeps_inv<P: EvictionPolicy>(v: PoolView<P::V>, limit: nat)
    requires
        pool_inv::<P>(v),
        v.resident() <= limit <= usize::MAX,
    ensures
        pool_inv::<P>(v.with_limit(limit)),
{
}

/// One fetch of a resident page followed by one unpin leaves its pin count
/// where it was.
pub proof fn law_fetch_unpin_pair<P: EvictionPolicy>(
    v: PoolView<P::V>,
    page_id: PageId,
    is_dirty: bool,
)
    requires
        v.pages.contains_key(page_id),
    ensures
        after_fetch::<P>(v, page_id).pages[page_id].pin_count == v.pages[page_id].pin_count + 1,
        after_unpin::<P>(after_fetch::<P>(v, page_id), page_id, is_dirty).pages[page_id].pin_count
            == v.pages[page_id].pin_count,
{
}

/// What a holder does with a resident page.
pub enum PinOp {
    /// A fetch of the page.
    Fetch,
    /// An unpin of the page, with the holder's dirty flag.
    Unpin(bool),
}

/// The pool after the fetches and unpins `ops` of page `page_id`, in order.
pub open spec fn pin_run<P: EvictionPolicy>(
    v: PoolView<P::V>,
    page_id: PageId,
    ops: Seq<PinOp>,
) -> PoolView<P::V>
    decreases ops.len(),
{
    if ops.len() == 0 {
        v
    } else {
        let before = pin_run::<P>(v, page_id, ops.drop_last());
        match ops.last() {
            PinOp::Fetch => after_fetch::<P>(before, page_id),
            PinOp::Unpin(is_dirty) => after_unpin::<P>(before, page_id, is_dirty),
        }
    }
}

/// The number of fetches among `ops`.
pub open spec fn fetches(ops: Seq<PinOp>) -> nat
    decreases ops.len(),
{
    if ops.len() == 0 {
        0
    } else {
        fetches(ops.drop_last()) + (if ops.last() is Fetch {
            1nat
        } else {
            0nat
        })
    }
}

/// The number of unpins among `ops`.
pub open spec fn unpins(ops: Seq<PinOp>) -> nat
    decreases ops.len(),
{
    if ops.len() == 0 {
        0
    } else {
        unpins(ops.drop_last()) + (if ops.last() is Unpin {
            1nat
        } else {
            0nat
        })
    }
}

/// Every unpin among `ops` has a hold to give back when its turn comes:
/// at each unpin, the holds at the start plus the fetches before it exceed
/// the unpins before it.
pub open spec fn well_nested(start: nat, ops: Seq<PinOp>) -> bool
    decreases ops.len(),
{
    if ops.len() == 0 {
        true
    } else {
        &&& well_nested(start, ops.drop_last())
        &&& ops.last() is Unpin ==> start + fetches(ops.drop_last()) > unpins(ops.drop_last())
    }
}

/// Through any sequence of fetches and unpins of a resident page, the page
/// stays resident and its pin count never goes below zero (an unpin that no
/// hold matches is refused and changes nothing); when every unpin matches a
/// hold, the pin count is exactly the number of holds outstanding: those at
/// the start, plus the fetches, minus the unpins.
pub proof fn law_pin_count_is_holds<P: EvictionPolicy>(
    v: PoolView<P::V>,
    page_id: PageId,
    ops: Seq<PinOp>,
)
    requires
        v.pages.contains_key(page_id),
    ensures
        pin_run::<P>(v, page_id, ops).pages.contains_key(page_id),
        pin_run::<P>(v, page_id, ops).pages[page_id].pin_count >= 0,
        well_nested(v.pages[page_id].pin_count, ops) ==> pin_run::<P>(
            v,
            page_id,
            ops,
        ).pages[page_id].pin_count == v.pages[page_id].pin_count + fetches(ops) - unpins(ops),
    decreases ops.len(),
{
    if ops.len() > 0 {
        law_pin_count_is_holds::<P>(v, page_id, ops.drop_last());
    }
}

/// A page's values survive its image: whatever the 512 values are, the page
/// read back from their on-disk image holds exactly them.
pub proof fn law_page_round_trip(page_id: PageId, values: Seq<i64>)
    ensures
        loaded_page(page_id, decode_bytes(encode_values(values))).values == Some(values),
        encode_values(values).len() == 8 * values.len(),
{
    lemma_decode_encode(values);
}

/// A value written to a slot is the value read from it until the page is
/// written again or leaves the pool; the other slots keep their values.
pub proof fn law_write_then_read(page: PageView, slot: int, value: i64)
    requires
        page.values is Some,
        0 <= slot < page.values->0.len(),
    ensures
        page.written(slot, value).values->0[slot] == value,
        page.written(slot, value).values->0.len() == page.values->0.len(),
        page.written(slot, value).dirty,
        forall|other: int|
            0 <= other < page.values->0.len() && other != slot ==> page.written(
                slot,
                value,
            ).values->0[other] == page.values->0[other],
{
}

/// Eviction flushes: when the victim is dirty, the pool asks for its image
/// to be written; once the write is reported the same page is reclaimed;
/// and when that image is read back into a pool that has a frame for it,
/// the page holds the values it held when it was evicted.
pub proof fn law_evicted_page_survives<P: EvictionPolicy>(
    v: PoolView<P::V>,
    victim: PageId,
    image: [u8; 4096],
    later: PoolView<P::V>,
)
    requires
        pool_inv::<P>(v),
        room_plan::<P>(v) == Plan::Flush(victim),
        image@ == encode_values(v.pages[victim].values->0),
        !later.pages.contains_key(victim),
        later.resident() < later.limit,
    ensures
        v.pages.contains_key(victim),
        room_plan::<P>(after_flushed(v, victim, Ok(()))) == Plan::Reclaim(victim),
        !after_room::<P>(after_flushed(v, victim, Ok(()))).pages.contains_key(victim),
        after_loaded::<P>(later, victim, Ok(image)).pages.contains_key(victim),
        after_loaded::<P>(later, victim, Ok(image)).pages[victim].values == v.pages[victim].values,
{
    law_victim_unpinned::<P>(v);
    let clean = after_flushed(v, victim, Ok(()));
    assert(clean.pages.dom() =~= v.pages.dom());
    lemma_decode_encode(v.pages[victim].values->0);
}

/// No duplicate loads: once a page has been taken in, a fetch of it is a
/// hit, so the store is not read for it again while it stays resident; and
/// a second copy that was read meanwhile is dropped.
pub proof fn law_fetch_after_load_hits<P: EvictionPolicy>(
    v: PoolView<P::V>,
    page_id: PageId,
    image: [u8; 4096],
    other: [u8; 4096],
)
    requires
        !v.pages.contains_key(page_id),
        v.resident() < v.limit,
    ensures
        fetch_plan::<P>(after_loaded::<P>(v, page_id, Ok(image)), page_id) == Plan::Hit,
        after_fetch::<P>(after_loaded::<P>(v, page_id, Ok(image)), page_id).pages[page_id].pin_count
            == 1,
        after_loaded::<P>(after_loaded::<P>(v, page_id, Ok(image)), page_id, Ok(other))
            == after_loaded::<P>(v, page_id, Ok(image)),
{
}

/// Serving a request that misses makes progress: once the write of a dirty
/// victim is reported the victim is reclaimed, once it is reclaimed there
/// is room, and once the page is taken in the request is a hit. So the same
/// call is answered `Done` after at most one flush and one load.
pub proof fn law_miss_makes_progress<P: EvictionPolicy>(
    v: PoolView<P::V>,
    page_id: PageId,
    image: [u8; 4096],
)
    requires
        pool_inv::<P>(v),
        !v.pages.contains_key(page_id),
    ensures
        match fetch_plan::<P>(v, page_id) {
            Plan::Hit => false,
            Plan::Admit => fetch_plan::<P>(after_loaded::<P>(v, page_id, Ok(image)), page_id)
                == Plan::Hit,
            Plan::Reclaim(victim) => fetch_plan::<P>(after_fetch::<P>(v, page_id), page_id)
                == Plan::Admit,
            Plan::Flush(victim) => fetch_plan::<P>(after_flushed(v, victim, Ok(())), page_id)
                == Plan::Reclaim(victim),
            Plan::Exhausted => true,
        },
{
    law_victim_unpinned::<P>(v);
    match fetch_plan::<P>(v, page_id) {
        Plan::Reclaim(victim) => {
            law_evicted_keeps_inv::<P>(v, victim);
        },
        Plan::Flush(victim) => {
            let clean = after_flushed(v, victim, Ok(()));
            assert(clean.pages.dom() =~= v.pages.dom());
        },
        _ => {},
    }
}

/// The id given to a created page was never seen before: it is above every
/// resident id, and the next id never goes down.
pub proof fn law_ids_grow<P: EvictionPolicy>(v: PoolView<P::V>, page: PageView)
    requires
        pool_inv::<P>(v),
        v.next_id < usize::MAX,
    ensures
        !v.pages.contains_key(v.next_id),
        bump(v.next_id, v.next_id) == v.next_id + 1,
        admitted::<P>(v, page).next_id >= v.next_id,
{
}

/// An operation of the pool that may change it.
pub enum Operation {
    /// `set_page_limit(limit)`.
    SetPageLimit(usize),
    /// `fetch(page_id)`.
    Fetch(PageId),
    /// `create_page()`.
    CreatePage,
    /// `loaded(page_id, outcome)`.
    Loaded(PageId, Result<[u8; 4096], StoreError>),
    /// `flushed(page_id, outcome)`.
    Flushed(PageId, Result<(), StoreError>),
    /// `unpin(page_id, is_dirty)`.
    Unpin(PageId, bool),
    /// `set_value(page_id, slot, value)`.
    SetValue(PageId, usize, i64),
    /// `set_all_values(page_id, input)`.
    SetAllValues(PageId, [i64; 512]),
    /// `insert(index, value)`.
    Insert(usize, i64),
}

/// What the operation asks of the pool beyond its invariant: that the
/// counter it raises has not reached the end of `usize`.
pub open spec fn allowed<P: EvictionPolicy>(v: PoolView<P::V>, op: Operation) -> bool {
    match op {
        Operation::Fetch(page_id) => v.pages.contains_key(page_id) ==> v.pages[page_id].pin_count
            < usize::MAX,
        Operation::CreatePage => v.next_id < usize::MAX,
        _ => true,
    }
}

/// The pool after the operation.
pub open spec fn after<P: EvictionPolicy>(v: PoolView<P::V>, op: Operation) -> PoolView<P::V> {
    match op {
        Operation::SetPageLimit(limit) => after_set_page_limit(v, limit),
        Operation::Fetch(page_id) => after_fetch::<P>(v, page_id),
        Operation::CreatePage => after_create::<P>(v),
        Operation::Loaded(page_id, outcome) => after_loaded::<P>(v, page_id, outcome),
        Operation::Flushed(page_id, outcome) => after_flushed(v, page_id, outcome),
        Operation::Unpin(page_id, is_dirty) => after_unpin::<P>(v, page_id, is_dirty),
        Operation::SetValue(page_id, slot, value) => after_set_value(v, page_id, slot, value),
        Operation::SetAllValues(page_id, input) => after_set_all_values(v, page_id, input),
        Operation::Insert(index, value) => after_insert::<P>(v, index, value),
    }
}

/// Every operation keeps the pool invariant.
pub proof fn law_operation_keeps_inv<P: EvictionPolicy>(v: PoolView<P::V>, op: Operation)
    requires
        pool_inv::<P>(v),
        allowed::<P>(v, op),
    ensures
        pool_inv::<P>(after::<P>(v, op)),
{
    law_victim_unpinned::<P>(v);
    let room = after_room::<P>(v);
    assert(pool_inv::<P>(room) && (room_plan::<P>(v) is Admit || room_plan::<P>(v) is Reclaim
        ==> room.resident() < room.limit)) by {
        if let Plan::Reclaim(victim) = room_plan::<P>(v) {
            law_evicted_keeps_inv::<P>(v, victim);
        }
    }
    match op {
        Operation::SetPageLimit(limit) => {
            if v.resident() <= limit {
                law_with_limit_keeps_inv::<P>(v, limit as nat);
            }
        },
        Operation::Fetch(page_id) => {
            if v.pages.contains_key(page_id) {
                law_hit_keeps_inv::<P>(v, page_id);
            }
        },
        Operation::CreatePage => {
            if room_plan::<P>(v) is Admit || room_plan::<P>(v) is Reclaim {
                law_admitted_keeps_inv::<P>(room, created_page(v.next_id));
            }
        },
        Operation::Loaded(page_id, outcome) => {
            if let Ok(bytes) = outcome {
                if !v.pages.contains_key(page_id) && v.resident() < v.limit {
                    law_admitted_keeps_inv::<P>(v, loaded_page(page_id, decode_bytes(bytes@)));
                }
            }
        },
        Operation::Flushed(page_id, outcome) => {
            if outcome is Ok && v.pages.contains_key(page_id) {
                law_with_page_keeps_inv::<P>(v, page_id, v.pages[page_id].cleaned());
            }
        },
        Operation::Unpin(page_id, is_dirty) => {
            if v.pages.contains_key(page_id) && v.pages[page_id].pin_count > 0 {
                law_unpinned_keeps_inv::<P>(v, page_id, is_dirty);
            }
        },
        Operation::SetValue(page_id, slot, value) => {
            if v.pages.contains_key(page_id) && slot < 512 {
                law_with_page_keeps_inv::<P>(
                    v,
                    page_id,
                    v.pages[page_id].written(slot as int, value),
                );
            }
        },
        Operation::SetAllValues(page_id, input) => {
            if v.pages.contains_key(page_id) {
                law_with_page_keeps_inv::<P>(v, page_id, v.pages[page_id].overwritten(input@));
            }
        },
        Operation::Insert(index, value) => {
            let page_id = (index / 512) as usize;
            if v.pages.contains_key(page_id) {
                let page = v.pages[page_id].written((index % 512) as int, value);
                law_with_page_keeps_inv::<P>(v, page_id, page);
                law_touched_keeps_inv::<P>(v.with_page(page_id, page), page_id);
            }
        },
    }
}

/// The pool after the operations `ops`, in order; an operation that is not
/// allowed is not made.
pub open spec fn after_all<P: EvictionPolicy>(v: PoolView<P::V>, ops: Seq<Operation>) -> PoolView<
    P::V,
>
    decreases ops.len(),
{
    if ops.len() == 0 {
        v
    } else {
        let before = after_all::<P>(v, ops.drop_last());
        if allowed::<P>(before, ops.last()) {
            after::<P>(before, ops.last())
        } else {
            before
        }
    }
}

/// Capacity invariant: after any sequence of operations the pool invariant
/// holds, and so the number of resident pages is within the capacity.
pub proof fn law_invariant_after_any_sequence<P: EvictionPolicy>(
    v: PoolView<P::V>,
    ops: Seq<Operation>,
)
    requires
        pool_inv::<P>(v),
    ensures
        pool_inv::<P>(after_all::<P>(v, ops)),
        after_all::<P>(v, ops).resident() <= after_all::<P>(v, ops).limit,
    decreases ops.len(),
{
    if ops.len() > 0 {
        law_invariant_after_any_sequence::<P>(v, ops.drop_last());
        let before = after_all::<P>(v, ops.drop_last());
        if allowed::<P>(before, ops.last()) {
            law_operation_keeps_inv::<P>(before, ops.last());
        }
    }
}

/// A page that somebody holds stays resident through every operation: only
/// a page that nobody holds gives up its frame.
pub proof fn law_pinned_page_stays<P: EvictionPolicy>(
    v: PoolView<P::V>,
    op: Operation,
    page_id: PageId,
)
    requires
        pool_inv::<P>(v),
        v.pages.contains_key(page_id),
        v.pages[page_id].pin_count > 0,
    ensures
        after::<P>(v, op).pages.contains_key(page_id),
{
    law_victim_unpinned::<P>(v);
}

/// No write is lost: a dirty page stays resident through every operation.
/// It gives up its frame only after `flushed` has reported that its image
/// reached the store.
pub proof fn law_dirty_page_stays<P: EvictionPolicy>(
    v: PoolView<P::V>,
    op: Operation,
    page_id: PageId,
)
    requires
        pool_inv::<P>(v),
        v.pages.contains_key(page_id),
        v.pages[page_id].dirty,
    ensures
        after::<P>(v, op).pages.contains_key(page_id),
{
    law_victim_unpinned::<P>(v);
}

/// Whether the operation writes to a slot of page `page_id`.
pub open spec fn writes_to(op: Operation, page_id: PageId) -> bool {
    match op {
        Operation::SetValue(written, _, _) => written == page_id,
        Operation::SetAllValues(written, _) => written == page_id,
        Operation::Insert(index, _) => index / 512 == page_id,
        _ => false,
    }
}

/// A value written through the pool is the value read back, and it stays
/// so for as long as the page stays resident and is not written again:
/// no other operation touches the values of a resident page.
pub proof fn law_written_value_stays<P: EvictionPolicy>(
    v: PoolView<P::V>,
    page_id: PageId,
    slot: usize,
    value: i64,
    op: Operation,
)
    requires
        pool_inv::<P>(v),
        v.pages.contains_key(page_id),
        slot < 512,
        allowed::<P>(after_set_value(v, page_id, slot, value), op),
        !writes_to(op, page_id),
    ensures
        after_set_value(v, page_id, slot, value).pages[page_id].values->0[slot as int] == value,
        after::<P>(after_set_value(v, page_id, slot, value), op).pages.contains_key(page_id)
            ==> after::<P>(
            after_set_value(v, page_id, slot, value),
            op,
        ).pages[page_id].values->0[slot as int] == value,
{
    let w = after_set_value(v, page_id, slot, value);
    law_with_page_keeps_inv::<P>(v, page_id, v.pages[page_id].written(slot as int, value));
    law_victim_unpinned::<P>(w);
}

} // verus!
