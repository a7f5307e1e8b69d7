//! Eviction policies: which resident page gives up its frame.
//!
//! A policy is told when a page is used, when its last holder lets go of it
//! and when it leaves the pool, and is asked which page to reclaim next. It
//! only ever names a page that nobody holds.

use vstd::prelude::*;
use crate::error::NoVictimAvailable;
use crate::page::PageId;

verus! {

/// What the pool needs from an eviction policy. The policy's view is its
/// whole state as a mathematical value; the spec functions say what each
/// operation does to it, and the laws are what the pool relies on whatever
/// the policy is.
pub trait EvictionPolicy: View + Sized {
    /// The states that the operations keep the policy in.
    spec fn inv(m: Self::V) -> bool;

    /// The pages that the policy follows.
    spec fn known(m: Self::V) -> Set<PageId>;

    /// The pages that may be reclaimed: followed, and held by nobody.
    spec fn evictable(m: Self::V) -> Set<PageId>;

    /// The page to reclaim next, if any may be.
    spec fn victim(m: Self::V) -> Option<PageId>;

    /// The state that follows no page.
    spec fn empty() -> Self::V;

    /// The state after `page` was used: followed, in use.
    spec fn accessed(m: Self::V, page: PageId) -> Self::V;

    /// The state after the last holder of `page` let go of it.
    spec fn released(m: Self::V, page: PageId) -> Self::V;

    /// The state after `page` left the pool.
    spec fn removed(m: Self::V, page: PageId) -> Self::V;

    /// The empty state is a good state that follows nothing.
    proof fn law_empty()
        ensures
            Self::inv(Self::empty()),
            Self::known(Self::empty()) == Set::<PageId>::empty(),
            Self::evictable(Self::empty()) == Set::<PageId>::empty(),
    ;

    /// The victim may be reclaimed, and there is one whenever some page may be.
    proof fn law_victim(m: Self::V)
        requires
            Self::inv(m),
        ensures
            Self::evictable(m).subset_of(Self::known(m)),
            match Self::victim(m) {
                Some(page) => Self::evictable(m).contains(page),
                None => Self::evictable(m) == Set::<PageId>::empty(),
            },
    ;

    /// A used page is followed and may not be reclaimed; nothing else changes hands.
    proof fn law_accessed(m: Self::V, page: PageId)
        requires
            Self::inv(m),
        ensures
            Self::inv(Self::accessed(m, page)),
            Self::known(Self::accessed(m, page)) == Self::known(m).insert(page),
            Self::evictable(Self::accessed(m, page)) == Self::evictable(m).remove(page),
    ;

    /// A released page may be reclaimed if it is followed; nothing else changes hands.
    proof fn law_released(m: Self::V, page: PageId)
        requires
            Self::inv(m),
        ensures
            Self::inv(Self::released(m, page)),
            Self::known(Self::released(m, page)) == Self::known(m),
            Self::evictable(Self::released(m, page)) == (if Self::known(m).contains(page) {
                Self::evictable(m).insert(page)
            } else {
                Self::evictable(m)
            }),
    ;

    /// A removed page is followed no longer; nothing else changes hands.
    proof fn law_removed(m: Self::V, page: PageId)
        requires
            Self::inv(m),
        ensures
            Self::inv(Self::removed(m, page)),
            Self::known(Self::removed(m, page)) == Self::known(m).remove(page),
            Self::evictable(Self::removed(m, page)) == Self::evictable(m).remove(page),
    ;

    /// A policy that follows no page.
    fn new() -> (policy: Self)
        ensures
            policy@ == Self::empty(),
    ;

    /// Notes that `page` is being used.
    fn record_access(&mut self, page: PageId)
        requires
            Self::inv(old(self)@),
        ensures
            final(self)@ == Self::accessed(old(self)@, page),
    ;

    /// Notes that nobody holds `page` any more.
    fn release(&mut self, page: PageId)
        requires
            Self::inv(old(self)@),
        ensures
            final(self)@ == Self::released(old(self)@, page),
    ;

    /// Stops following `page`.
    fn remove(&mut self, page: PageId)
        requires
            Self::inv(old(self)@),
        ensures
            final(self)@ == Self::removed(old(self)@, page),
    ;

    /// The page to reclaim next, or the signal that every page is in use.
    fn select_victim(&self) -> (choice: Result<PageId, NoVictimAvailable>)
        requires
            Self::inv(self@),
        ensures
            match choice {
                Ok(page) => Self::victim(self@) == Some(page),
                Err(_) => Self::victim(self@) is None,
            },
    ;
}

/// One page in the recency order.
#[derive(Clone, Copy, Debug, PartialEq, Eq, Structural)]
pub struct LruEntry {
    /// The page.
    pub page: PageId,
    /// Whether nobody holds the page.
    pub idle: bool,
}

/// Whether `m` lists `page`.
pub open spec fn lists(m: Seq<LruEntry>, page: PageId) -> bool {
    exists|i: int| 0 <= i < m.len() && (#[trigger] m[i]).page == page
}

/// Whether `m` lists `page` as idle.
pub open spec fn lists_idle(m: Seq<LruEntry>, page: PageId) -> bool {
    exists|i: int| 0 <= i < m.len() && (#[trigger] m[i]).page == page && m[i].idle
}

/// No page is listed twice.
pub open spec fn distinct(m: Seq<LruEntry>) -> bool {
    forall|i: int, j: int|
        0 <= i < j < m.len() ==> (#[trigger] m[i]).page != (#[trigger] m[j]).page
}

/// The first position at or after `from` that lists `page`; the length if none does.
pub open spec fn find_from(m: Seq<LruEntry>, page: PageId, from: int) -> int
    decreases m.len() - from,
{
    if from >= m.len() {
        m.len() as int
    } else if m[from].page == page {
        from
    } else {
        find_from(m, page, from + 1)
    }
}

/// The first position at or after `from` that lists an idle page; the length if none does.
pub open spec fn idle_from(m: Seq<LruEntry>, from: int) -> int
    decreases m.len() - from,
{
    if from >= m.len() {
        m.len() as int
    } else if m[from].idle {
        from
    } else {
        idle_from(m, from + 1)
    }
}

/// `find_from` gives the first position of `page`.
pub proof fn lemma_find_from(m: Seq<LruEntry>, page: PageId, from: int)
    requires
        0 <= from <= m.len(),
    ensures
        from <= find_from(m, page, from) <= m.len(),
        forall|j: int| from <= j < find_from(m, page, from) ==> (#[trigger] m[j]).page != page,
        find_from(m, page, from) < m.len() ==> m[find_from(m, page, from)].page == page,
    decreases m.len() - from,
{
    if from < m.len() && m[from].page != page {
        lemma_find_from(m, page, from + 1);
    }
}

/// `idle_from` gives the first position of an idle page.
pub proof fn lemma_idle_from(m: Seq<LruEntry>, from: int)
    requires
        0 <= from <= m.len(),
    ensures
        from <= idle_from(m, from) <= m.len(),
        forall|j: int| from <= j < idle_from(m, from) ==> !(#[trigger] m[j]).idle,
        idle_from(m, from) < m.len() ==> m[idle_from(m, from)].idle,
    decreases m.len() - from,
{
    if from < m.len() && !m[from].idle {
        lemma_idle_from(m, from + 1);
    }
}

/// The victim of the least-recently-used order is the idle page that was
/// used longest ago: every page before it in the order is held.
pub proof fn lemma_lru_victim(m: Seq<LruEntry>)
    ensures
        match Lru::victim(m) {
            Some(page) => exists|i: int|
                0 <= i < m.len() && (#[trigger] m[i]).page == page && m[i].idle && forall|j: int|
                    0 <= j < i ==> !(#[trigger] m[j]).idle,
            None => forall|i: int| 0 <= i < m.len() ==> !(#[trigger] m[i]).idle,
        },
{
    lemma_idle_from(m, 0);
    let at = idle_from(m, 0);
    if at < m.len() {
        assert(m[at].page == m[at].page && m[at].idle);
    }
}

/// A use moves the page to the most recent end of the order, in use, and
/// leaves the other pages in the order they had.
pub proof fn lemma_lru_access(m: Seq<LruEntry>, page: PageId)
    ensures
        Lru::accessed(m, page).last() == (LruEntry { page, idle: false }),
        Lru::accessed(m, page).drop_last() == Lru::removed(m, page),
        !lists(m, page) ==> Lru::removed(m, page) == m,
{
    lemma_find_from(m, page, 0);
    assert(Lru::accessed(m, page).drop_last() =~= Lru::removed(m, page));
    if !lists(m, page) {
        if find_from(m, page, 0) < m.len() {
            assert(m[find_from(m, page, 0)].page == page);
        }
    }
}

/// Least recently used: the pages in the order of their last use, the page
/// that was used longest ago first. The victim is the first idle page.
pub struct Lru {
    entries: Vec<LruEntry>,
}

impl View for Lru {
    type V = Seq<LruEntry>;

    closed spec fn view(&self) -> Seq<LruEntry> {
        self.entries@
    }
}

impl Lru {
    /// The position of `page` in the order, or the length of the order.
    fn position(&self, page: PageId) -> (at: usize)
        ensures
            at == find_from(self@, page, 0),
            at <= self@.len(),
    {
        let mut at: usize = 0;
        proof {
            lemma_find_from(self@, page, 0);
        }
        while at < self.entries.len() && self.entries[at].page != page
            invariant
                at <= self.entries.len(),
                find_from(self@, page, 0) == find_from(self@, page, at as int),
            decreases self.entries.len() - at,
        {
            at = at + 1;
        }
        proof {
            lemma_find_from(self@, page, at as int);
        }
        at
    }
}

impl EvictionPolicy for Lru {
    open spec fn inv(m: Seq<LruEntry>) -> bool {
        distinct(m)
    }

    open spec fn known(m: Seq<LruEntry>) -> Set<PageId> {
        Set::new(|page: PageId| lists(m, page))
    }

    open spec fn evictable(m: Seq<LruEntry>) -> Set<PageId> {
        Set::new(|page: PageId| lists_idle(m, page))
    }

    open spec fn victim(m: Seq<LruEntry>) -> Option<PageId> {
        if idle_from(m, 0) < m.len() {
            Some(m[idle_from(m, 0)].page)
        } else {
            None
        }
    }

    open spec fn empty() -> Seq<LruEntry> {
        Seq::empty()
    }

    open spec fn accessed(m: Seq<LruEntry>, page: PageId) -> Seq<LruEntry> {
        Self::removed(m, page).push(LruEntry { page, idle: false })
    }

    open spec fn released(m: Seq<LruEntry>, page: PageId) -> Seq<LruEntry> {
        if find_from(m, page, 0) < m.len() {
            m.update(find_from(m, page, 0), LruEntry { page, idle: true })
        } else {
            m
        }
    }

    open spec fn removed(m: Seq<LruEntry>, page: PageId) -> Seq<LruEntry> {
        if find_from(m, page, 0) < m.len() {
            m.remove(find_from(m, page, 0))
        } else {
            m
        }
    }

    proof fn law_empty() {
        let m = Seq::<LruEntry>::empty();
        assert(Self::known(m) =~= Set::<PageId>::empty());
        assert(Self::evictable(m) =~= Set::<PageId>::empty());
    }

    proof fn law_victim(m: Seq<LruEntry>) {
        lemma_idle_from(m, 0);
        let at = idle_from(m, 0);
        if at < m.len() {
            assert(m[at].page == m[at].page && m[at].idle);
        } else {
            assert(Self::evictable(m) =~= Set::<PageId>::empty());
        }
    }

    proof fn law_accessed(m: Seq<LruEntry>, page: PageId) {
        Self::law_removed(m, page);
        let r = Self::removed(m, page);
        let entry = LruEntry { page, idle: false };
        let a = r.push(entry);
        assert(!lists(r, page)) by {
            assert(!Self::known(r).contains(page));
        }
        assert(distinct(a));
        assert forall|p: PageId| lists(a, p) <==> (lists(r, p) || p == page) by {
            if lists(a, p) {
                let i = choose|i: int| 0 <= i < a.len() && (#[trigger] a[i]).page == p;
                if i < r.len() {
                    assert(r[i].page == p);
                }
            }
            if lists(r, p) {
                let i = choose|i: int| 0 <= i < r.len() && (#[trigger] r[i]).page == p;
                assert(a[i].page == p);
            }
            if p == page {
                assert(a[r.len() as int].page == p);
            }
        }
        assert forall|p: PageId| lists_idle(a, p) <==> lists_idle(r, p) by {
            if lists_idle(a, p) {
                let i = choose|i: int| 0 <= i < a.len() && (#[trigger] a[i]).page == p && a[i].idle;
                assert(r[i].page == p && r[i].idle);
            }
            if lists_idle(r, p) {
                let i = choose|i: int| 0 <= i < r.len() && (#[trigger] r[i]).page == p && r[i].idle;
                assert(a[i].page == p && a[i].idle);
            }
        }
        assert forall|p: PageId| Self::known(a).contains(p) <==> Self::known(m).insert(
            page,
        ).contains(p) by {
            assert(Self::known(r).contains(p) <==> lists(r, p));
        }
        assert forall|p: PageId| Self::evictable(a).contains(p) <==> Self::evictable(m).remove(
            page,
        ).contains(p) by {
            assert(Self::evictable(r).contains(p) <==> lists_idle(r, p));
        }
        assert(Self::known(a) =~= Self::known(m).insert(page));
        assert(Self::evictable(a) =~= Self::evictable(m).remove(page));
    }

    proof fn law_released(m: Seq<LruEntry>, page: PageId) {
        lemma_find_from(m, page, 0);
        let at = find_from(m, page, 0);
        let r = Self::released(m, page);
        if at < m.len() {
            assert(lists(m, page)) by {
                assert(m[at].page == page);
            }
            assert forall|p: PageId| lists(r, p) <==> lists(m, p) by {
                if lists(r, p) {
                    let i = choose|i: int| 0 <= i < r.len() && (#[trigger] r[i]).page == p;
                    assert(m[i].page == p);
                }
                if lists(m, p) {
                    let i = choose|i: int| 0 <= i < m.len() && (#[trigger] m[i]).page == p;
                    assert(r[i].page == p);
                }
            }
            assert forall|p: PageId| lists_idle(r, p) <==> (lists_idle(m, p) || p == page) by {
                if lists_idle(r, p) {
                    let i = choose|i: int|
                        0 <= i < r.len() && (#[trigger] r[i]).page == p && r[i].idle;
                    if i != at {
                        assert(m[i].page == p && m[i].idle);
                    }
                }
                if lists_idle(m, p) {
                    let i = choose|i: int|
                        0 <= i < m.len() && (#[trigger] m[i]).page == p && m[i].idle;
                    assert(r[i].page == p && r[i].idle);
                }
                if p == page {
                    assert(r[at].page == p && r[at].idle);
                }
            }
            assert(Self::known(r) =~= Self::known(m));
            assert(Self::evictable(r) =~= Self::evictable(m).insert(page));
        } else {
            assert(!lists(m, page));
        }
    }

    proof fn law_removed(m: Seq<LruEntry>, page: PageId) {
        lemma_find_from(m, page, 0);
        let at = find_from(m, page, 0);
        let r = Self::removed(m, page);
        if at < m.len() {
            assert forall|i: int, j: int| 0 <= i < j < r.len() implies (#[trigger] r[i]).page != (
            #[trigger] r[j]).page by {
                let oi = if i < at { i } else { i + 1 };
                let oj = if j < at { j } else { j + 1 };
                assert(r[i] == m[oi] && r[j] == m[oj]);
            }
            assert forall|p: PageId| lists(r, p) <==> (lists(m, p) && p != page) by {
                if lists(r, p) {
                    let i = choose|i: int| 0 <= i < r.len() && (#[trigger] r[i]).page == p;
                    let oi = if i < at { i } else { i + 1 };
                    assert(m[oi].page == p);
                    assert(m[at].page == page);
                }
                if lists(m, p) && p != page {
                    let i = choose|i: int| 0 <= i < m.len() && (#[trigger] m[i]).page == p;
                    let ni = if i < at { i } else { i - 1 };
                    assert(r[ni].page == p);
                }
            }
            assert forall|p: PageId| lists_idle(r, p) <==> (lists_idle(m, p) && p != page) by {
                if lists_idle(r, p) {
                    let i = choose|i: int|
                        0 <= i < r.len() && (#[trigger] r[i]).page == p && r[i].idle;
                    let oi = if i < at { i } else { i + 1 };
                    assert(m[oi].page == p && m[oi].idle);
                    assert(m[at].page == page);
                }
                if lists_idle(m, p) && p != page {
                    let i = choose|i: int|
                        0 <= i < m.len() && (#[trigger] m[i]).page == p && m[i].idle;
                    let ni = if i < at { i } else { i - 1 };
                    assert(r[ni].page == p && r[ni].idle);
                }
            }
            assert(Self::known(r) =~= Self::known(m).remove(page));
            assert(Self::evictable(r) =~= Self::evictable(m).remove(page));
        } else {
            assert(!lists(m, page));
            assert(!lists_idle(m, page));
            assert(Self::known(r) =~= Self::known(m).remove(page));
            assert(Self::evictable(r) =~= Self::evictable(m).remove(page));
        }
    }

    fn new() -> (policy: Lru) {
        Lru { entries: Vec::new() }
    }

    fn record_access(&mut self, page: PageId) {
        let at = self.position(page);
        if at < self.entries.len() {
            self.entries.remove(at);
        }
        self.entries.push(LruEntry { page, idle: false });
    }

    fn release(&mut self, page: PageId) {
        let at = self.position(page);
        if at < self.entries.len() {
            self.entries.set(at, LruEntry { page, idle: true });
        }
    }

    fn remove(&mut self, page: PageId) {
        let at = self.position(page);
        if at < self.entries.len() {
            self.entries.remove(at);
        }
    }

    fn select_victim(&self) -> (choice: Result<PageId, NoVictimAvailable>) {
        let mut at: usize = 0;
        proof {
            lemma_idle_from(self@, 0);
        }
        while at < self.entries.len() && !self.entries[at].idle
            invariant
                at <= self.entries.len(),
                idle_from(self@, 0) == idle_from(self@, at as int),
            decreases self.entries.len() - at,
        {
            at = at + 1;
        }
        proof {
            lemma_idle_from(self@, at as int);
        }
        if at < self.entries.len() {
            Ok(self.entries[at].page)
        } else {
            Err(NoVictimAvailable)
        }
    }
}

} // verus!
