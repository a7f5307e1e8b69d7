//! The page table: which frame holds which page.

use vstd::prelude::*;
use std::collections::HashMap;
use crate::page::PageId;

verus! {

/// A plain mapping from page id to frame index. A page id is in the table
/// exactly while its page is resident; the pool keeps it so.
pub struct PageTable {
    map: HashMap<PageId, usize>,
}

impl View for PageTable {
    type V = Map<PageId, usize>;

    closed spec fn view(&self) -> Map<PageId, usize> {
        self.map@
    }
}

impl PageTable {
    /// The table never holds more than finitely many pages.
    pub proof fn lemma_finite(&self)
        ensures
            self@.dom().finite(),
    {
        broadcast use vstd::std_specs::hash::group_hash_axioms;

    }

    /// The empty table.
    pub fn new() -> (table: PageTable)
        ensures
            table@ == Map::<PageId, usize>::empty(),
    {
        PageTable { map: HashMap::new() }
    }

    /// The frame that holds `page_id`, if the page is resident.
    pub fn lookup(&self, page_id: PageId) -> (frame: Option<usize>)
        ensures
            frame == (if self@.contains_key(page_id) {
                Some(self@[page_id])
            } else {
                None
            }),
    {
        broadcast use vstd::std_specs::hash::group_hash_axioms;

        match self.map.get(&page_id) {
            Some(frame) => Some(*frame),
            None => None,
        }
    }

    /// Maps `page_id` to `frame`, replacing an earlier entry for that page.
    pub fn insert(&mut self, page_id: PageId, frame: usize)
        ensures
            final(self)@ == old(self)@.insert(page_id, frame),
    {
        broadcast use vstd::std_specs::hash::group_hash_axioms;

        self.map.insert(page_id, frame);
    }

    /// Drops the entry of `page_id`, if there is one.
    pub fn remove(&mut self, page_id: PageId)
        ensures
            final(self)@ == old(self)@.remove(page_id),
    {
        broadcast use vstd::std_specs::hash::group_hash_axioms;

        self.map.remove(&page_id);
    }

    /// The number of resident pages.
    pub fn len(&self) -> (count: usize)
        ensures
            count == self@.dom().len(),
    {
        broadcast use vstd::std_specs::hash::group_hash_axioms;

        self.map.len()
    }
}

} // verus!
