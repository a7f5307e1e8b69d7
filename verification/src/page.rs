//! A page: 512 value slots, a dirty flag and a pin count.

use vstd::prelude::*;
use crate::codec::{decode_bytes, decode_page, encode_page, encode_values, PAGE_SIZE, SLOT_COUNT};
use crate::error::PoolError;

verus! {

/// Identifies a page. Ids are handed out in increasing order and never change.
pub type PageId = usize;

/// The page that holds record `index`: `index div 512`.
pub fn page_of(index: usize) -> (page_id: PageId)
    ensures
        page_id == index / 512,
{
    index / SLOT_COUNT
}

/// The slot of record `index` within its page: `index mod 512`.
pub fn slot_of(index: usize) -> (slot: usize)
    ensures
        slot == index % 512,
        slot < 512,
{
    index % SLOT_COUNT
}

/// The character of the decimal digit `d`.
pub open spec fn digit(d: nat) -> char {
    if d == 0 {
        '0'
    } else if d == 1 {
        '1'
    } else if d == 2 {
        '2'
    } else if d == 3 {
        '3'
    } else if d == 4 {
        '4'
    } else if d == 5 {
        '5'
    } else if d == 6 {
        '6'
    } else if d == 7 {
        '7'
    } else if d == 8 {
        '8'
    } else {
        '9'
    }
}

/// The decimal numeral of `n`, without sign or leading zeros.
pub open spec fn decimal(n: nat) -> Seq<char>
    decreases n,
{
    if n < 10 {
        seq![digit(n)]
    } else {
        decimal(n / 10).push(digit(n % 10))
    }
}

/// The name under which page `pid` is kept in the store: `page_` and the
/// decimal numeral of the id.
pub open spec fn page_path(pid: PageId) -> Seq<char> {
    seq!['p', 'a', 'g', 'e', '_'] + decimal(pid as nat)
}

/// Formats the store name of a page with `format!("page_{}", pid)`. Trusted:
/// the `{}` of an unsigned integer is taken to write its decimal numeral,
/// without sign or leading zeros, after the literal text.
#[verifier::external_body]
fn format_page_path(pid: PageId) -> (path: String)
    ensures
        path@ == page_path(pid),
{
    format!("page_{}", pid)
}

/// What a page is, as a mathematical value.
pub struct PageView {
    /// The page's id.
    pub id: PageId,
    /// The 512 values of the buffer, or `None` while no buffer is loaded.
    pub values: Option<Seq<i64>>,
    /// Whether the buffer was modified since it was last written out.
    pub dirty: bool,
    /// The number of holders that use the page right now.
    pub pin_count: nat,
    /// The number of single-slot writes made so far (it stops at `usize::MAX`).
    pub writes: nat,
}

impl PageView {
    /// A page without buffer: clean, unpinned, never written.
    pub open spec fn fresh(id: PageId) -> PageView {
        PageView { id, values: None, dirty: false, pin_count: 0, writes: 0 }
    }

    /// The page with `values` just read from the store: loaded and clean.
    pub open spec fn opened(self, values: Seq<i64>) -> PageView {
        PageView { values: Some(values), dirty: false, ..self }
    }

    /// The page after `value` was written to `slot`.
    pub open spec fn written(self, slot: int, value: i64) -> PageView {
        PageView {
            values: Some(self.values->0.update(slot, value)),
            dirty: true,
            writes: if self.writes < usize::MAX {
                self.writes + 1
            } else {
                self.writes
            },
            ..self
        }
    }

    /// The page after all its slots were overwritten with `values`.
    pub open spec fn overwritten(self, values: Seq<i64>) -> PageView {
        PageView { values: Some(values), dirty: true, ..self }
    }

    /// The page with one more holder.
    pub open spec fn pinned(self) -> PageView {
        PageView { pin_count: self.pin_count + 1, ..self }
    }

    /// The page with one holder fewer.
    pub open spec fn unpinned(self) -> PageView {
        PageView { pin_count: (self.pin_count - 1) as nat, ..self }
    }

    /// The page with `flag` or-ed into its dirty flag.
    pub open spec fn soiled(self, flag: bool) -> PageView {
        PageView { dirty: self.dirty || flag, ..self }
    }

    /// The page once its buffer has reached the store.
    pub open spec fn cleaned(self) -> PageView {
        PageView { dirty: false, ..self }
    }
}

/// A cached page. While no buffer is loaded the slots cannot be read or written.
#[derive(Debug)]
pub struct Page {
    pid: PageId,
    loaded: bool,
    data: [i64; 512],
    dirty: bool,
    pins: usize,
    index: usize,
}

impl View for Page {
    type V = PageView;

    closed spec fn view(&self) -> PageView {
        PageView {
            id: self.pid,
            values: if self.loaded {
                Some(self.data@)
            } else {
                None
            },
            dirty: self.dirty,
            pin_count: self.pins as nat,
            writes: self.index as nat,
        }
    }
}

impl Page {
    /// A loaded buffer always has 512 slots, and the counters fit in `usize`.
    pub proof fn lemma_view_bounds(&self)
        ensures
            self@.values is Some ==> self@.values->0.len() == 512,
            self@.pin_count <= usize::MAX,
            self@.writes <= usize::MAX,
    {
    }

    /// A page with id `pid` and no buffer yet.
    pub fn new(pid: PageId) -> (page: Page)
        ensures
            page@ == PageView::fresh(pid),
    {
        Page { pid, loaded: false, data: [0i64; 512], dirty: false, pins: 0, index: 0 }
    }

    /// A page with id `pid` and an empty buffer: every slot zero, clean,
    /// unpinned. This is how a page starts that has no on-disk image yet.
    pub fn blank(pid: PageId) -> (page: Page)
        ensures
            page@ == PageView::fresh(pid).opened(Seq::new(512, |i: int| 0i64)),
    {
        let page = Page { pid, loaded: true, data: [0i64; 512], dirty: false, pins: 0, index: 0 };
        assert(page.data@ =~= Seq::new(512, |i: int| 0i64));
        page
    }

    /// The page's id.
    pub fn id(&self) -> (id: PageId)
        ensures
            id == self@.id,
    {
        self.pid
    }

    /// The name under which the page is kept in the store.
    pub fn get_page_path(&self) -> (path: String)
        ensures
            path@ == page_path(self@.id),
    {
        format_page_path(self.pid)
    }

    /// Whether a buffer is loaded.
    pub fn is_loaded(&self) -> (loaded: bool)
        ensures
            loaded == (self@.values is Some),
    {
        self.loaded
    }

    /// Whether the buffer was modified since it was last written out.
    pub fn is_dirty(&self) -> (dirty: bool)
        ensures
            dirty == self@.dirty,
    {
        self.dirty
    }

    /// The number of holders that use the page right now.
    pub fn pin_count(&self) -> (count: usize)
        ensures
            count == self@.pin_count,
    {
        self.pins
    }

    /// Loads the buffer from the on-disk image `bytes`, as read from the
    /// page store. The page is clean afterwards; id, pin count and write
    /// count stay as they were.
    pub fn open(&mut self, bytes: &[u8; 4096])
        ensures
            final(self)@ == old(self)@.opened(decode_bytes(bytes@)),
    {
        self.data = decode_page(bytes);
        self.loaded = true;
        self.dirty = false;
    }

    /// The page with id `pid` whose buffer is read from the on-disk image
    /// `bytes`: loaded, clean and unpinned.
    pub fn deserialize(pid: PageId, bytes: &[u8; 4096]) -> (page: Page)
        ensures
            page@ == PageView::fresh(pid).opened(decode_bytes(bytes@)),
    {
        let mut page = Page::new(pid);
        page.open(bytes);
        page
    }

    /// The on-disk image of the buffer: 4096 bytes, the 512 values in slot
    /// order, each little-endian. Fails with `NotLoaded` exactly when no
    /// buffer is loaded.
    pub fn serialize(&self) -> (image: Result<[u8; 4096], PoolError>)
        ensures
            match image {
                Ok(bytes) => self@.values is Some && bytes@ == encode_values(self@.values->0),
                Err(e) => self@.values is None && e == PoolError::NotLoaded,
            },
    {
        if !self.loaded {
            return Err(PoolError::NotLoaded);
        }
        Ok(encode_page(&self.data))
    }

    /// Writes `value` to slot `index` and marks the page dirty. Fails with
    /// `OutOfRange` when `index >= 512`, else with `NotLoaded` when no buffer
    /// is loaded; a failed write changes nothing.
    pub fn set_value(&mut self, index: usize, value: i64) -> (done: Result<(), PoolError>)
        ensures
            done == (if index >= 512 {
                Err::<(), PoolError>(PoolError::OutOfRange)
            } else if old(self)@.values is None {
                Err(PoolError::NotLoaded)
            } else {
                Ok(())
            }),
            final(self)@ == (if done is Ok {
                old(self)@.written(index as int, value)
            } else {
                old(self)@
            }),
    {
        if index >= SLOT_COUNT {
            return Err(PoolError::OutOfRange);
        }
        if !self.loaded {
            return Err(PoolError::NotLoaded);
        }
        self.data[index] = value;
        self.dirty = true;
        if self.index < usize::MAX {
            self.index = self.index + 1;
        }
        Ok(())
    }

    /// Replaces the whole buffer by `input` and marks the page dirty. The
    /// page is loaded afterwards, whether or not it was before.
    pub fn set_all_values(&mut self, input: [i64; 512])
        ensures
            final(self)@ == old(self)@.overwritten(input@),
    {
        self.data = input;
        self.loaded = true;
        self.dirty = true;
    }

    /// Reads slot `index`. Fails with `OutOfRange` when `index >= 512`, else
    /// with `NotLoaded` when no buffer is loaded.
    pub fn get_value(&self, index: usize) -> (value: Result<i64, PoolError>)
        ensures
            value == (if index >= 512 {
                Err::<i64, PoolError>(PoolError::OutOfRange)
            } else if self@.values is None {
                Err(PoolError::NotLoaded)
            } else {
                Ok(self@.values->0[index as int])
            }),
    {
        if index >= SLOT_COUNT {
            return Err(PoolError::OutOfRange);
        }
        if !self.loaded {
            return Err(PoolError::NotLoaded);
        }
        Ok(self.data[index])
    }

    /// The number of single-slot writes made to this page.
    pub fn size(&self) -> (count: usize)
        ensures
            count == self@.writes,
    {
        self.index
    }

    /// The number of bytes that a page holds.
    pub fn capacity(&self) -> (bytes: usize)
        ensures
            bytes == 4096,
    {
        PAGE_SIZE
    }

    /// Registers one more holder.
    pub fn pin(&mut self)
        requires
            old(self)@.pin_count < usize::MAX,
        ensures
            final(self)@ == old(self)@.pinned(),
    {
        self.pins = self.pins + 1;
    }

    /// Releases one holder. Fails with `UnderflowPin`, and changes nothing,
    /// exactly when nobody holds the page.
    pub fn unpin(&mut self) -> (done: Result<(), PoolError>)
        ensures
            match done {
                Ok(_) => old(self)@.pin_count > 0 && final(self)@ == old(self)@.unpinned(),
                Err(e) => old(self)@.pin_count == 0 && e == PoolError::UnderflowPin && final(self)@
                    == old(self)@,
            },
    {
        if self.pins == 0 {
            return Err(PoolError::UnderflowPin);
        }
        self.pins = self.pins - 1;
        Ok(())
    }

    /// Or-s `flag` into the dirty flag.
    pub fn mark_dirty(&mut self, flag: bool)
        ensures
            final(self)@ == old(self)@.soiled(flag),
    {
        self.dirty = self.dirty || flag;
    }

    /// Clears the dirty flag: the buffer has reached the store.
    pub fn mark_clean(&mut self)
        ensures
            final(self)@ == old(self)@.cleaned(),
    {
        self.dirty = false;
    }
}

} // verus!
