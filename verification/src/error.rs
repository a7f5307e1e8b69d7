//! What can go wrong, and the answers of the page store.

use vstd::prelude::*;

verus! {

/// Every failure that the pool or one of its pages reports.
#[derive(Debug, Clone, Copy, PartialEq, Eq, Structural)]
pub enum PoolError {
    /// A slot index outside `0..512`.
    OutOfRange,
    /// The page's buffer was touched before it was loaded.
    NotLoaded,
    /// The page store holds no such page.
    NotFound,
    /// The page store failed on a read or on a write.
    IoError,
    /// A frame is needed and every resident page is pinned.
    PoolExhausted,
    /// The new capacity is smaller than the number of resident pages.
    CapacityViolation,
    /// An unpin without a matching pin.
    UnderflowPin,
    /// The page is not in the page table.
    NotResident,
}

/// Why the page store could not serve a request.
#[derive(Debug, Clone, Copy, PartialEq, Eq, Structural)]
pub enum StoreError {
    /// The store holds no page under that id.
    NotFound,
    /// The persistence layer failed.
    Io,
}

/// The eviction policy's signal that every page it knows is in use.
#[derive(Debug, Clone, Copy, PartialEq, Eq, Structural)]
pub struct NoVictimAvailable;

impl PoolError {
    /// A short description of the failure, for messages.
    pub fn message(&self) -> (text: &'static str)
        ensures
            text@ == message_of(*self),
    {
        match self {
            PoolError::OutOfRange => "slot index out of range",
            PoolError::NotLoaded => "page buffer not loaded",
            PoolError::NotFound => "page not found in the page store",
            PoolError::IoError => "page store i/o failure",
            PoolError::PoolExhausted => "every resident page is pinned",
            PoolError::CapacityViolation => "capacity below the number of resident pages",
            PoolError::UnderflowPin => "unpin without a matching pin",
            PoolError::NotResident => "page not resident",
        }
    }
}

/// The text that [`PoolError::message`] gives for each failure.
pub open spec fn message_of(e: PoolError) -> Seq<char> {
    match e {
        PoolError::OutOfRange => "slot index out of range"@,
        PoolError::NotLoaded => "page buffer not loaded"@,
        PoolError::NotFound => "page not found in the page store"@,
        PoolError::IoError => "page store i/o failure"@,
        PoolError::PoolExhausted => "every resident page is pinned"@,
        PoolError::CapacityViolation => "capacity below the number of resident pages"@,
        PoolError::UnderflowPin => "unpin without a matching pin"@,
        PoolError::NotResident => "page not resident"@,
    }
}

} // verus!
