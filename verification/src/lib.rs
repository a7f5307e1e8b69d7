//! A fixed-size-page buffer pool: an in-memory cache of 4096-byte pages that
//! decides which pages stay in memory, serves reads and writes against the
//! cached copies, and says which pages must be written back before their
//! frame is reused.
//!
//! The pool does no input or output. Where the page store is needed, an
//! operation answers with the request to make, and the caller reports what
//! the store said; see [`pool`].

pub mod codec;
pub mod error;
pub mod laws;
pub mod page;
pub mod policy;
pub mod pool;
pub mod table;

pub use crate::error::{NoVictimAvailable, PoolError, StoreError};
pub use crate::page::{Page, PageId};
pub use crate::policy::{EvictionPolicy, Lru};
pub use crate::pool::{Bufferpool, Step, WriteRequest};
pub use crate::table::PageTable;
