use bufferpool::codec::{decode_page, encode_page};
use bufferpool::error::{PoolError, StoreError};
use bufferpool::policy::Lru;
use bufferpool::pool::{Bufferpool, Step};
use std::collections::HashMap;

/// A page store kept in memory, which counts its reads and writes and can be
/// told to fail.
struct MemStore {
    pages: HashMap<usize, [u8; 4096]>,
    reads: usize,
    writes: usize,
    broken: bool,
}

impl MemStore {
    fn new() -> MemStore {
        MemStore { pages: HashMap::new(), reads: 0, writes: 0, broken: false }
    }

    fn read_page(&mut self, id: usize) -> Result<[u8; 4096], StoreError> {
        self.reads += 1;
        if self.broken {
            return Err(StoreError::Io);
        }
        match self.pages.get(&id) {
            Some(bytes) => Ok(*bytes),
            None => Err(StoreError::NotFound),
        }
    }

    fn write_page(&mut self, id: usize, bytes: &[u8; 4096]) -> Result<(), StoreError> {
        self.writes += 1;
        if self.broken {
            return Err(StoreError::Io);
        }
        self.pages.insert(id, *bytes);
        Ok(())
    }
}

type Pool = Bufferpool<Lru>;

/// Makes the request that a step asks for and reports the store's answer.
fn settle<T>(pool: &mut Pool, store: &mut MemStore, step: Step<T>) -> Result<Option<T>, PoolError> {
    match step {
        Step::Done(value) => Ok(Some(value)),
        Step::Flush(request) => {
            let outcome = store.write_page(request.page_id, &request.bytes);
            pool.flushed(request.page_id, outcome)?;
            Ok(None)
        }
        Step::Load(page_id) => {
            let outcome = store.read_page(page_id);
            pool.loaded(page_id, outcome)?;
            Ok(None)
        }
    }
}

fn fetch(pool: &mut Pool, store: &mut MemStore, page_id: usize) -> Result<usize, PoolError> {
    loop {
        let step = pool.fetch(page_id)?;
        if let Some(handle) = settle(pool, store, step)? {
            return Ok(handle);
        }
    }
}

fn create(pool: &mut Pool, store: &mut MemStore) -> Result<usize, PoolError> {
    loop {
        let step = pool.create_page()?;
        if let Some(handle) = settle(pool, store, step)? {
            return Ok(handle);
        }
    }
}

fn insert(
    pool: &mut Pool,
    store: &mut MemStore,
    index: usize,
    value: i64,
) -> Result<(), PoolError> {
    loop {
        let step = pool.insert(index, value)?;
        if settle(pool, store, step)?.is_some() {
            return Ok(());
        }
    }
}

fn flush(pool: &mut Pool, store: &mut MemStore, page_id: usize) -> Result<(), PoolError> {
    loop {
        let step = pool.flush(page_id)?;
        if settle(pool, store, step)?.is_some() {
            return Ok(());
        }
    }
}

fn pool_of(limit: usize) -> Pool {
    let mut pool = Pool::new();
    pool.set_page_limit(limit).unwrap();
    pool
}

fn pins(pool: &Pool, page_id: usize) -> usize {
    pool.page(page_id).unwrap().pin_count()
}

#[test]
fn basic_integration_test() {
    let mut store = MemStore::new();
    let mut bpool = Pool::new();

    bpool.set_page_limit(4).unwrap();
    assert_eq!(bpool.page_limit(), 4);

    let four_k_of_data: [i64; 512] = [0; 512];
    assert_eq!(std::mem::size_of_val(&four_k_of_data), 512 * 8);

    assert_eq!(bpool.size(), 0);
    assert!(bpool.empty());

    let page_1 = create(&mut bpool, &mut store).unwrap();
    {
        bpool.set_all_values(page_1, four_k_of_data).unwrap();
        flush(&mut bpool, &mut store, page_1).unwrap();

        assert_eq!(bpool.page(page_1).unwrap().size(), 0);
        assert_eq!(bpool.page(page_1).unwrap().capacity(), 4096);
    }
    bpool.unpin(page_1, false).unwrap();

    assert_eq!(bpool.size(), 1);
    assert!(!bpool.empty());
    assert!(!bpool.full());

    let page_2 = create(&mut bpool, &mut store).unwrap();
    {
        bpool.set_all_values(page_2, four_k_of_data).unwrap();
        flush(&mut bpool, &mut store, page_2).unwrap();
    }
    bpool.unpin(page_2, false).unwrap();

    let page_3 = create(&mut bpool, &mut store).unwrap();
    {
        bpool.set_all_values(page_3, four_k_of_data).unwrap();
        flush(&mut bpool, &mut store, page_3).unwrap();
    }
    bpool.unpin(page_3, false).unwrap();

    let page_4 = create(&mut bpool, &mut store).unwrap();
    {
        bpool.set_all_values(page_4, four_k_of_data).unwrap();
        flush(&mut bpool, &mut store, page_4).unwrap();
    }
    bpool.unpin(page_4, false).unwrap();

    assert_eq!(bpool.size(), 4);
    assert!(bpool.full());

    let page_5 = create(&mut bpool, &mut store).unwrap();
    {
        bpool.set_all_values(page_5, four_k_of_data).unwrap();
        flush(&mut bpool, &mut store, page_5).unwrap();
    }
    bpool.unpin(page_5, false).unwrap();

    // With a limit of 4, one page gave way to the new one.
    assert_eq!(bpool.size(), 4);
    assert!(bpool.full());
    assert!(!bpool.is_resident(page_1));

    insert(&mut bpool, &mut store, 0, 100).unwrap();

    assert_eq!(bpool.value_at(0), Some(100));
    assert_eq!(bpool.size(), 4);
}

#[test]
fn new_pool_is_empty_with_capacity_zero() {
    let mut store = MemStore::new();
    let mut pool = Pool::new();
    assert_eq!(pool.page_limit(), 0);
    assert_eq!(pool.size(), 0);
    assert_eq!(pool.next_page_id(), 0);
    assert!(pool.empty());
    assert!(pool.full());
    assert_eq!(create(&mut pool, &mut store), Err(PoolError::PoolExhausted));
    assert_eq!(fetch(&mut pool, &mut store, 0), Err(PoolError::PoolExhausted));
    assert_eq!(store.reads, 0);
}

#[test]
fn created_pages_get_increasing_ids_and_an_empty_buffer() {
    let mut store = MemStore::new();
    let mut pool = pool_of(3);
    assert_eq!(create(&mut pool, &mut store), Ok(0));
    assert_eq!(create(&mut pool, &mut store), Ok(1));
    assert_eq!(create(&mut pool, &mut store), Ok(2));
    assert_eq!(pool.next_page_id(), 3);
    for id in 0..3 {
        assert_eq!(pins(&pool, id), 1);
        assert!(!pool.page(id).unwrap().is_dirty());
        assert_eq!(pool.get_value(id, 0), Ok(0));
        assert_eq!(pool.get_value(id, 511), Ok(0));
    }
    assert_eq!(store.reads, 0);
    assert_eq!(store.writes, 0);
}

#[test]
fn pin_count_follows_fetches_and_unpins() {
    let mut store = MemStore::new();
    let mut pool = pool_of(2);
    let id = create(&mut pool, &mut store).unwrap();
    assert_eq!(pins(&pool, id), 1);
    assert_eq!(fetch(&mut pool, &mut store, id), Ok(id));
    assert_eq!(fetch(&mut pool, &mut store, id), Ok(id));
    assert_eq!(pins(&pool, id), 3);
    assert_eq!(pool.unpin(id, false), Ok(()));
    assert_eq!(pins(&pool, id), 2);
    assert_eq!(pool.unpin(id, false), Ok(()));
    assert_eq!(pool.unpin(id, false), Ok(()));
    assert_eq!(pins(&pool, id), 0);
    assert_eq!(pool.unpin(id, false), Err(PoolError::UnderflowPin));
    assert_eq!(pins(&pool, id), 0);
}

#[test]
fn unpin_ors_the_dirty_flag() {
    let mut store = MemStore::new();
    let mut pool = pool_of(2);
    let id = create(&mut pool, &mut store).unwrap();
    fetch(&mut pool, &mut store, id).unwrap();
    fetch(&mut pool, &mut store, id).unwrap();
    assert!(!pool.page(id).unwrap().is_dirty());
    pool.unpin(id, false).unwrap();
    assert!(!pool.page(id).unwrap().is_dirty());
    pool.unpin(id, true).unwrap();
    assert!(pool.page(id).unwrap().is_dirty());
    pool.unpin(id, false).unwrap();
    assert!(pool.page(id).unwrap().is_dirty());
}

#[test]
fn unpin_of_a_page_that_is_not_resident_fails() {
    let mut pool = pool_of(2);
    assert_eq!(pool.unpin(9, true), Err(PoolError::NotResident));
}

#[test]
fn a_pinned_page_is_never_the_victim() {
    let mut store = MemStore::new();
    let mut pool = pool_of(3);
    let a = create(&mut pool, &mut store).unwrap();
    let b = create(&mut pool, &mut store).unwrap();
    let c = create(&mut pool, &mut store).unwrap();
    // a is the least recently used, but it stays pinned.
    pool.unpin(b, false).unwrap();
    pool.unpin(c, false).unwrap();
    let d = create(&mut pool, &mut store).unwrap();
    assert!(pool.is_resident(a));
    assert!(!pool.is_resident(b));
    assert!(pool.is_resident(c));
    assert!(pool.is_resident(d));
    assert_eq!(pool.size(), 3);
}

#[test]
fn the_least_recently_used_page_gives_way() {
    let mut store = MemStore::new();
    let mut pool = pool_of(3);
    for _ in 0..3 {
        let id = create(&mut pool, &mut store).unwrap();
        pool.unpin(id, true).unwrap();
    }
    // Use page 0 again: page 1 is now the one used longest ago.
    fetch(&mut pool, &mut store, 0).unwrap();
    pool.unpin(0, false).unwrap();
    let id = create(&mut pool, &mut store).unwrap();
    assert_eq!(id, 3);
    assert!(pool.is_resident(0));
    assert!(!pool.is_resident(1));
    assert!(pool.is_resident(2));
    assert!(pool.is_resident(3));
}

#[test]
fn eviction_flushes_a_dirty_page() {
    let mut store = MemStore::new();
    let mut pool = pool_of(2);
    let a = create(&mut pool, &mut store).unwrap();
    pool.set_value(a, 7, -42).unwrap();
    pool.unpin(a, true).unwrap();
    let b = create(&mut pool, &mut store).unwrap();
    pool.unpin(b, false).unwrap();
    assert_eq!(store.writes, 0);
    // One more page forces page a out; it is dirty, so it is written first.
    let c = create(&mut pool, &mut store).unwrap();
    pool.unpin(c, false).unwrap();
    assert!(!pool.is_resident(a));
    assert_eq!(store.writes, 1);
    assert_eq!(decode_page(&store.pages[&a])[7], -42);
    // A fresh fault-in brings the value back.
    assert_eq!(fetch(&mut pool, &mut store, a), Ok(a));
    assert_eq!(pool.get_value(a, 7), Ok(-42));
    assert_eq!(pool.get_value(a, 8), Ok(0));
    assert!(!pool.page(a).unwrap().is_dirty());
    assert_eq!(pins(&pool, a), 1);
}

#[test]
fn a_clean_victim_is_not_written() {
    let mut store = MemStore::new();
    let mut pool = pool_of(1);
    let a = create(&mut pool, &mut store).unwrap();
    pool.unpin(a, false).unwrap();
    let b = create(&mut pool, &mut store).unwrap();
    assert_eq!(b, 1);
    assert_eq!(store.writes, 0);
    assert!(!pool.is_resident(a));
    pool.unpin(b, false).unwrap();
    // Page a never reached the store.
    assert_eq!(fetch(&mut pool, &mut store, a), Err(PoolError::NotFound));
}

#[test]
fn full_pool_evicts_the_oldest_page_and_brings_it_back() {
    let mut store = MemStore::new();
    let mut pool = pool_of(4);
    for id in 0..4usize {
        assert_eq!(create(&mut pool, &mut store), Ok(id));
        pool.set_value(id, 3, 1000 + id as i64).unwrap();
        pool.unpin(id, true).unwrap();
    }
    assert_eq!(pool.size(), 4);
    assert!(pool.full());

    assert_eq!(create(&mut pool, &mut store), Ok(4));
    assert_eq!(pool.size(), 4);
    assert!(!pool.is_resident(0));
    assert!(pool.is_resident(1) && pool.is_resident(2) && pool.is_resident(3));
    assert_eq!(store.writes, 1);
    assert!(store.pages.contains_key(&0));
    pool.unpin(4, false).unwrap();

    assert_eq!(fetch(&mut pool, &mut store, 0), Ok(0));
    assert_eq!(pool.get_value(0, 3), Ok(1000));
    assert_eq!(pool.size(), 4);
    // Page 1 was the next in line.
    assert!(!pool.is_resident(1));
    assert_eq!(decode_page(&store.pages[&1])[3], 1001);
}

#[test]
fn pool_exhausted_until_unpin() {
    let mut store = MemStore::new();
    let mut pool = pool_of(1);
    // Page 1 exists in the store.
    store.pages.insert(1, encode_page(&[5i64; 512]));
    assert_eq!(create(&mut pool, &mut store), Ok(0));
    assert_eq!(fetch(&mut pool, &mut store, 1), Err(PoolError::PoolExhausted));
    assert_eq!(store.reads, 0);
    assert!(pool.is_resident(0));

    pool.unpin(0, false).unwrap();
    assert_eq!(fetch(&mut pool, &mut store, 1), Ok(1));
    assert!(!pool.is_resident(0));
    assert!(pool.is_resident(1));
    assert_eq!(pool.get_value(1, 100), Ok(5));
    assert_eq!(pool.size(), 1);
}

#[test]
fn two_fetches_of_one_page_read_the_store_once() {
    let mut store = MemStore::new();
    let mut pool = pool_of(2);
    store.pages.insert(8, encode_page(&[-3i64; 512]));
    assert_eq!(fetch(&mut pool, &mut store, 8), Ok(8));
    assert_eq!(fetch(&mut pool, &mut store, 8), Ok(8));
    assert_eq!(store.reads, 1);
    assert_eq!(pins(&pool, 8), 2);
    assert_eq!(pool.size(), 1);
    // An id that was seen is never handed out again.
    assert_eq!(pool.next_page_id(), 9);
}

#[test]
fn a_page_loaded_twice_is_kept_once() {
    let mut pool = pool_of(2);
    assert_eq!(pool.fetch(8), Ok(Step::Load(8)));
    assert_eq!(pool.loaded(8, Ok(encode_page(&[1i64; 512]))), Ok(()));
    assert_eq!(pool.loaded(8, Ok(encode_page(&[2i64; 512]))), Ok(()));
    assert_eq!(pool.size(), 1);
    assert_eq!(pool.get_value(8, 0), Ok(1));
    assert_eq!(pins(&pool, 8), 0);
    assert_eq!(pool.fetch(8), Ok(Step::Done(8)));
    assert_eq!(pins(&pool, 8), 1);
}

#[test]
fn loaded_without_a_free_frame_fails() {
    let mut store = MemStore::new();
    let mut pool = pool_of(1);
    create(&mut pool, &mut store).unwrap();
    assert_eq!(pool.loaded(5, Ok([0u8; 4096])), Err(PoolError::PoolExhausted));
    assert!(!pool.is_resident(5));
}

#[test]
fn fetch_of_a_page_the_store_does_not_have_fails() {
    let mut store = MemStore::new();
    let mut pool = pool_of(2);
    assert_eq!(fetch(&mut pool, &mut store, 3), Err(PoolError::NotFound));
    assert_eq!(pool.size(), 0);
    assert_eq!(store.reads, 1);
}

#[test]
fn a_failed_read_fails_the_fetch() {
    let mut store = MemStore::new();
    let mut pool = pool_of(2);
    store.pages.insert(3, [0u8; 4096]);
    store.broken = true;
    assert_eq!(fetch(&mut pool, &mut store, 3), Err(PoolError::IoError));
    assert_eq!(pool.size(), 0);
}

#[test]
fn a_failed_flush_aborts_and_keeps_the_dirty_page() {
    let mut store = MemStore::new();
    let mut pool = pool_of(1);
    let a = create(&mut pool, &mut store).unwrap();
    pool.set_value(a, 0, 77).unwrap();
    pool.unpin(a, true).unwrap();
    store.broken = true;
    assert_eq!(create(&mut pool, &mut store), Err(PoolError::IoError));
    assert!(pool.is_resident(a));
    assert!(pool.page(a).unwrap().is_dirty());
    assert_eq!(pool.get_value(a, 0), Ok(77));
    assert_eq!(pool.size(), 1);
    // Once the store works again the same call goes through.
    store.broken = false;
    assert_eq!(create(&mut pool, &mut store), Ok(1));
    assert_eq!(decode_page(&store.pages[&a])[0], 77);
}

#[test]
fn fetch_answers_with_the_image_of_a_dirty_victim() {
    let mut store = MemStore::new();
    let mut pool = pool_of(1);
    let a = create(&mut pool, &mut store).unwrap();
    pool.set_value(a, 1, 258).unwrap();
    pool.unpin(a, false).unwrap();
    match pool.fetch(40) {
        Ok(Step::Flush(request)) => {
            assert_eq!(request.page_id, a);
            assert_eq!(&request.bytes[8..16], &[2u8, 1, 0, 0, 0, 0, 0, 0]);
            assert_eq!(&request.bytes[0..8], &[0u8; 8]);
        }
        other => panic!("expected a flush request, got {:?}", other),
    }
    // Nothing changed yet.
    assert!(pool.is_resident(a));
    assert!(pool.page(a).unwrap().is_dirty());
    assert_eq!(pool.flushed(a, Ok(())), Ok(()));
    assert!(!pool.page(a).unwrap().is_dirty());
    assert_eq!(pool.fetch(40), Ok(Step::Load(40)));
    assert!(!pool.is_resident(a));
    assert_eq!(pool.size(), 0);
}

#[test]
fn flushed_reports_what_the_store_said() {
    let mut store = MemStore::new();
    let mut pool = pool_of(1);
    let a = create(&mut pool, &mut store).unwrap();
    pool.set_value(a, 1, 1).unwrap();
    assert_eq!(pool.flushed(a, Err(StoreError::Io)), Err(PoolError::IoError));
    assert!(pool.page(a).unwrap().is_dirty());
    assert_eq!(pool.flushed(99, Ok(())), Err(PoolError::NotResident));
    assert_eq!(pool.flushed(a, Ok(())), Ok(()));
    assert!(!pool.page(a).unwrap().is_dirty());
}

#[test]
fn flush_writes_a_dirty_page_and_clears_the_flag() {
    let mut store = MemStore::new();
    let mut pool = pool_of(2);
    let a = create(&mut pool, &mut store).unwrap();
    assert_eq!(pool.flush(a), Ok(Step::Done(())));
    pool.set_value(a, 511, i64::MIN).unwrap();
    assert_eq!(flush(&mut pool, &mut store, a), Ok(()));
    assert_eq!(store.writes, 1);
    assert!(!pool.page(a).unwrap().is_dirty());
    assert_eq!(decode_page(&store.pages[&a])[511], i64::MIN);
    assert_eq!(flush(&mut pool, &mut store, a), Ok(()));
    assert_eq!(store.writes, 1);
    assert_eq!(flush(&mut pool, &mut store, 17), Err(PoolError::NotResident));
}

#[test]
fn flush_all_asks_for_every_dirty_page_once() {
    let mut store = MemStore::new();
    let mut pool = pool_of(4);
    for _ in 0..4 {
        create(&mut pool, &mut store).unwrap();
    }
    pool.set_value(1, 0, 11).unwrap();
    pool.set_value(3, 0, 33).unwrap();
    let requests = pool.flush_all();
    let mut ids: Vec<usize> = requests.iter().map(|r| r.page_id).collect();
    ids.sort();
    assert_eq!(ids, vec![1, 3]);
    // Best effort: the first write fails, the second is still made.
    let mut outcomes = Vec::new();
    for request in requests.iter() {
        store.broken = request.page_id == 1;
        outcomes.push((request.page_id, store.write_page(request.page_id, &request.bytes)));
    }
    assert_eq!(pool.flushed_all(&outcomes), vec![(1, PoolError::IoError)]);
    assert!(pool.page(1).unwrap().is_dirty());
    assert!(!pool.page(3).unwrap().is_dirty());
    assert_eq!(decode_page(&store.pages[&3])[0], 33);
    let again = pool.flush_all();
    assert_eq!(again.len(), 1);
    assert_eq!(again[0].page_id, 1);
    assert_eq!(decode_page(&again[0].bytes)[0], 11);
}

#[test]
fn capacity_cannot_shrink_below_the_resident_count() {
    let mut store = MemStore::new();
    let mut pool = pool_of(3);
    for _ in 0..3 {
        let id = create(&mut pool, &mut store).unwrap();
        pool.unpin(id, false).unwrap();
    }
    assert_eq!(pool.set_page_limit(2), Err(PoolError::CapacityViolation));
    assert_eq!(pool.page_limit(), 3);
    assert_eq!(pool.set_page_limit(3), Ok(()));
    assert_eq!(pool.set_page_limit(5), Ok(()));
    assert_eq!(pool.page_limit(), 5);
    assert!(!pool.full());
}

#[test]
fn resident_count_never_exceeds_the_capacity() {
    let mut store = MemStore::new();
    let mut pool = pool_of(3);
    for round in 0..20usize {
        let id = create(&mut pool, &mut store).unwrap();
        assert!(pool.size() <= pool.page_limit());
        pool.set_value(id, round, round as i64).unwrap();
        pool.unpin(id, true).unwrap();
        if round >= 2 {
            let back = fetch(&mut pool, &mut store, round - 2).unwrap();
            assert!(pool.size() <= pool.page_limit());
            assert_eq!(pool.get_value(back, round - 2), Ok((round - 2) as i64));
            pool.unpin(back, false).unwrap();
        }
    }
    assert_eq!(pool.size(), 3);
}

#[test]
fn pool_reads_and_writes_slots_of_resident_pages() {
    let mut store = MemStore::new();
    let mut pool = pool_of(2);
    let a = create(&mut pool, &mut store).unwrap();
    assert_eq!(pool.set_value(a, 0, 9), Ok(()));
    assert_eq!(pool.set_value(a, 511, -9), Ok(()));
    assert_eq!(pool.get_value(a, 0), Ok(9));
    assert_eq!(pool.get_value(a, 511), Ok(-9));
    assert_eq!(pool.get_value(a, 512), Err(PoolError::OutOfRange));
    assert_eq!(pool.set_value(a, 512, 1), Err(PoolError::OutOfRange));
    assert_eq!(pool.get_value(5, 0), Err(PoolError::NotResident));
    assert_eq!(pool.set_value(5, 0, 1), Err(PoolError::NotResident));
    assert_eq!(pool.set_all_values(5, [0; 512]), Err(PoolError::NotResident));
    assert_eq!(pool.page(a).unwrap().size(), 2);
    assert!(pool.page(a).unwrap().is_dirty());
    assert!(pool.page(5).is_none());
}

#[test]
fn insert_addresses_records_by_page_and_slot() {
    let mut store = MemStore::new();
    let mut pool = pool_of(2);
    store.pages.insert(1, encode_page(&[0i64; 512]));
    let a = create(&mut pool, &mut store).unwrap();
    pool.unpin(a, false).unwrap();
    // Record 100 is slot 100 of page 0; record 513 is slot 1 of page 1.
    insert(&mut pool, &mut store, 100, 7).unwrap();
    insert(&mut pool, &mut store, 513, 8).unwrap();
    assert_eq!(pool.get_value(0, 100), Ok(7));
    assert_eq!(pool.get_value(1, 1), Ok(8));
    assert_eq!(pool.value_at(100), Some(7));
    assert_eq!(pool.value_at(513), Some(8));
    assert_eq!(pool.value_at(512), Some(0));
    assert_eq!(pool.value_at(1024), None);
    // An insert takes no hold of the page and leaves it dirty.
    assert_eq!(pins(&pool, 0), 0);
    assert_eq!(pins(&pool, 1), 0);
    assert!(pool.page(1).unwrap().is_dirty());
    assert_eq!(store.reads, 1);
}

#[test]
fn insert_counts_as_a_use() {
    let mut store = MemStore::new();
    let mut pool = pool_of(2);
    for _ in 0..2 {
        let id = create(&mut pool, &mut store).unwrap();
        pool.unpin(id, false).unwrap();
    }
    // Page 0 is written, so page 1 is now the one used longest ago.
    assert_eq!(pool.insert(0, 5), Ok(Step::Done(())));
    create(&mut pool, &mut store).unwrap();
    assert!(pool.is_resident(0));
    assert!(!pool.is_resident(1));
}

#[test]
fn insert_into_a_missing_page_fails() {
    let mut store = MemStore::new();
    let mut pool = pool_of(2);
    assert_eq!(insert(&mut pool, &mut store, 5000, 1), Err(PoolError::NotFound));
    assert_eq!(pool.value_at(5000), None);
}

#[test]
fn an_inserted_value_survives_eviction() {
    let mut store = MemStore::new();
    let mut pool = pool_of(2);
    let a = create(&mut pool, &mut store).unwrap();
    pool.unpin(a, true).unwrap();
    assert!(pool.page(a).unwrap().is_dirty());
    // Record 5 lives in page 0, which is dirty already.
    insert(&mut pool, &mut store, 5, 12345).unwrap();
    // Fill the pool with other pages and ask for one more.
    let b = create(&mut pool, &mut store).unwrap();
    pool.unpin(b, false).unwrap();
    let c = create(&mut pool, &mut store).unwrap();
    pool.unpin(c, false).unwrap();
    assert!(!pool.is_resident(a));
    assert_eq!(pool.value_at(5), None);
    // A fresh fault-in from the store brings the value back.
    assert_eq!(fetch(&mut pool, &mut store, a), Ok(a));
    assert_eq!(pool.get_value(a, 5), Ok(12345));
    assert_eq!(pool.value_at(5), Some(12345));
    assert_eq!(store.reads, 1);
}

#[test]
fn flushed_all_lists_every_failure_in_order() {
    let mut store = MemStore::new();
    let mut pool = pool_of(3);
    for _ in 0..3 {
        let id = create(&mut pool, &mut store).unwrap();
        pool.set_value(id, 0, 1).unwrap();
    }
    let outcomes = vec![
        (2, Err(StoreError::Io)),
        (0, Ok(())),
        (7, Ok(())),
        (1, Err(StoreError::NotFound)),
    ];
    assert_eq!(
        pool.flushed_all(&outcomes),
        vec![(2, PoolError::IoError), (7, PoolError::NotResident), (1, PoolError::IoError)]
    );
    assert!(!pool.page(0).unwrap().is_dirty());
    assert!(pool.page(1).unwrap().is_dirty());
    assert!(pool.page(2).unwrap().is_dirty());
    assert_eq!(pool.flushed_all(&Vec::new()), Vec::new());
}
