use link_core::peer::PeerId;
use link_core::storage::{Limit, LocalStorage, PutResult, Storage, StorageQuota};

const SECOND: u64 = 1_000_000_000;

/// An in-memory storage double: remembers what was put, answers asks from
/// a fixed set.
struct MemStorage {
    puts: Vec<(PeerId, u64)>,
    known: Vec<u64>,
}

impl LocalStorage<u32> for MemStorage {
    type Update = u64;

    fn put(&mut self, provider: (PeerId, Vec<u32>), has: u64) -> PutResult<u64> {
        self.puts.push((provider.0, has));
        PutResult::Applied(has)
    }

    fn ask(&self, want: u64) -> bool {
        self.known.contains(&want)
    }
}

fn fresh() -> Storage<MemStorage> {
    Storage::new(
        MemStorage { puts: Vec::new(), known: vec![7] },
        StorageQuota::default(),
    )
}

#[test]
fn wants_admission_thirty_per_minute() {
    // Thirty immediate wants pass, the thirty-first is breached; two
    // seconds later one token has replenished.
    let mut storage = fresh();
    let peer = PeerId::new(77);
    for _ in 0..30 {
        assert!(!storage.is_rate_limit_breached_at(Limit::Wants { recipient: peer }, 0));
    }
    assert!(storage.is_rate_limit_breached_at(Limit::Wants { recipient: peer }, 0));
    assert!(!storage.is_rate_limit_breached_at(Limit::Wants { recipient: peer }, 2 * SECOND));
    assert!(storage.is_rate_limit_breached_at(Limit::Wants { recipient: peer }, 2 * SECOND));
}

#[test]
fn wants_admission_is_per_recipient() {
    let mut storage = fresh();
    let a = PeerId::new(1);
    let b = PeerId::new(2);
    for _ in 0..30 {
        assert!(!storage.is_rate_limit_breached_at(Limit::Wants { recipient: a }, 0));
    }
    assert!(storage.is_rate_limit_breached_at(Limit::Wants { recipient: a }, 0));
    assert!(!storage.is_rate_limit_breached_at(Limit::Wants { recipient: b }, 0));
}

#[test]
fn errors_admission_ten_per_minute() {
    let mut storage = fresh();
    for _ in 0..10 {
        assert!(!storage.is_rate_limit_breached_at(Limit::Errors, 0));
    }
    assert!(storage.is_rate_limit_breached_at(Limit::Errors, 0));
    // Six seconds replenish one error token under the default quota.
    assert!(!storage.is_rate_limit_breached_at(Limit::Errors, 6 * SECOND));
}

#[test]
fn errors_and_wants_do_not_interfere() {
    let mut storage = fresh();
    let peer = PeerId::new(3);
    for _ in 0..10 {
        assert!(!storage.is_rate_limit_breached_at(Limit::Errors, 0));
    }
    assert!(storage.is_rate_limit_breached_at(Limit::Errors, 0));
    assert!(!storage.is_rate_limit_breached_at(Limit::Wants { recipient: peer }, 0));
}

#[test]
fn oversize_wants_map_is_swept_on_admission() {
    // Touch more recipients than the sweep threshold, then come back long
    // after all their buckets refilled: the next admission sweeps, and
    // every peer still gets a fresh answer.
    let mut storage = fresh();
    for i in 0..8193u64 {
        storage.is_rate_limit_breached_at(Limit::Wants { recipient: PeerId::new(i) }, 0);
    }
    let hour: u64 = 3600 * SECOND;
    assert!(!storage.is_rate_limit_breached_at(Limit::Wants { recipient: PeerId::new(0) }, hour));
    assert!(!storage.is_rate_limit_breached_at(Limit::Wants { recipient: PeerId::new(42) }, hour));
}

#[test]
fn put_and_ask_forward_verbatim() {
    let mut storage = fresh();
    let provider = PeerId::new(5);
    let r = storage.put((provider, vec![10u32]), 99);
    assert_eq!(r, PutResult::Applied(99));
    assert_eq!(storage.inner().puts, vec![(provider, 99)]);
    assert!(storage.ask(7));
    assert!(!storage.ask(8));
}

#[test]
fn admission_leaves_inner_storage_alone() {
    let mut storage = fresh();
    storage.is_rate_limit_breached_at(Limit::Errors, 0);
    storage.is_rate_limit_breached_at(Limit::Wants { recipient: PeerId::new(1) }, 0);
    assert!(storage.inner().puts.is_empty());
}

#[test]
fn clock_backed_admission_answers() {
    let mut storage = fresh();
    let peer = PeerId::new(11);
    // On the real clock the burst is available right away.
    assert!(!storage.is_rate_limit_breached(Limit::Errors));
    assert!(!storage.is_rate_limit_breached(Limit::Wants { recipient: peer }));
}
