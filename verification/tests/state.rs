use std::cell::RefCell;
use std::rc::Rc;

use link_core::limit::{KeyedLimiter, Rate};
use link_core::peer::PeerId;
use link_core::state::{
    Connection, Endpoint, EventSink, Quota, GossipQuota, RateLimits, Spawner, State, TockHandler,
};
use link_core::storage::{Storage, StorageQuota};
use link_core::upgrade::ByteSink;

/// A bidirectional stream double whose write half logs into shared memory,
/// so the test can observe what went over the wire after the stream moved
/// into the upgraded wrapper.
struct MockStream {
    log: Rc<RefCell<Vec<u8>>>,
}

impl ByteSink for MockStream {
    fn write_all(&mut self, bytes: &[u8]) -> bool {
        self.log.borrow_mut().extend_from_slice(bytes);
        true
    }
}

struct MockConn {
    opened: Rc<RefCell<usize>>,
    log: Rc<RefCell<Vec<u8>>>,
}

impl Connection for MockConn {
    type Stream = MockStream;

    fn open_bidi(&mut self) -> Option<MockStream> {
        *self.opened.borrow_mut() += 1;
        Some(MockStream { log: self.log.clone() })
    }
}

struct MockEndpoint {
    have_connection: bool,
    dial_succeeds: bool,
    connects: usize,
    dialed: Vec<PeerId>,
    opened: Rc<RefCell<usize>>,
    log: Rc<RefCell<Vec<u8>>>,
}

impl Endpoint for MockEndpoint {
    type Conn = MockConn;
    type Ingress = u8;
    type Addr = u16;

    fn get_connection(&self, _to: &PeerId) -> Option<MockConn> {
        if self.have_connection {
            Some(MockConn { opened: self.opened.clone(), log: self.log.clone() })
        } else {
            None
        }
    }

    fn connect(&mut self, to: &PeerId, _addr_hints: &Vec<u16>) -> Option<(MockConn, u8)> {
        self.connects += 1;
        self.dialed.push(*to);
        if self.dial_succeeds {
            Some((MockConn { opened: self.opened.clone(), log: self.log.clone() }, 0))
        } else {
            None
        }
    }
}

struct MockSpawner {
    spawned: usize,
}

impl Spawner for MockSpawner {
    type Task = u8;

    fn spawn_detached(&mut self, _task: u8) {
        self.spawned += 1;
    }
}

struct MockPhone {
    events: Vec<String>,
}

impl EventSink for MockPhone {
    type Event = String;

    fn emit(&mut self, event: String) {
        self.events.push(event);
    }
}

struct MockHandler {
    handled: Vec<u32>,
}

impl TockHandler for MockHandler {
    type Tock = u32;

    fn tock(&mut self, tock: u32) {
        self.handled.push(tock);
    }
}

struct NullStorage;

impl link_core::storage::LocalStorage<u16> for NullStorage {
    type Update = u64;

    fn put(&mut self, _provider: (PeerId, Vec<u16>), has: u64) -> link_core::storage::PutResult<u64> {
        link_core::storage::PutResult::Applied(has)
    }

    fn ask(&self, _want: u64) -> bool {
        false
    }
}

fn fresh_state(have_connection: bool, dial_succeeds: bool) -> State<NullStorage, MockEndpoint, MockPhone, MockSpawner> {
    let opened = Rc::new(RefCell::new(0));
    let log = Rc::new(RefCell::new(Vec::new()));
    State {
        local_id: PeerId::new(1),
        endpoint: MockEndpoint {
            have_connection,
            dial_succeeds,
            connects: 0,
            dialed: Vec::new(),
            opened,
            log,
        },
        storage: Storage::new(NullStorage, StorageQuota::default()),
        phone: MockPhone { events: Vec::new() },
        spawner: MockSpawner { spawned: 0 },
        limits: RateLimits { membership: KeyedLimiter::new(Rate::per_second(1).allow_burst(10)) },
    }
}

#[test]
fn open_stream_reuses_existing_connection() {
    // With a connection already present: no dial, no spawn, one stream
    // opened, and exactly one repository-transfer announcement written.
    let mut state = fresh_state(true, true);
    let peer = PeerId::new(2);
    let result = state.open_stream(&peer, &vec![]);
    assert!(result.is_some());
    assert_eq!(state.endpoint.connects, 0);
    assert!(state.endpoint.dialed.is_empty());
    assert_eq!(state.spawner.spawned, 0);
    assert_eq!(*state.endpoint.opened.borrow(), 1);
    assert_eq!(*state.endpoint.log.borrow(), vec![0x82, 0x00, 0x01, 0xFF]);
}

#[test]
fn open_stream_bootstraps_missing_connection() {
    // Without a connection: exactly one dial and, on its success, exactly
    // one detached ingress consumer.
    let mut state = fresh_state(false, true);
    let peer = PeerId::new(2);
    let result = state.open_stream(&peer, &vec![9000]);
    assert!(result.is_some());
    assert_eq!(state.endpoint.connects, 1);
    assert_eq!(state.endpoint.dialed, vec![peer]);
    assert_eq!(state.spawner.spawned, 1);
    assert_eq!(*state.endpoint.opened.borrow(), 1);
    assert_eq!(*state.endpoint.log.borrow(), vec![0x82, 0x00, 0x01, 0xFF]);
}

#[test]
fn open_stream_dial_failure_spawns_nothing() {
    let mut state = fresh_state(false, false);
    let peer = PeerId::new(2);
    let result = state.open_stream(&peer, &vec![]);
    assert!(result.is_none());
    assert_eq!(state.endpoint.connects, 1);
    assert_eq!(state.endpoint.dialed, vec![peer]);
    assert_eq!(state.spawner.spawned, 0);
    assert_eq!(*state.endpoint.opened.borrow(), 0);
}

#[test]
fn git_stream_carries_payload_after_announcement() {
    // End to end: the upgraded stream's subsequent bytes follow the
    // four-byte announcement on the wire.
    let mut state = fresh_state(true, true);
    let peer = PeerId::new(2);
    let upgraded = state.open_stream(&peer, &vec![]).expect("stream");
    let mut stream = upgraded.into_stream();
    assert!(stream.write_all(&[0xAA, 0xBB]));
    assert_eq!(
        *state.endpoint.log.borrow(),
        vec![0x82, 0x00, 0x01, 0xFF, 0xAA, 0xBB]
    );
}

#[test]
fn emit_forwards_every_event_in_order() {
    let mut state = fresh_state(true, true);
    state.emit(vec!["a".to_string(), "b".to_string(), "c".to_string()]);
    state.emit(vec!["d".to_string()]);
    assert_eq!(state.phone.events, vec!["a", "b", "c", "d"]);
}

#[test]
fn tick_processes_tocks_in_submission_order() {
    let state = fresh_state(true, true);
    let mut handler = MockHandler { handled: Vec::new() };
    state.tick(&mut handler, vec![3, 1, 4, 1, 5]);
    assert_eq!(handler.handled, vec![3, 1, 4, 1, 5]);
}

#[test]
fn default_quota_matches_configuration() {
    let quota = Quota::default();
    assert_eq!(quota.membership.interval_nanos, 1_000_000_000);
    assert_eq!(quota.membership.burst, 10);
    assert_eq!(quota.gossip.fetches_per_peer_and_urn.interval_nanos, 60_000_000_000);
    assert_eq!(quota.gossip.fetches_per_peer_and_urn.burst, 5);
    let gossip = GossipQuota::default();
    assert_eq!(gossip.fetches_per_peer_and_urn.burst, 5);
}
