//! Runtime state of a protocol instance.
//!
//! [`State`] binds a peer's identity, its connection endpoint, the wrapped
//! storage, the event bus and the membership rate limiter into one record.
//! The collaborators the core drives but does not own — the endpoint, the
//! task spawner, the event bus, the tock handler — appear as traits whose
//! implementations live outside the core; their contracts state only the
//! bookkeeping the core's own guarantees are expressed over (what was
//! dialed, spawned, emitted, handled), never what the outside world
//! answers.

use vstd::prelude::*;

verus! {

use crate::limit::KeyedLimiter;
use crate::limit::Rate;
use crate::peer::PeerId;
use crate::storage::Storage;
use crate::storage::StorageQuota;
use crate::upgrade::ByteSink;
use crate::upgrade::Git;
use crate::upgrade::UpgradeRequest;
use crate::upgrade::Upgraded;
use crate::upgrade::spec_encode;
use crate::upgrade::upgrade;

/// The static rate configuration of a peer: per-peer membership churn,
/// per-peer-and-subject gossip fetches, and the storage wrapper's own pair.
#[derive(Debug, Clone)]
pub struct Quota {
    pub gossip: GossipQuota,
    pub membership: Rate,
    pub storage: StorageQuota,
}

impl Default for Quota {
    /// One membership message per second with a burst of ten, beside the
    /// gossip and storage defaults.
    fn default() -> (r: Self)
        ensures
            r.membership == (Rate { interval_nanos: 1_000_000_000, burst: 10 }),
            r.membership.valid(),
            r.gossip.fetches_per_peer_and_urn == (Rate {
                interval_nanos: 60_000_000_000,
                burst: 5,
            }),
            r.gossip.fetches_per_peer_and_urn.valid(),
            r.storage.valid(),
            r.storage.errors_spec() == (Rate { interval_nanos: 6_000_000_000, burst: 10 }),
            r.storage.wants_spec() == (Rate { interval_nanos: 2_000_000_000, burst: 30 }),
    {
        Quota {
            gossip: GossipQuota::default(),
            membership: Rate::per_second(1).allow_burst(10),
            storage: StorageQuota::default(),
        }
    }
}

/// Rate configuration of the gossip layer.
#[derive(Debug, Clone)]
pub struct GossipQuota {
    pub fetches_per_peer_and_urn: Rate,
}

impl Default for GossipQuota {
    /// One fetch per minute and peer-and-subject, with a burst of five.
    fn default() -> (r: Self)
        ensures
            r.fetches_per_peer_and_urn == (Rate { interval_nanos: 60_000_000_000, burst: 5 }),
            r.fetches_per_peer_and_urn.valid(),
    {
        GossipQuota { fetches_per_peer_and_urn: Rate::per_minute(1).allow_burst(5) }
    }
}

/// The limiters a peer applies to membership input, keyed by remote peer.
#[derive(Debug, Clone)]
pub struct RateLimits {
    pub membership: KeyedLimiter,
}

/// A connection endpoint: hands out existing connections and dials new
/// ones. What dialing achieves depends on the network; described are only
/// the presence test, the log of who was dialed and the count of dials
/// that succeeded, which is what the stream factory's guarantees are
/// stated over.
pub trait Endpoint {
    type Conn;
    type Ingress;
    type Addr;

    /// Whether a connection to `to` currently exists. The default stands
    /// in for implementations the verifier never sees; verified ones
    /// supply their own.
    open spec fn has_connection(&self, to: PeerId) -> bool {
        false
    }

    /// The peers this endpoint has dialed, in order.
    open spec fn dials(&self) -> Seq<PeerId> {
        Seq::empty()
    }

    /// How many of those dials succeeded.
    open spec fn connect_successes(&self) -> nat {
        0
    }

    fn get_connection(&self, to: &PeerId) -> (r: Option<Self::Conn>)
        ensures
            r is Some == self.has_connection(*to),
    ;

    fn connect(&mut self, to: &PeerId, addr_hints: &Vec<Self::Addr>) -> (r: Option<
        (Self::Conn, Self::Ingress),
    >)
        ensures
            final(self).dials() == old(self).dials().push(*to),
            r is Some ==> final(self).connect_successes() == old(self).connect_successes() + 1,
            r is None ==> final(self).connect_successes() == old(self).connect_successes(),
    ;
}

/// A connection that can open fresh bidirectional streams. A fresh stream
/// has carried nothing yet.
pub trait Connection {
    type Stream: ByteSink;

    fn open_bidi(&mut self) -> (r: Option<Self::Stream>)
        ensures
            r matches Some(stream) ==> stream.written() == Seq::<u8>::empty(),
    ;
}

/// A task-spawning capability. The core only ever hands a task over and
/// detaches it; the count is what "spawns exactly once" is stated over.
pub trait Spawner {
    type Task;

    /// How many tasks have been spawned.
    open spec fn spawn_count(&self) -> nat {
        0
    }

    fn spawn_detached(&mut self, task: Self::Task)
        ensures
            final(self).spawn_count() == old(self).spawn_count() + 1,
    ;
}

/// The event bus emitter. Emission never fails and never blocks; the bus
/// may drop overflow downstream, so the log records what was submitted, in
/// order.
pub trait EventSink {
    type Event;

    /// Every event submitted so far, oldest first.
    open spec fn events(&self) -> Seq<Self::Event> {
        Seq::empty()
    }

    fn emit(&mut self, event: Self::Event)
        ensures
            final(self).events() == old(self).events().push(event),
    ;
}

/// The handler of scheduled side-effects ("tocks") coming out of the
/// membership and gossip machinery. The log records submission order.
pub trait TockHandler {
    type Tock;

    /// Every tock handled so far, oldest first.
    open spec fn handled(&self) -> Seq<Self::Tock> {
        Seq::empty()
    }

    fn tock(&mut self, tock: Self::Tock)
        ensures
            final(self).handled() == old(self).handled().push(tock),
    ;
}

/// Runtime state of a protocol instance: the peer's identity and the
/// resources it coordinates.
///
/// The record is a plain value: cloning copies it, limiter state
/// included. A deployment that shares one peer instance across tasks
/// layers cheap handles (reference-counted, internally synchronized) over
/// this record; that sharing is interior mutability and lives outside the
/// verified core. The full runtime also carries collaborators the core's
/// decisions never read — the repository server, the membership state
/// machine, its configuration, the nonce bag and the gossip caches; they
/// stay with the embedding (the membership rate limiter, which the core
/// does own, is here).
#[derive(Debug, Clone)]
pub struct State<S, E, P, W> {
    pub local_id: PeerId,
    pub endpoint: E,
    pub storage: Storage<S>,
    pub phone: P,
    pub spawner: W,
    pub limits: RateLimits,
}

impl<S, E, P: EventSink, W> State<S, E, P, W> {
    /// Forward each event to the event bus, in order, converting nothing
    /// away: afterwards the bus has seen exactly the old submissions
    /// followed by `events`. Emission cannot fail.
    pub fn emit(&mut self, events: Vec<P::Event>)
        ensures
            final(self).phone.events() == old(self).phone.events() + events@,
            final(self).local_id == old(self).local_id,
            final(self).endpoint == old(self).endpoint,
            final(self).storage == old(self).storage,
            final(self).spawner == old(self).spawner,
            final(self).limits == old(self).limits,
    {
        let ghost all = events@;
        let mut events = events;
        let ghost done: int = 0;
        while events.len() > 0
            invariant
                0 <= done <= all.len(),
                events@ == all.skip(done),
                self.phone.events() == old(self).phone.events() + all.take(done),
                self.local_id == old(self).local_id,
                self.endpoint == old(self).endpoint,
                self.storage == old(self).storage,
                self.spawner == old(self).spawner,
                self.limits == old(self).limits,
            decreases events@.len(),
        {
            let e = events.remove(0);
            self.phone.emit(e);
            proof {
                assert(all.take(done + 1) =~= all.take(done).push(all[done]));
                assert(events@ =~= all.skip(done + 1));
            }
            proof {
                done = done + 1;
            }
        }
        proof {
            assert(all.take(done) =~= all);
        }
    }
}

impl<S, E, P, W> State<S, E, P, W> {
    /// Process a batch of scheduled actions: each is dispatched to the
    /// handler, strictly in submission order.
    pub fn tick<H: TockHandler>(&self, handler: &mut H, tocks: Vec<H::Tock>)
        ensures
            final(handler).handled() == old(handler).handled() + tocks@,
    {
        let ghost all = tocks@;
        let mut tocks = tocks;
        let ghost done: int = 0;
        while tocks.len() > 0
            invariant
                0 <= done <= all.len(),
                tocks@ == all.skip(done),
                handler.handled() == old(handler).handled() + all.take(done),
            decreases tocks@.len(),
        {
            let t = tocks.remove(0);
            handler.tock(t);
            proof {
                assert(all.take(done + 1) =~= all.take(done).push(all[done]));
                assert(tocks@ =~= all.skip(done + 1));
            }
            proof {
                done = done + 1;
            }
        }
        proof {
            assert(all.take(done) =~= all);
        }
    }
}

impl<S, E, P, W> State<S, E, P, W> where
    E: Endpoint,
    E::Conn: Connection,
    W: Spawner<Task = E::Ingress>,
 {
    /// Obtain a stream to `to` upgraded to the repository-transfer
    /// sub-protocol. An existing connection is reused without dialing or
    /// spawning; otherwise `to` itself is dialed, exactly once, and
    /// exactly on that dial's success one detached task is handed the
    /// connection's ingress before any stream is opened (a failed dial
    /// yields `None` and spawns nothing). A returned stream has carried
    /// exactly the repository-transfer announcement and nothing else.
    /// Connection, stream-opening and upgrade failures all yield `None`;
    /// none of them is fatal to the peer.
    pub fn open_stream(&mut self, to: &PeerId, addr_hints: &Vec<E::Addr>) -> (r: Option<
        Upgraded<Git, <E::Conn as Connection>::Stream>,
    >)
        ensures
            old(self).endpoint.has_connection(*to) ==> final(self).endpoint == old(self).endpoint
                && final(self).spawner == old(self).spawner,
            !old(self).endpoint.has_connection(*to) ==> final(self).endpoint.dials() == old(
                self,
            ).endpoint.dials().push(*to),
            final(self).spawner.spawn_count() + old(self).endpoint.connect_successes() == old(
                self,
            ).spawner.spawn_count() + final(self).endpoint.connect_successes(),
            final(self).spawner.spawn_count() <= old(self).spawner.spawn_count() + 1,
            !old(self).endpoint.has_connection(*to) && r is Some
                ==> final(self).spawner.spawn_count() == old(self).spawner.spawn_count() + 1,
            !old(self).endpoint.has_connection(*to) && final(self).endpoint.connect_successes()
                == old(self).endpoint.connect_successes() ==> r is None,
            r matches Some(up) ==> up.spec_stream().written() == spec_encode(UpgradeRequest::Git),
            final(self).local_id == old(self).local_id,
            final(self).storage == old(self).storage,
            final(self).phone == old(self).phone,
            final(self).limits == old(self).limits,
    {
        let may_conn: Option<E::Conn> = match self.endpoint.get_connection(to) {
            Some(conn) => Some(conn),
            None => {
                match self.endpoint.connect(to, addr_hints) {
                    Some((conn, ingress)) => {
                        self.spawner.spawn_detached(ingress);
                        Some(conn)
                    },
                    None => None,
                }
            },
        };
        match may_conn {
            None => None,
            Some(conn) => {
                let mut conn = conn;
                match conn.open_bidi() {
                    None => None,
                    Some(stream) => {
                        match upgrade(stream, Git) {
                            Ok(upgraded) => Some(upgraded),
                            Err(_denied) => None,
                        }
                    },
                }
            },
        }
    }
}

} // verus!
