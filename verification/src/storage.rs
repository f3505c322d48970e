//! Gossip-facing storage with embedded admission control.
//!
//! [`Storage`] borrows an inner storage handle and adds two rate limits on
//! the hot path: a global one on error emission and a per-peer one on
//! "wants". It is transparent to the gossip layer's broadcast contract:
//! `put` and `ask` forward verbatim to the inner storage, never reordered,
//! retried or dropped. Admission is advisory and reported separately
//! through [`Storage::is_rate_limit_breached_at`].

use vstd::prelude::*;

verus! {

use crate::limit::Admission;
use crate::limit::DirectLimiter;
use crate::limit::KeyedLimiter;
use crate::limit::MAX_NOW_NANOS;
use crate::limit::Rate;
use crate::limit::spec_admit;
use crate::limit::spec_find;
use crate::limit::spec_key_tat;
use crate::limit::spec_next_tat;
use crate::limit::spec_sweep;
use crate::peer::PeerId;

/// Entry count above which the next wants admission sweeps the keyed map.
pub const WANTS_SWEEP_THRESHOLD: usize = 8192;

/// What applying a gossip update to local storage produced.
#[derive(Debug, Clone, Copy, PartialEq, Eq)]
pub enum PutResult<Update> {
    /// The update was new and has been applied.
    Applied(Update),
    /// The update was older than what is stored.
    Stale,
    /// The update does not concern this peer.
    Uninteresting,
    /// Applying the update failed.
    Error,
}

/// The limit an admission query consults.
#[derive(Debug, Clone, Copy, PartialEq, Eq, Structural)]
pub enum Limit {
    /// The global limit on error emission.
    Errors,
    /// The per-peer limit on wants sent to `recipient`.
    Wants { recipient: PeerId },
}

/// Local storage as the gossip layer sees it, parameterized over the address
/// type `A` carried beside a provider. Implementations live outside the
/// core (the real repository storage, in-memory doubles in tests); the spec
/// functions name what each implementation's operations do, so that
/// wrappers can be shown to forward verbatim.
pub trait LocalStorage<A>: Sized {
    /// The type of gossip updates this storage applies.
    type Update;

    /// The result `put` returns in the given state. The defaults here
    /// stand in for implementations the verifier never sees; verified
    /// ones supply their own.
    open spec fn put_result_spec(self, provider: (PeerId, Vec<A>), has: Self::Update) -> PutResult<
        Self::Update,
    > {
        PutResult::Error
    }

    /// The state `put` leaves behind.
    open spec fn put_state_spec(self, provider: (PeerId, Vec<A>), has: Self::Update) -> Self {
        self
    }

    /// Whether this storage can satisfy a want.
    open spec fn ask_spec(self, want: Self::Update) -> bool {
        false
    }

    /// Apply an update offered by `provider`.
    fn put(&mut self, provider: (PeerId, Vec<A>), has: Self::Update) -> (r: PutResult<
        Self::Update,
    >)
        ensures
            r == old(self).put_result_spec(provider, has),
            *final(self) == old(self).put_state_spec(provider, has),
    ;

    /// Answer whether a wanted update is available here.
    fn ask(&self, want: Self::Update) -> (r: bool)
        ensures
            r == self.ask_spec(want),
    ;
}

/// The rates the storage wrapper limits with.
#[derive(Debug, Clone)]
pub struct StorageQuota {
    errors: Rate,
    wants: Rate,
}

impl StorageQuota {
    /// The global error-emission rate.
    pub closed spec fn errors_spec(self) -> Rate {
        self.errors
    }

    /// The per-peer wants rate.
    pub closed spec fn wants_spec(self) -> Rate {
        self.wants
    }

    pub open spec fn valid(self) -> bool {
        self.errors_spec().valid() && self.wants_spec().valid()
    }
}

impl Default for StorageQuota {
    /// Ten error emissions per minute globally; thirty wants per minute and
    /// peer.
    fn default() -> (r: Self)
        ensures
            r.valid(),
            r.errors_spec() == (Rate { interval_nanos: 6_000_000_000, burst: 10 }),
            r.wants_spec() == (Rate { interval_nanos: 2_000_000_000, burst: 30 }),
    {
        StorageQuota { errors: Rate::per_minute(10), wants: Rate::per_minute(30) }
    }
}

#[derive(Debug, Clone)]
struct StorageLimits {
    errors: DirectLimiter,
    wants: KeyedLimiter,
}

/// An inner storage handle together with the two limiters gating its hot
/// path.
///
/// The wrapper is a plain value: cloning copies it, limiter state
/// included. A deployment that wants one admission state shared across
/// tasks layers handles over a single instance; that sharing is interior
/// mutability and lives outside the verified core.
#[derive(Debug, Clone)]
pub struct Storage<S> {
    inner: S,
    limits: StorageLimits,
}

impl<S> Storage<S> {
    /// The wrapped storage.
    pub closed spec fn inner_spec(self) -> S {
        self.inner
    }

    /// The global error-emission limiter.
    pub closed spec fn errors_limiter_spec(self) -> DirectLimiter {
        self.limits.errors
    }

    /// The keyed wants limiter.
    pub closed spec fn wants_limiter_spec(self) -> KeyedLimiter {
        self.limits.wants
    }

    pub open spec fn wf(self) -> bool {
        self.errors_limiter_spec().wf() && self.wants_limiter_spec().wf()
    }

    pub fn new(inner: S, quota: StorageQuota) -> (r: Self)
        requires
            quota.valid(),
        ensures
            r.wf(),
            r.inner_spec() == inner,
            r.errors_limiter_spec().rate_spec() == quota.errors_spec(),
            r.errors_limiter_spec().tat_spec() == 0,
            r.wants_limiter_spec().rate_spec() == quota.wants_spec(),
            r.wants_limiter_spec().entries_spec() == Seq::<(PeerId, u64)>::empty(),
    {
        Storage {
            inner,
            limits: StorageLimits {
                errors: DirectLimiter::new(quota.errors),
                wants: KeyedLimiter::new(quota.wants),
            },
        }
    }

    /// Borrow the wrapped storage for read operations.
    pub fn inner(&self) -> (r: &S)
        ensures
            *r == self.inner_spec(),
    {
        &self.inner
    }

    /// Whether `lim` is currently breached, deciding at the instant `now`.
    /// `Errors` consults the global limiter, `Wants` the per-recipient
    /// bucket; an oversize wants map is swept first, which drops only
    /// buckets whose absence is indistinguishable from their presence (see
    /// [`crate::limit::lemma_sweep_find`]). The inner storage is never
    /// touched.
    pub fn is_rate_limit_breached_at(&mut self, lim: Limit, now: u64) -> (breached: bool)
        requires
            old(self).wf(),
            now <= MAX_NOW_NANOS,
        ensures
            final(self).wf(),
            final(self).inner_spec() == old(self).inner_spec(),
            spec_breached_at(*old(self), *final(self), lim, now as int, breached),
    {
        match lim {
            Limit::Errors => {
                let decision = self.limits.errors.check_at(now);
                decision == Admission::TooSoon
            },
            Limit::Wants { recipient } => {
                if self.limits.wants.len() > WANTS_SWEEP_THRESHOLD {
                    self.limits.wants.retain_recent_at(now);
                }
                let decision = self.limits.wants.check_key_at(recipient, now);
                decision == Admission::TooSoon
            },
        }
    }

    /// Whether `lim` is breached at the consulted limiter's own clock.
    /// Which instant the clock answers is not ours to promise, but the
    /// answer is genuine: for some reading, this is exactly
    /// [`Storage::is_rate_limit_breached_at`].
    pub fn is_rate_limit_breached(&mut self, lim: Limit) -> (breached: bool)
        requires
            old(self).wf(),
        ensures
            final(self).wf(),
            final(self).inner_spec() == old(self).inner_spec(),
            exists|now: u64|
                now <= MAX_NOW_NANOS && #[trigger] spec_breached_at(
                    *old(self),
                    *final(self),
                    lim,
                    now as int,
                    breached,
                ),
    {
        let now = match lim {
            Limit::Errors => self.limits.errors.clock_now(),
            Limit::Wants { recipient: _ } => self.limits.wants.clock_now(),
        };
        let breached = self.is_rate_limit_breached_at(lim, now);
        proof {
            assert(spec_breached_at(*old(self), *self, lim, now as int, breached));
        }
        breached
    }
}

/// What one admission query at the instant `now` does. `Errors` is the
/// direct bucket's genuine answer, advancing it and leaving the wants map
/// alone. `Wants` first sweeps an oversize map (dropping only buckets full
/// at `now`), then answers from the recipient's bucket, advancing it,
/// touching no other key and growing the map by at most the recipient's
/// fresh bucket; the direct bucket stands.
pub open spec fn spec_breached_at<S>(
    pre: Storage<S>,
    post: Storage<S>,
    lim: Limit,
    now: int,
    breached: bool,
) -> bool {
    &&& post.errors_limiter_spec().rate_spec() == pre.errors_limiter_spec().rate_spec()
    &&& post.wants_limiter_spec().rate_spec() == pre.wants_limiter_spec().rate_spec()
    &&& match lim {
        Limit::Errors => {
            &&& breached != spec_admit(
                pre.errors_limiter_spec().rate_spec(),
                pre.errors_limiter_spec().tat_spec() as int,
                now,
            )
            &&& post.errors_limiter_spec().tat_spec() == spec_next_tat(
                pre.errors_limiter_spec().rate_spec(),
                pre.errors_limiter_spec().tat_spec() as int,
                now,
            )
            &&& post.wants_limiter_spec() == pre.wants_limiter_spec()
        },
        Limit::Wants { recipient } => {
            let swept = if pre.wants_limiter_spec().entries_spec().len() > WANTS_SWEEP_THRESHOLD {
                spec_sweep(pre.wants_limiter_spec().entries_spec(), now)
            } else {
                pre.wants_limiter_spec().entries_spec()
            };
            &&& breached != spec_admit(
                pre.wants_limiter_spec().rate_spec(),
                spec_key_tat(swept, recipient, now),
                now,
            )
            &&& spec_find(post.wants_limiter_spec().entries_spec(), recipient) == Some(
                spec_next_tat(
                    pre.wants_limiter_spec().rate_spec(),
                    spec_key_tat(swept, recipient, now),
                    now,
                ) as u64,
            )
            &&& forall|k2: PeerId|
                k2 != recipient ==> #[trigger] spec_find(
                    post.wants_limiter_spec().entries_spec(),
                    k2,
                ) == spec_find(swept, k2)
            &&& post.wants_limiter_spec().entries_spec().len() <= pre.wants_limiter_spec(
            ).entries_spec().len() + 1
            &&& post.errors_limiter_spec() == pre.errors_limiter_spec()
        },
    }
}

impl<A, S: LocalStorage<A>> LocalStorage<A> for Storage<S> {
    type Update = S::Update;

    /// Exactly what the inner storage would answer: the wrapper reports
    /// admission elsewhere and never interferes with the broadcast
    /// contract.
    open spec fn put_result_spec(self, provider: (PeerId, Vec<A>), has: S::Update) -> PutResult<
        S::Update,
    > {
        self.inner_spec().put_result_spec(provider, has)
    }

    /// The inner storage moves to its own next state; the limiters stand
    /// (spelled out by [`lemma_put_state_forwards`], since this function
    /// must build the record from its private fields).
    closed spec fn put_state_spec(self, provider: (PeerId, Vec<A>), has: S::Update) -> Self {
        Storage { inner: self.inner.put_state_spec(provider, has), limits: self.limits }
    }

    open spec fn ask_spec(self, want: S::Update) -> bool {
        self.inner_spec().ask_spec(want)
    }

    /// Forward verbatim to the inner storage.
    fn put(&mut self, provider: (PeerId, Vec<A>), has: S::Update) -> (r: PutResult<S::Update>) {
        self.inner.put(provider, has)
    }

    /// Forward verbatim to the inner storage.
    fn ask(&self, want: S::Update) -> (r: bool) {
        self.inner.ask(want)
    }
}

/// `put` forwards verbatim: the state it leaves is the wrapper around the
/// inner storage's own next state, with both limiters untouched. (The
/// result and `ask` forward too; their spec functions say so openly.)
pub proof fn lemma_put_state_forwards<A, S: LocalStorage<A>>(
    s: Storage<S>,
    provider: (PeerId, Vec<A>),
    has: S::Update,
)
    ensures
        s.put_state_spec(provider, has).inner_spec() == s.inner_spec().put_state_spec(
            provider,
            has,
        ),
        s.put_state_spec(provider, has).errors_limiter_spec() == s.errors_limiter_spec(),
        s.put_state_spec(provider, has).wants_limiter_spec() == s.wants_limiter_spec(),
{
}

} // verus!
