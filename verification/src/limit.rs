//! Token-bucket rate limiting over integer nanoseconds of monotonic time.
//!
//! A limiter is configured with a [`Rate`]: a replenish interval and a burst
//! capacity. Admission follows the classic cell-rate scheme: each bucket
//! keeps a theoretical arrival time `tat`; a request at time `now` is
//! granted when `max(tat, now) + interval <= now + burst * interval`, and a
//! grant advances `tat` by one interval. A bucket whose `tat` is at or
//! behind the clock is full: it holds its whole burst, and forgetting it is
//! observationally equivalent to keeping it, which is what the keyed
//! limiter's sweep exploits.
//!
//! All decisions are taken by [`DirectLimiter::check_at`] and
//! [`KeyedLimiter::check_key_at`] on a caller-supplied instant, so every
//! admission is verified for any reading of the clock; `check` and
//! `check_key` merely feed them the process clock.
//!
//! Limiters are plain values: cloning one copies its bucket state. Where a
//! deployment shares one limiter across tasks, it layers a handle over a
//! single instance; that sharing is interior mutability and lives outside
//! the verified core.

use vstd::prelude::*;

verus! {

use crate::clock::MonotonicClock;
use crate::peer::PeerId;

/// Largest burst capacity a [`Rate`] may carry.
pub const MAX_BURST: u64 = 1_048_576;

/// Largest replenish interval a [`Rate`] may carry, comfortably above one
/// minute.
pub const MAX_INTERVAL_NANOS: u64 = 68_719_476_736;

/// Largest clock reading the admission arithmetic accepts.
pub const MAX_NOW_NANOS: u64 = 4_611_686_018_427_387_904;

/// Largest theoretical arrival time a well-formed bucket can reach: a grant
/// never pushes `tat` past `now + burst * interval`.
pub const MAX_TAT_NANOS: u64 = MAX_NOW_NANOS + MAX_BURST * MAX_INTERVAL_NANOS;

/// A replenish interval and a burst capacity: the bucket refills one token
/// every `interval_nanos`, and holds at most `burst` tokens.
#[derive(Debug, Clone, Copy, PartialEq, Eq, Structural)]
pub struct Rate {
    pub interval_nanos: u64,
    pub burst: u64,
}

impl Rate {
    /// The bounds under which all admission arithmetic is proved exact.
    pub open spec fn valid(self) -> bool {
        &&& 1 <= self.interval_nanos <= MAX_INTERVAL_NANOS
        &&& 1 <= self.burst <= MAX_BURST
    }

    /// `n` tokens per second, with a burst of `n`.
    pub fn per_second(n: u64) -> (r: Rate)
        requires
            1 <= n <= MAX_BURST,
        ensures
            r.valid(),
            r.interval_nanos == 1_000_000_000u64 as int / n as int,
            r.burst == n,
    {
        proof {
            assert(1 <= 1_000_000_000 as int / n as int <= 1_000_000_000) by (nonlinear_arith)
                requires
                    1 <= n <= 1_048_576,
            ;
        }
        Rate { interval_nanos: 1_000_000_000 / n, burst: n }
    }

    /// `n` tokens per minute, with a burst of `n`.
    pub fn per_minute(n: u64) -> (r: Rate)
        requires
            1 <= n <= MAX_BURST,
        ensures
            r.valid(),
            r.interval_nanos == 60_000_000_000u64 as int / n as int,
            r.burst == n,
    {
        proof {
            assert(1 <= 60_000_000_000 as int / n as int <= 60_000_000_000) by (nonlinear_arith)
                requires
                    1 <= n <= 1_048_576,
            ;
        }
        Rate { interval_nanos: 60_000_000_000 / n, burst: n }
    }

    /// The same replenish interval with a burst of `burst`.
    pub fn allow_burst(self, burst: u64) -> (r: Rate)
        requires
            self.valid(),
            1 <= burst <= MAX_BURST,
        ensures
            r.valid(),
            r.interval_nanos == self.interval_nanos,
            r.burst == burst,
    {
        Rate { interval_nanos: self.interval_nanos, burst }
    }
}

/// The answer of a limiter: a token was available and has been consumed, or
/// the request came too soon.
#[derive(Debug, Clone, Copy, PartialEq, Eq, Structural)]
pub enum Admission {
    Granted,
    TooSoon,
}

/// The theoretical arrival time a bucket acts on at `now`: a bucket never
/// acts as if it were fuller than empty-at-`now`.
pub open spec fn spec_tat_effective(tat: int, now: int) -> int {
    if tat > now {
        tat
    } else {
        now
    }
}

/// Whether a bucket with theoretical arrival time `tat` grants a token at
/// `now` under `rate`.
pub open spec fn spec_admit(rate: Rate, tat: int, now: int) -> bool {
    spec_tat_effective(tat, now) + rate.interval_nanos <= now + rate.burst * rate.interval_nanos
}

/// The bucket's theoretical arrival time after a request at `now`: a grant
/// advances it by one interval, a refusal leaves it alone.
pub open spec fn spec_next_tat(rate: Rate, tat: int, now: int) -> int {
    if spec_admit(rate, tat, now) {
        spec_tat_effective(tat, now) + rate.interval_nanos
    } else {
        tat
    }
}

/// A fresh bucket (theoretical arrival time at or behind the clock) always
/// grants, and a full bucket behaves exactly like a fresh one: granting at
/// `now` and granting after having been forgotten advance to the same state.
/// This is what makes the keyed sweep invisible to its peers.
pub proof fn lemma_full_bucket_fresh(rate: Rate, tat: int, now: int)
    requires
        rate.valid(),
        tat <= now,
    ensures
        spec_admit(rate, tat, now),
        spec_admit(rate, tat, now) == spec_admit(rate, now, now),
        spec_next_tat(rate, tat, now) == spec_next_tat(rate, now, now),
{
    assert(rate.interval_nanos * 1 <= rate.burst * rate.interval_nanos) by (nonlinear_arith)
        requires
            1 <= rate.burst,
            0 <= rate.interval_nanos,
    ;
}

/// The bucket's theoretical arrival time after `k` grants all taken at the
/// instant `t`, starting from a bucket full at `t`.
pub open spec fn spec_tat_after_grants(rate: Rate, t: int, k: nat) -> int {
    t + k * rate.interval_nanos
}

/// The burst is exactly the limit: starting from a full bucket, the `k`-th
/// request at the same instant is granted precisely when fewer than
/// `burst` tokens are already spent, and each grant advances the bucket by
/// one interval. In particular a burst of five admits five immediate
/// requests and refuses the sixth.
pub proof fn lemma_burst_is_the_limit(rate: Rate, t: int, k: nat)
    requires
        rate.valid(),
        0 <= t,
    ensures
        spec_admit(rate, spec_tat_after_grants(rate, t, k), t) == ((k as int)
            < rate.burst as int),
        (k as int) < rate.burst as int ==> spec_next_tat(
            rate,
            spec_tat_after_grants(rate, t, k),
            t,
        ) == spec_tat_after_grants(rate, t, (k + 1) as nat),
{
    let i = rate.interval_nanos as int;
    let b = rate.burst as int;
    assert(k * i >= 0) by (nonlinear_arith)
        requires
            k >= 0 && i >= 0,
    ;
    assert((k * i + i <= b * i) == (k as int + 1 <= b)) by (nonlinear_arith)
        requires
            i >= 1,
    ;
    assert(k * i + i == (k as int + 1) * i) by (nonlinear_arith);
}

/// A bucket's theoretical arrival time never recedes: admission for one
/// key is monotonic in time under a single limiter, and no request can
/// ever make a bucket fuller than a fresh one.
pub proof fn lemma_tat_never_recedes(rate: Rate, tat: int, now: int)
    requires
        rate.valid(),
        0 <= tat,
        0 <= now,
    ensures
        spec_next_tat(rate, tat, now) >= tat,
{
}

/// A single token bucket.
#[derive(Debug, Clone)]
pub struct DirectLimiter {
    rate: Rate,
    tat: u64,
    clock: MonotonicClock,
}

impl DirectLimiter {
    /// The configured rate.
    pub closed spec fn rate_spec(self) -> Rate {
        self.rate
    }

    /// The bucket's theoretical arrival time.
    pub closed spec fn tat_spec(self) -> u64 {
        self.tat
    }

    pub open spec fn wf(self) -> bool {
        &&& self.rate_spec().valid()
        &&& self.tat_spec() <= MAX_TAT_NANOS
    }

    /// A full bucket under `rate`, with its own clock starting now.
    pub fn new(rate: Rate) -> (r: Self)
        requires
            rate.valid(),
        ensures
            r.wf(),
            r.rate_spec() == rate,
            r.tat_spec() == 0,
    {
        DirectLimiter { rate, tat: 0, clock: MonotonicClock::new() }
    }

    /// Decide admission at the instant `now`, consuming a token on a grant.
    pub fn check_at(&mut self, now: u64) -> (r: Admission)
        requires
            old(self).wf(),
            now <= MAX_NOW_NANOS,
        ensures
            final(self).wf(),
            spec_checked_at(*old(self), *final(self), now as int, r),
    {
        let rate = self.rate;
        proof {
            assert(rate.burst * rate.interval_nanos <= MAX_BURST * MAX_INTERVAL_NANOS)
                by (nonlinear_arith)
                requires
                    1 <= rate.burst <= MAX_BURST,
                    1 <= rate.interval_nanos <= MAX_INTERVAL_NANOS,
            ;
        }
        let credit: u64 = rate.burst * rate.interval_nanos;
        let tat_eff: u64 = if self.tat > now {
            self.tat
        } else {
            now
        };
        if tat_eff + rate.interval_nanos <= now + credit {
            self.tat = tat_eff + rate.interval_nanos;
            Admission::Granted
        } else {
            Admission::TooSoon
        }
    }

    /// The limiter's own clock, clamped to the range the admission
    /// arithmetic is proved for.
    pub fn clock_now(&self) -> (r: u64)
        ensures
            r <= MAX_NOW_NANOS,
    {
        self.clock.now_nanos()
    }

    /// Decide admission at the clock's current reading. Which instant the
    /// clock answers is not ours to promise, but the decision is the
    /// bucket's genuine answer at that instant: for some reading, this is
    /// exactly [`DirectLimiter::check_at`].
    pub fn check(&mut self) -> (r: Admission)
        requires
            old(self).wf(),
        ensures
            final(self).wf(),
            exists|now: u64|
                now <= MAX_NOW_NANOS && #[trigger] spec_checked_at(
                    *old(self),
                    *final(self),
                    now as int,
                    r,
                ),
    {
        let now = self.clock.now_nanos();
        let r = self.check_at(now);
        proof {
            assert(spec_checked_at(*old(self), *self, now as int, r));
        }
        r
    }
}

/// What one direct admission at the instant `now` does: the answer is
/// exactly the bucket's, the bucket advances exactly by the scheme, and
/// the rate stands.
pub open spec fn spec_checked_at(
    pre: DirectLimiter,
    post: DirectLimiter,
    now: int,
    r: Admission,
) -> bool {
    &&& (r == Admission::Granted) == spec_admit(pre.rate_spec(), pre.tat_spec() as int, now)
    &&& post.tat_spec() == spec_next_tat(pre.rate_spec(), pre.tat_spec() as int, now)
    &&& post.rate_spec() == pre.rate_spec()
}

/// The bucket a keyed limiter holds for `k`: its theoretical arrival time,
/// if the key has ever been touched (and not swept since).
pub open spec fn spec_find(entries: Seq<(PeerId, u64)>, k: PeerId) -> Option<u64>
    decreases entries.len(),
{
    if entries.len() == 0 {
        None
    } else if entries[0].0 == k {
        Some(entries[0].1)
    } else {
        spec_find(entries.drop_first(), k)
    }
}

/// The theoretical arrival time key `k` acts with at `now`: its bucket's if
/// it has one, else that of a fresh (full) bucket.
pub open spec fn spec_key_tat(entries: Seq<(PeerId, u64)>, k: PeerId, now: int) -> int {
    match spec_find(entries, k) {
        Some(t) => t as int,
        None => now,
    }
}

/// No key occurs twice.
pub open spec fn spec_keys_unique(entries: Seq<(PeerId, u64)>) -> bool {
    forall|i: int, j: int|
        0 <= i < j < entries.len() ==> (#[trigger] entries[i]).0 != (#[trigger] entries[j]).0
}

/// What the sweep leaves: the entries whose bucket still owes time at
/// `now`, in their original order.
pub open spec fn spec_sweep(entries: Seq<(PeerId, u64)>, now: int) -> Seq<(PeerId, u64)>
    decreases entries.len(),
{
    if entries.len() == 0 {
        Seq::empty()
    } else {
        let rest = spec_sweep(entries.drop_first(), now);
        if entries[0].1 > now {
            seq![entries[0]] + rest
        } else {
            rest
        }
    }
}

proof fn lemma_find_first(entries: Seq<(PeerId, u64)>, k: PeerId, j: int)
    requires
        0 <= j < entries.len(),
        forall|m: int| 0 <= m < j ==> (#[trigger] entries[m]).0 != k,
        entries[j].0 == k,
    ensures
        spec_find(entries, k) == Some(entries[j].1),
    decreases j,
{
    if j > 0 {
        assert(entries[0].0 != k);
        assert forall|m: int| 0 <= m < j - 1 implies (#[trigger] entries.drop_first()[m]).0 != k by {
            assert(entries[m + 1].0 != k);
        }
        lemma_find_first(entries.drop_first(), k, j - 1);
    }
}

proof fn lemma_find_absent(entries: Seq<(PeerId, u64)>, k: PeerId)
    requires
        forall|m: int| 0 <= m < entries.len() ==> (#[trigger] entries[m]).0 != k,
    ensures
        spec_find(entries, k) is None,
    decreases entries.len(),
{
    if entries.len() > 0 {
        assert forall|m: int|
            0 <= m < entries.drop_first().len() implies (#[trigger] entries.drop_first()[m]).0
            != k by {
            assert(entries[m + 1].0 != k);
        }
        lemma_find_absent(entries.drop_first(), k);
    }
}

proof fn lemma_present_find_some(entries: Seq<(PeerId, u64)>, k: PeerId, j: int)
    requires
        0 <= j < entries.len(),
        entries[j].0 == k,
    ensures
        spec_find(entries, k) is Some,
    decreases j,
{
    if entries[0].0 != k {
        assert(entries.drop_first()[j - 1] == entries[j]);
        lemma_present_find_some(entries.drop_first(), k, j - 1);
    }
}

proof fn lemma_find_update_same_key(entries: Seq<(PeerId, u64)>, i: int, v: u64, k2: PeerId)
    requires
        0 <= i < entries.len(),
        entries[i].0 != k2,
    ensures
        spec_find(entries.update(i, (entries[i].0, v)), k2) == spec_find(entries, k2),
    decreases i,
{
    let updated = entries.update(i, (entries[i].0, v));
    if i == 0 {
        assert(updated.drop_first() =~= entries.drop_first());
    } else {
        assert(updated[0] == entries[0]);
        if entries[0].0 != k2 {
            assert(updated.drop_first() =~= entries.drop_first().update(
                i - 1,
                (entries.drop_first()[i - 1].0, v),
            ));
            lemma_find_update_same_key(entries.drop_first(), i - 1, v, k2);
        }
    }
}

proof fn lemma_find_update_first(entries: Seq<(PeerId, u64)>, i: int, v: u64, k: PeerId)
    requires
        0 <= i < entries.len(),
        entries[i].0 == k,
        forall|m: int| 0 <= m < i ==> (#[trigger] entries[m]).0 != k,
    ensures
        spec_find(entries.update(i, (k, v)), k) == Some(v),
    decreases i,
{
    let updated = entries.update(i, (k, v));
    assert forall|m: int| 0 <= m < i implies (#[trigger] updated[m]).0 != k by {
        assert(updated[m] == entries[m]);
    }
    assert(updated[i].0 == k);
    lemma_find_first(updated, k, i);
}

proof fn lemma_find_push(entries: Seq<(PeerId, u64)>, k: PeerId, v: u64, k2: PeerId)
    ensures
        spec_find(entries.push((k, v)), k2) == (if spec_find(entries, k2) is Some {
            spec_find(entries, k2)
        } else if k2 == k {
            Some(v)
        } else {
            None::<u64>
        }),
    decreases entries.len(),
{
    let pushed = entries.push((k, v));
    if entries.len() == 0 {
        assert(pushed[0] == (k, v));
        assert(pushed.drop_first() =~= entries);
        assert(spec_find(entries, k2) is None);
    } else {
        assert(pushed[0] == entries[0]);
        assert(pushed.drop_first() =~= entries.drop_first().push((k, v)));
        lemma_find_push(entries.drop_first(), k, v, k2);
    }
}

/// The sweep holds buckets exactly where they still owe time: a swept map
/// answers every lookup as the unswept map filtered at `now` would.
pub proof fn lemma_sweep_find(entries: Seq<(PeerId, u64)>, now: int, k: PeerId)
    requires
        spec_keys_unique(entries),
    ensures
        spec_find(spec_sweep(entries, now), k) == (match spec_find(entries, k) {
            Some(t) => if t > now {
                Some(t)
            } else {
                None::<u64>
            },
            None => None::<u64>,
        }),
    decreases entries.len(),
{
    if entries.len() > 0 {
        let tail = entries.drop_first();
        let rest = spec_sweep(tail, now);
        assert forall|a: int, b: int|
            0 <= a < b < tail.len() implies (#[trigger] tail[a]).0 != (#[trigger] tail[b]).0 by {
            assert(entries[a + 1].0 != entries[b + 1].0);
        }
        lemma_sweep_find(tail, now, k);
        if entries[0].1 > now {
            let swept = seq![entries[0]] + rest;
            assert(spec_sweep(entries, now) == swept);
            assert(swept[0] == entries[0]);
            assert(swept.drop_first() =~= rest);
        } else {
            if entries[0].0 == k {
                assert forall|m: int| 0 <= m < tail.len() implies (#[trigger] tail[m]).0 != k by {
                    assert(entries[0].0 != entries[m + 1].0);
                }
                lemma_find_absent(tail, k);
            }
        }
    }
}

proof fn lemma_sweep_push(entries: Seq<(PeerId, u64)>, e: (PeerId, u64), now: int)
    ensures
        spec_sweep(entries.push(e), now) == (if e.1 > now {
            spec_sweep(entries, now).push(e)
        } else {
            spec_sweep(entries, now)
        }),
    decreases entries.len(),
{
    let pushed = entries.push(e);
    if entries.len() == 0 {
        assert(pushed[0] == e);
        assert(pushed.drop_first() =~= entries);
        if e.1 > now {
            assert(seq![e] + spec_sweep(entries, now) =~= spec_sweep(entries, now).push(e));
        }
    } else {
        assert(pushed[0] == entries[0]);
        assert(pushed.drop_first() =~= entries.drop_first().push(e));
        lemma_sweep_push(entries.drop_first(), e, now);
        let rest = spec_sweep(entries.drop_first(), now);
        if entries[0].1 > now {
            assert(spec_sweep(entries, now) == seq![entries[0]] + rest);
            if e.1 > now {
                assert(spec_sweep(pushed, now) == seq![entries[0]] + rest.push(e));
                assert(seq![entries[0]] + rest.push(e) =~= (seq![entries[0]] + rest).push(e));
            } else {
                assert(spec_sweep(pushed, now) == seq![entries[0]] + rest);
            }
        } else {
            assert(spec_sweep(entries, now) == rest);
        }
    }
}

/// A token bucket per key, the bucket lazily created on first touch.
#[derive(Debug, Clone)]
pub struct KeyedLimiter {
    rate: Rate,
    entries: Vec<(PeerId, u64)>,
    clock: MonotonicClock,
}

impl KeyedLimiter {
    /// The configured rate, shared by every bucket.
    pub closed spec fn rate_spec(self) -> Rate {
        self.rate
    }

    /// The buckets, in order of first touch.
    pub closed spec fn entries_spec(self) -> Seq<(PeerId, u64)> {
        self.entries@
    }

    pub open spec fn wf(self) -> bool {
        &&& self.rate_spec().valid()
        &&& spec_keys_unique(self.entries_spec())
        &&& forall|i: int|
            0 <= i < self.entries_spec().len() ==> (#[trigger] self.entries_spec()[i]).1
                <= MAX_TAT_NANOS
    }

    /// An empty keyed limiter under `rate`, with its own clock starting now.
    pub fn new(rate: Rate) -> (r: Self)
        requires
            rate.valid(),
        ensures
            r.wf(),
            r.rate_spec() == rate,
            r.entries_spec() == Seq::<(PeerId, u64)>::empty(),
    {
        let r = KeyedLimiter { rate, entries: Vec::new(), clock: MonotonicClock::new() };
        proof {
            assert(r.entries_spec() =~= Seq::<(PeerId, u64)>::empty());
        }
        r
    }

    /// How many keys currently hold a bucket.
    pub fn len(&self) -> (r: usize)
        ensures
            r == self.entries_spec().len(),
    {
        self.entries.len()
    }

    fn find_index(&self, k: PeerId) -> (r: Option<usize>)
        ensures
            match r {
                Some(i) => i < self.entries_spec().len() && self.entries_spec()[i as int].0 == k
                    && spec_find(self.entries_spec(), k) == Some(self.entries_spec()[i as int].1),
                None => spec_find(self.entries_spec(), k) is None,
            },
    {
        let mut i: usize = 0;
        while i < self.entries.len()
            invariant
                i <= self.entries_spec().len(),
                forall|m: int| 0 <= m < i ==> (#[trigger] self.entries_spec()[m]).0 != k,
            decreases self.entries_spec().len() - i,
        {
            if self.entries[i].0.bits == k.bits {
                proof {
                    lemma_find_first(self.entries_spec(), k, i as int);
                }
                return Some(i);
            }
            i = i + 1;
        }
        proof {
            lemma_find_absent(self.entries_spec(), k);
        }
        None
    }

    /// Decide admission for key `k` at the instant `now`, consuming one of
    /// that key's tokens on a grant. Other keys' buckets are untouched: one
    /// peer exhausting its tokens never affects another's admission.
    pub fn check_key_at(&mut self, k: PeerId, now: u64) -> (r: Admission)
        requires
            old(self).wf(),
            now <= MAX_NOW_NANOS,
        ensures
            final(self).wf(),
            spec_key_checked_at(*old(self), *final(self), k, now as int, r),
    {
        let rate = self.rate;
        proof {
            assert(rate.burst * rate.interval_nanos <= MAX_BURST * MAX_INTERVAL_NANOS)
                by (nonlinear_arith)
                requires
                    1 <= rate.burst <= MAX_BURST,
                    1 <= rate.interval_nanos <= MAX_INTERVAL_NANOS,
            ;
        }
        let credit: u64 = rate.burst * rate.interval_nanos;
        match self.find_index(k) {
            Some(i) => {
                let t = self.entries[i].1;
                let tat_eff: u64 = if t > now {
                    t
                } else {
                    now
                };
                if tat_eff + rate.interval_nanos <= now + credit {
                    let ghost old_entries = self.entries@;
                    self.entries[i] = (k, tat_eff + rate.interval_nanos);
                    proof {
                        assert(self.entries@ =~= old_entries.update(
                            i as int,
                            (k, (tat_eff + rate.interval_nanos) as u64),
                        ));
                        lemma_find_update_first(
                            old_entries,
                            i as int,
                            (tat_eff + rate.interval_nanos) as u64,
                            k,
                        );
                        assert forall|m: int| 0 <= m < i implies (#[trigger] old_entries[m]).0
                            != k by {
                            if old_entries[m].0 == k {
                                lemma_present_find_some(old_entries, k, m);
                                lemma_find_first(old_entries, k, m);
                            }
                        }
                        assert forall|k2: PeerId| k2 != k implies #[trigger] spec_find(
                            self.entries@,
                            k2,
                        ) == spec_find(old_entries, k2) by {
                            lemma_find_update_same_key(
                                old_entries,
                                i as int,
                                (tat_eff + rate.interval_nanos) as u64,
                                k2,
                            );
                        }
                    }
                    Admission::Granted
                } else {
                    Admission::TooSoon
                }
            },
            None => {
                let ghost old_entries = self.entries@;
                proof {
                    lemma_full_bucket_fresh(rate, now as int, now as int);
                }
                self.entries.push((k, now + rate.interval_nanos));
                proof {
                    let e = (k, (now + rate.interval_nanos) as u64);
                    assert forall|k2: PeerId| true implies #[trigger] spec_find(
                        self.entries@,
                        k2,
                    ) == (if spec_find(old_entries, k2) is Some {
                        spec_find(old_entries, k2)
                    } else if k2 == k {
                        Some(e.1)
                    } else {
                        None::<u64>
                    }) by {
                        lemma_find_push(old_entries, k, e.1, k2);
                    }
                    assert forall|m: int|
                        0 <= m < old_entries.len() implies (#[trigger] old_entries[m]).0 != k by {
                        if old_entries[m].0 == k {
                            lemma_present_find_some(old_entries, k, m);
                        }
                    }
                }
                Admission::Granted
            },
        }
    }

    /// Decide admission for key `k` at the clock's current reading. What it
    /// answers depends on the clock; the decision taken for any given
    /// reading is stated on [`KeyedLimiter::check_key_at`].
    pub fn check_key(&mut self, k: PeerId) -> (r: Admission)
        requires
            old(self).wf(),
        ensures
            final(self).wf(),
            final(self).entries_spec().len() <= old(self).entries_spec().len() + 1,
            exists|now: u64|
                now <= MAX_NOW_NANOS && #[trigger] spec_key_checked_at(
                    *old(self),
                    *final(self),
                    k,
                    now as int,
                    r,
                ),
    {
        let now = self.clock.now_nanos();
        let r = self.check_key_at(k, now);
        proof {
            assert(spec_key_checked_at(*old(self), *self, k, now as int, r));
        }
        r
    }

    /// The limiter's own clock, clamped to the range the admission
    /// arithmetic is proved for.
    pub fn clock_now(&self) -> (r: u64)
        ensures
            r <= MAX_NOW_NANOS,
    {
        self.clock.now_nanos()
    }

    /// Drop every bucket that is full at `now`: those keys have been quiet
    /// long enough that forgetting their state is observationally
    /// equivalent to keeping it (see [`lemma_sweep_find`] and
    /// [`lemma_full_bucket_fresh`]). Buckets still owing time survive in
    /// order.
    pub fn retain_recent_at(&mut self, now: u64)
        requires
            old(self).wf(),
        ensures
            final(self).wf(),
            final(self).rate_spec() == old(self).rate_spec(),
            final(self).entries_spec() == spec_sweep(old(self).entries_spec(), now as int),
            final(self).entries_spec().len() <= old(self).entries_spec().len(),
    {
        let ghost old_entries = self.entries@;
        let mut kept: Vec<(PeerId, u64)> = Vec::new();
        let mut i: usize = 0;
        proof {
            assert(kept@ =~= spec_sweep(old_entries.take(0), now as int));
        }
        while i < self.entries.len()
            invariant
                self.entries@ == old_entries,
                i <= old_entries.len(),
                kept@ == spec_sweep(old_entries.take(i as int), now as int),
            decreases old_entries.len() - i,
        {
            let e = self.entries[i];
            if e.1 > now {
                kept.push(e);
            }
            proof {
                assert(old_entries.take(i as int + 1) =~= old_entries.take(i as int).push(
                    old_entries[i as int],
                ));
                lemma_sweep_push(old_entries.take(i as int), old_entries[i as int], now as int);
            }
            i = i + 1;
        }
        proof {
            assert(old_entries.take(old_entries.len() as int) =~= old_entries);
        }
        self.entries = kept;
        proof {
            let swept = spec_sweep(old_entries, now as int);
            assert forall|a: int, b: int|
                0 <= a < b < swept.len() implies (#[trigger] swept[a]).0 != (
            #[trigger] swept[b]).0 by {
                lemma_sweep_subrange_unique(old_entries, now as int);
            }
            lemma_sweep_bounds(old_entries, now as int);
        }
    }

    /// Drop every bucket that is full at the clock's current reading: for
    /// some reading of the clock, this is exactly
    /// [`KeyedLimiter::retain_recent_at`]; in particular no bucket still
    /// owing time at any admissible instant is forgotten.
    pub fn retain_recent(&mut self)
        requires
            old(self).wf(),
        ensures
            final(self).wf(),
            final(self).entries_spec().len() <= old(self).entries_spec().len(),
            exists|now: u64|
                now <= MAX_NOW_NANOS && #[trigger] spec_swept_at(
                    *old(self),
                    *final(self),
                    now as int,
                ),
    {
        let now = self.clock.now_nanos();
        self.retain_recent_at(now);
        proof {
            assert(spec_swept_at(*old(self), *self, now as int));
        }
    }
}

/// What one keyed admission for `k` at the instant `now` does: the answer
/// is exactly `k`'s bucket's (a fresh one if `k` was never touched), `k`'s
/// bucket advances exactly by the scheme, every other key's bucket is
/// untouched, a bucket is created only on first touch, and the rate
/// stands.
pub open spec fn spec_key_checked_at(
    pre: KeyedLimiter,
    post: KeyedLimiter,
    k: PeerId,
    now: int,
    r: Admission,
) -> bool {
    &&& (r == Admission::Granted) == spec_admit(
        pre.rate_spec(),
        spec_key_tat(pre.entries_spec(), k, now),
        now,
    )
    &&& spec_find(post.entries_spec(), k) == Some(
        spec_next_tat(pre.rate_spec(), spec_key_tat(pre.entries_spec(), k, now), now) as u64,
    )
    &&& forall|k2: PeerId|
        k2 != k ==> #[trigger] spec_find(post.entries_spec(), k2) == spec_find(
            pre.entries_spec(),
            k2,
        )
    &&& spec_find(pre.entries_spec(), k) is Some ==> post.entries_spec().len()
        == pre.entries_spec().len()
    &&& spec_find(pre.entries_spec(), k) is None ==> post.entries_spec().len()
        == pre.entries_spec().len() + 1 && r == Admission::Granted
    &&& post.rate_spec() == pre.rate_spec()
}

/// What one sweep at the instant `now` does: the map becomes exactly the
/// unswept map with its full buckets dropped, and the rate stands.
pub open spec fn spec_swept_at(pre: KeyedLimiter, post: KeyedLimiter, now: int) -> bool {
    &&& post.entries_spec() == spec_sweep(pre.entries_spec(), now)
    &&& post.rate_spec() == pre.rate_spec()
}

/// Sweeping is invisible to admission: at any instant from the sweep on,
/// every key is granted or refused exactly as it would have been without
/// the sweep, and its bucket ends in the same state. Dropped buckets were
/// full, and a full bucket decides like a fresh one.
pub proof fn lemma_sweep_preserves_admission(
    rate: Rate,
    entries: Seq<(PeerId, u64)>,
    now: int,
    later: int,
    k: PeerId,
)
    requires
        rate.valid(),
        spec_keys_unique(entries),
        now <= later,
    ensures
        spec_admit(rate, spec_key_tat(spec_sweep(entries, now), k, later), later) == spec_admit(
            rate,
            spec_key_tat(entries, k, later),
            later,
        ),
        spec_next_tat(rate, spec_key_tat(spec_sweep(entries, now), k, later), later)
            == spec_next_tat(rate, spec_key_tat(entries, k, later), later),
{
    lemma_sweep_find(entries, now, k);
    match spec_find(entries, k) {
        Some(t) => {
            if t <= now {
                lemma_full_bucket_fresh(rate, t as int, later);
                lemma_full_bucket_fresh(rate, later, later);
            }
        },
        None => {},
    }
}

proof fn lemma_sweep_subrange_unique(entries: Seq<(PeerId, u64)>, now: int)
    requires
        spec_keys_unique(entries),
    ensures
        spec_keys_unique(spec_sweep(entries, now)),
    decreases entries.len(),
{
    if entries.len() > 0 {
        let rest_src = entries.drop_first();
        let rest = spec_sweep(rest_src, now);
        assert forall|a: int, b: int|
            0 <= a < b < rest_src.len() implies (#[trigger] rest_src[a]).0 != (
        #[trigger] rest_src[b]).0 by {
            assert(entries[a + 1].0 != entries[b + 1].0);
        }
        lemma_sweep_subrange_unique(rest_src, now);
        if entries[0].1 > now {
            let swept = seq![entries[0]] + rest;
            assert forall|a: int, b: int|
                0 <= a < b < swept.len() implies (#[trigger] swept[a]).0 != (
            #[trigger] swept[b]).0 by {
                if a == 0 {
                    assert(swept[b] == rest[b - 1]);
                    if entries[0].0 == rest[b - 1].0 {
                        lemma_sweep_member_of(rest_src, now, b - 1);
                        let j = choose|j: int|
                            0 <= j < rest_src.len() && rest_src[j] == rest[b - 1];
                        assert(entries[j + 1] == rest_src[j]);
                    }
                } else {
                    assert(swept[a] == rest[a - 1]);
                    assert(swept[b] == rest[b - 1]);
                }
            }
        }
    }
}

proof fn lemma_sweep_member_of(entries: Seq<(PeerId, u64)>, now: int, m: int)
    requires
        0 <= m < spec_sweep(entries, now).len(),
    ensures
        exists|j: int|
            0 <= j < entries.len() && entries[j] == spec_sweep(entries, now)[m],
    decreases entries.len(),
{
    let swept = spec_sweep(entries, now);
    let rest = spec_sweep(entries.drop_first(), now);
    if entries[0].1 > now {
        if m == 0 {
            assert(swept[0] == entries[0]);
        } else {
            assert(swept[m] == rest[m - 1]);
            lemma_sweep_member_of(entries.drop_first(), now, m - 1);
            let j = choose|j: int|
                0 <= j < entries.drop_first().len() && entries.drop_first()[j] == rest[m - 1];
            assert(entries[j + 1] == entries.drop_first()[j]);
        }
    } else {
        lemma_sweep_member_of(entries.drop_first(), now, m);
        let j = choose|j: int|
            0 <= j < entries.drop_first().len() && entries.drop_first()[j] == rest[m];
        assert(entries[j + 1] == entries.drop_first()[j]);
    }
}

proof fn lemma_sweep_bounds(entries: Seq<(PeerId, u64)>, now: int)
    requires
        forall|i: int| 0 <= i < entries.len() ==> (#[trigger] entries[i]).1 <= MAX_TAT_NANOS,
    ensures
        spec_sweep(entries, now).len() <= entries.len(),
        forall|i: int|
            0 <= i < spec_sweep(entries, now).len() ==> (#[trigger] spec_sweep(entries, now)[i]).1
                <= MAX_TAT_NANOS,
    decreases entries.len(),
{
    if entries.len() > 0 {
        let rest_src = entries.drop_first();
        assert forall|i: int| 0 <= i < rest_src.len() implies (#[trigger] rest_src[i]).1
            <= MAX_TAT_NANOS by {
            assert(entries[i + 1].1 <= MAX_TAT_NANOS);
        }
        lemma_sweep_bounds(rest_src, now);
        let rest = spec_sweep(rest_src, now);
        if entries[0].1 > now {
            let swept = seq![entries[0]] + rest;
            assert forall|i: int| 0 <= i < swept.len() implies (#[trigger] swept[i]).1
                <= MAX_TAT_NANOS by {
                if i > 0 {
                    assert(swept[i] == rest[i - 1]);
                }
            }
        }
    }
}

} // verus!
