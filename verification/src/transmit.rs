//! Assembling the `want`s and `have`s for a repository fetch, and the ref
//! prefixes sent with `ls-refs`.
//!
//! Identifiers are carried as plain values: an object id as its bits, a ref
//! name as its bytes. A peer's segment in a remote-tracking path is its id
//! rendered in decimal.

use vstd::prelude::*;

verus! {

use crate::nonempty::NonEmptyVec;
use crate::peer::PeerId;

/// Identifier of an object in the object database.
#[derive(Debug, Clone, Copy, PartialEq, Eq, Structural, PartialOrd, Ord, Hash)]
pub struct ObjectId {
    pub bits: u64,
}

/// A namespace of the ref hierarchy that an `ls-refs` can scope to.
#[derive(Debug, Clone, Copy)]
pub enum Prefix {
    Heads,
    Tags,
    Notes,
    Rad,
}

/// The bytes each namespace prefix stands for; each starts with `refs/`.
pub open spec fn spec_prefix_bytes(p: Prefix) -> Seq<u8> {
    match p {
        Prefix::Heads => seq![114u8, 101u8, 102u8, 115u8, 47u8, 104u8, 101u8, 97u8, 100u8, 115u8, 47u8],
        Prefix::Tags => seq![114u8, 101u8, 102u8, 115u8, 47u8, 116u8, 97u8, 103u8, 115u8, 47u8],
        Prefix::Notes => seq![114u8, 101u8, 102u8, 115u8, 47u8, 110u8, 111u8, 116u8, 101u8, 115u8, 47u8],
        Prefix::Rad => seq![114u8, 101u8, 102u8, 115u8, 47u8, 114u8, 97u8, 100u8, 47u8],
    }
}

/// `refs/remotes/`, the root of the remote-tracking hierarchy.
pub open spec fn spec_remotes_root() -> Seq<u8> {
    seq![114u8, 101u8, 102u8, 115u8, 47u8, 114u8, 101u8, 109u8, 111u8, 116u8, 101u8, 115u8, 47u8]
}

/// A non-negative number in decimal ASCII.
pub open spec fn spec_decimal(n: nat) -> Seq<u8>
    decreases n,
{
    if n < 10 {
        seq![(48u8 + n) as u8]
    } else {
        spec_decimal(n / 10).push((48u8 + n % 10) as u8)
    }
}

/// Append the decimal rendering of `n`.
fn push_decimal(out: &mut Vec<u8>, n: u64)
    ensures
        final(out)@ == old(out)@ + spec_decimal(n as nat),
    decreases n,
{
    if n >= 10 {
        proof {
            assert(n as int / 10 < n) by (nonlinear_arith)
                requires
                    n >= 10,
            ;
        }
        push_decimal(out, n / 10);
    }
    out.push(48u8 + (n % 10) as u8);
    proof {
        if n < 10 {
            assert(old(out)@ + spec_decimal(n as nat) =~= old(out)@.push((48u8 + n % 10) as u8));
        } else {
            assert(old(out)@ + spec_decimal(n as nat) =~= (old(out)@ + spec_decimal(
                (n as nat) / 10,
            )).push((48u8 + n % 10) as u8));
        }
    }
}

fn push_prefix_bytes(out: &mut Vec<u8>, p: Prefix)
    ensures
        final(out)@ == old(out)@ + spec_prefix_bytes(p),
{
    match p {
        Prefix::Heads => {
            out.push(114u8);
            out.push(101u8);
            out.push(102u8);
            out.push(115u8);
            out.push(47u8);
            out.push(104u8);
            out.push(101u8);
            out.push(97u8);
            out.push(100u8);
            out.push(115u8);
            out.push(47u8);
        },
        Prefix::Tags => {
            out.push(114u8);
            out.push(101u8);
            out.push(102u8);
            out.push(115u8);
            out.push(47u8);
            out.push(116u8);
            out.push(97u8);
            out.push(103u8);
            out.push(115u8);
            out.push(47u8);
        },
        Prefix::Notes => {
            out.push(114u8);
            out.push(101u8);
            out.push(102u8);
            out.push(115u8);
            out.push(47u8);
            out.push(110u8);
            out.push(111u8);
            out.push(116u8);
            out.push(101u8);
            out.push(115u8);
            out.push(47u8);
        },
        Prefix::Rad => {
            out.push(114u8);
            out.push(101u8);
            out.push(102u8);
            out.push(115u8);
            out.push(47u8);
            out.push(114u8);
            out.push(97u8);
            out.push(100u8);
            out.push(47u8);
        },
    }
    proof {
        assert(out@ =~= old(out)@ + spec_prefix_bytes(p));
    }
}

fn push_remotes_root(out: &mut Vec<u8>)
    ensures
        final(out)@ == old(out)@ + spec_remotes_root(),
{
    out.push(114u8);
    out.push(101u8);
    out.push(102u8);
    out.push(115u8);
    out.push(47u8);
    out.push(114u8);
    out.push(101u8);
    out.push(109u8);
    out.push(111u8);
    out.push(116u8);
    out.push(101u8);
    out.push(115u8);
    out.push(47u8);
    proof {
        assert(out@ =~= old(out)@ + spec_remotes_root());
    }
}

/// What [`RefPrefix::from_prefix`] produces: the namespace itself, or, when
/// scoped to a peer, the namespace re-rooted under that peer's
/// remote-tracking hierarchy (its `refs/` head replaced).
pub open spec fn spec_scoped_prefix(scope: Option<PeerId>, prefix: Prefix) -> Seq<u8> {
    match scope {
        None => spec_prefix_bytes(prefix),
        Some(id) => spec_remotes_root() + spec_decimal(id.bits as nat) + seq![47u8]
            + spec_prefix_bytes(prefix).skip(5),
    }
}

/// A ref-name prefix sent with `ls-refs`, as its bytes.
#[derive(Debug, Clone)]
pub struct RefPrefix {
    bytes: Vec<u8>,
}

impl View for RefPrefix {
    type V = Seq<u8>;

    closed spec fn view(&self) -> Seq<u8> {
        self.bytes@
    }
}

impl RefPrefix {
    /// The prefix of `prefix`-namespace refs, scoped to `scope`'s
    /// remote-tracking hierarchy when a scope is given.
    pub fn from_prefix(scope: Option<&PeerId>, prefix: Prefix) -> (r: Self)
        ensures
            r@ == spec_scoped_prefix(
                match scope {
                    Some(id) => Some(*id),
                    None => None,
                },
                prefix,
            ),
    {
        let mut bytes: Vec<u8> = Vec::new();
        match scope {
            None => {
                push_prefix_bytes(&mut bytes, prefix);
            },
            Some(id) => {
                push_remotes_root(&mut bytes);
                push_decimal(&mut bytes, id.bits);
                bytes.push(47u8);
                let mut tail: Vec<u8> = Vec::new();
                push_prefix_bytes(&mut tail, prefix);
                let mut i: usize = 5;
                while i < tail.len()
                    invariant
                        5 <= i <= tail@.len(),
                        tail@ == spec_prefix_bytes(prefix),
                        tail@.len() >= 5,
                        bytes@ == spec_remotes_root() + spec_decimal(id.bits as nat) + seq![47u8]
                            + tail@.subrange(5, i as int),
                    decreases tail@.len() - i,
                {
                    let b = tail[i];
                    bytes.push(b);
                    proof {
                        assert(tail@.subrange(5, i + 1) =~= tail@.subrange(5, i as int).push(
                            tail@[i as int],
                        ));
                    }
                    i = i + 1;
                }
                proof {
                    assert(tail@.subrange(5, tail@.len() as int) =~= tail@.skip(5));
                }
            },
        }
        proof {
            if scope is None {
                assert(bytes@ =~= spec_scoped_prefix(None, prefix));
            }
        }
        RefPrefix { bytes }
    }

    /// Whether `name` starts with this prefix.
    pub fn matches(&self, name: &[u8]) -> (r: bool)
        ensures
            r == (name@.len() >= self@.len() && name@.take(self@.len() as int) == self@),
    {
        if name.len() < self.bytes.len() {
            proof {
                assert(!(name@.len() >= self@.len()));
            }
            return false;
        }
        let mut i: usize = 0;
        while i < self.bytes.len()
            invariant
                i <= self@.len() <= name@.len(),
                forall|m: int| 0 <= m < i ==> name@[m] == self@[m],
            decreases self@.len() - i,
        {
            if name[i] != self.bytes[i] {
                proof {
                    assert(name@.take(self@.len() as int)[i as int] != self@[i as int]);
                }
                return false;
            }
            i = i + 1;
        }
        proof {
            assert(name@.take(self@.len() as int) =~= self@);
        }
        true
    }

    /// The prefix as raw bytes, for handing to the pack protocol.
    pub fn into_bytes(self) -> (r: Vec<u8>)
        ensures
            r@ == self@,
    {
        self.bytes
    }
}

/// If and how `ls-refs` scopes the advertisement.
#[derive(Debug)]
pub enum LsRefs {
    /// Send no prefixes: the other side advertises all refs.
    Full,
    /// Send these prefixes.
    Prefix { prefixes: NonEmptyVec<RefPrefix> },
}

impl From<NonEmptyVec<RefPrefix>> for LsRefs {
    fn from(prefixes: NonEmptyVec<RefPrefix>) -> (r: LsRefs) {
        LsRefs::Prefix { prefixes }
    }
}

impl vstd::std_specs::convert::FromSpecImpl<NonEmptyVec<RefPrefix>> for LsRefs {
    open spec fn obeys_from_spec() -> bool {
        true
    }

    open spec fn from_spec(prefixes: NonEmptyVec<RefPrefix>) -> LsRefs {
        LsRefs::Prefix { prefixes }
    }
}

/// The ref-database view a fetch negotiation consults: remote-tracking
/// names resolved to object ids. Implemented outside the core.
pub trait Refdb {
    type FindError;

    /// What looking up `name` answers. The default stands in for
    /// implementations the verifier never sees; verified ones supply
    /// their own.
    open spec fn refname_to_id_spec(&self, name: Seq<u8>) -> Result<
        Option<ObjectId>,
        Self::FindError,
    > {
        Ok(None)
    }

    fn refname_to_id(&self, name: &Vec<u8>) -> (r: Result<Option<ObjectId>, Self::FindError>)
        ensures
            r == self.refname_to_id_spec(name@),
    ;
}

/// The object-database view: which objects are already present.
/// Implemented outside the core.
pub trait Odb {
    /// Whether the object is present. The default stands in for
    /// implementations the verifier never sees; verified ones supply
    /// their own.
    open spec fn contains_spec(&self, oid: ObjectId) -> bool {
        false
    }

    fn contains(&self, oid: &ObjectId) -> (r: bool)
        ensures
            r == self.contains_spec(*oid),
    ;
}

/// What a remote-advertised ref parses to: a `rad` ref (carried as its
/// kind's code) or an ordinary owned ref name.
#[derive(Debug, Clone, PartialEq, Eq)]
pub enum ParsedInner {
    Rad(u64),
    Owned(Vec<u8>),
}

/// A parsed ref: the peer it tracks, if named, and its name.
#[derive(Debug, Clone, PartialEq, Eq)]
pub struct ParsedRef {
    pub remote: Option<PeerId>,
    pub inner: ParsedInner,
}

/// The path under a parsed ref's name, without any remote-tracking root: a
/// `rad` ref renders as `rad/<code>`.
pub open spec fn spec_inner_bytes(inner: ParsedInner) -> Seq<u8> {
    match inner {
        ParsedInner::Rad(code) => seq![114u8, 97u8, 100u8, 47u8] + spec_decimal(code as nat),
        ParsedInner::Owned(name) => name@,
    }
}

/// A remote-advertised ref that passed a negotiation's filter, tagged by
/// the negotiation type that accepted it.
#[derive(Debug)]
pub struct FilteredRef<T> {
    pub tip: ObjectId,
    pub parsed: ParsedRef,
    pub _marker: core::marker::PhantomData<T>,
}

impl<T> FilteredRef<T> {
    /// The remote peer is always set once a ref is filtered.
    pub closed spec fn wf(self) -> bool {
        self.parsed.remote is Some
    }

    /// The peer the ref tracks.
    pub closed spec fn remote_spec(self) -> PeerId
        recommends
            self.wf(),
    {
        self.parsed.remote.unwrap()
    }

    /// The remote-tracking path this ref updates:
    /// `refs/remotes/<peer>/<name>`.
    pub closed spec fn spec_remote_tracking(self) -> Seq<u8>
        recommends
            self.wf(),
    {
        spec_remotes_root() + spec_decimal(self.remote_spec().bits as nat) + seq![47u8]
            + spec_inner_bytes(self.parsed.inner)
    }

    /// Wrap an advertised ref, defaulting its remote to the advertising
    /// peer where the name carried none.
    pub fn new(tip: ObjectId, remote_id: &PeerId, parsed: ParsedRef) -> (r: Self)
        ensures
            r.wf(),
            r.tip == tip,
            r.remote_spec() == (match parsed.remote {
                Some(id) => id,
                None => *remote_id,
            }),
            r.parsed.inner == parsed.inner,
    {
        let remote = match parsed.remote {
            Some(id) => Some(id),
            None => Some(*remote_id),
        };
        FilteredRef {
            tip,
            parsed: ParsedRef { remote, inner: parsed.inner },
            _marker: core::marker::PhantomData,
        }
    }

    /// The peer the ref tracks.
    pub fn remote_id(&self) -> (r: &PeerId)
        requires
            self.wf(),
        ensures
            *r == self.remote_spec(),
    {
        match &self.parsed.remote {
            Some(id) => id,
            None => unreached(),
        }
    }

    /// The remote-tracking path this ref updates.
    pub fn to_remote_tracking(&self) -> (r: Vec<u8>)
        requires
            self.wf(),
        ensures
            r@ == self.spec_remote_tracking(),
    {
        let mut out: Vec<u8> = Vec::new();
        push_remotes_root(&mut out);
        push_decimal(&mut out, self.remote_id().bits);
        out.push(47u8);
        match &self.parsed.inner {
            ParsedInner::Rad(code) => {
                out.push(114u8);
                out.push(97u8);
                out.push(100u8);
                out.push(47u8);
                push_decimal(&mut out, *code);
            },
            ParsedInner::Owned(name) => {
                let mut i: usize = 0;
                while i < name.len()
                    invariant
                        i <= name@.len(),
                        out@ == spec_remotes_root() + spec_decimal(self.remote_spec().bits as nat)
                            + seq![47u8] + name@.take(i as int),
                        name@ == (match self.parsed.inner {
                            ParsedInner::Owned(n) => n@,
                            ParsedInner::Rad(_) => name@,
                        }),
                        self.wf(),
                    decreases name@.len() - i,
                {
                    let b = name[i];
                    out.push(b);
                    proof {
                        assert(name@.take(i + 1) =~= name@.take(i as int).push(name@[i as int]));
                    }
                    i = i + 1;
                }
                proof {
                    assert(name@.take(name@.len() as int) =~= name@);
                }
            },
        }
        proof {
            assert(out@ =~= self.spec_remote_tracking());
        }
        out
    }

    /// The ref's own path, without any remote-tracking root.
    pub fn to_owned(&self) -> (r: Vec<u8>)
        ensures
            r@ == spec_inner_bytes(self.parsed.inner),
    {
        let mut out: Vec<u8> = Vec::new();
        match &self.parsed.inner {
            ParsedInner::Rad(code) => {
                out.push(114u8);
                out.push(97u8);
                out.push(100u8);
                out.push(47u8);
                push_decimal(&mut out, *code);
            },
            ParsedInner::Owned(name) => {
                let mut i: usize = 0;
                while i < name.len()
                    invariant
                        i <= name@.len(),
                        out@ == name@.take(i as int),
                        name@ == (match self.parsed.inner {
                            ParsedInner::Owned(n) => n@,
                            ParsedInner::Rad(_) => name@,
                        }),
                    decreases name@.len() - i,
                {
                    let b = name[i];
                    out.push(b);
                    proof {
                        assert(name@.take(i + 1) =~= name@.take(i as int).push(name@[i as int]));
                    }
                    i = i + 1;
                }
                proof {
                    assert(name@.take(name@.len() as int) =~= name@);
                }
            },
        }
        proof {
            assert(out@ =~= spec_inner_bytes(self.parsed.inner));
        }
        out
    }

    /// Whether this is the `rad` ref with the given code.
    pub fn is(&self, rad: u64) -> (r: bool)
        ensures
            r == (self.parsed.inner == ParsedInner::Rad(rad)),
    {
        match &self.parsed.inner {
            ParsedInner::Rad(code) => *code == rad,
            ParsedInner::Owned(_) => false,
        }
    }
}

/// The `want`s and `have`s of a fetch: objects to request, objects to
/// offer.
pub type WantsHaves = (NonEmptyVec<ObjectId>, Vec<ObjectId>);

/// Strictly ascending by bits: sorted with no duplicates.
pub open spec fn spec_strictly_sorted(s: Seq<ObjectId>) -> bool {
    forall|i: int, j: int| 0 <= i < j < s.len() ==> (#[trigger] s[i]).bits < (#[trigger] s[j]).bits
}

fn vec_contains(v: &Vec<ObjectId>, x: ObjectId) -> (r: bool)
    ensures
        r == v@.contains(x),
{
    let mut i: usize = 0;
    while i < v.len()
        invariant
            i <= v@.len(),
            forall|m: int| 0 <= m < i ==> v@[m] != x,
        decreases v@.len() - i,
    {
        if v[i].bits == x.bits {
            proof {
                assert(v@[i as int] == x);
            }
            return true;
        }
        i = i + 1;
    }
    proof {
        if v@.contains(x) {
            let m = choose|m: int| 0 <= m < v@.len() && v@[m] == x;
            assert(false);
        }
    }
    false
}

fn insert_sorted(v: &mut Vec<ObjectId>, oid: ObjectId)
    requires
        spec_strictly_sorted(old(v)@),
    ensures
        spec_strictly_sorted(final(v)@),
        forall|x: ObjectId|
            #[trigger] final(v)@.contains(x) == (old(v)@.contains(x) || x == oid),
{
    let ghost pre = v@;
    let mut i: usize = 0;
    while i < v.len() && v[i].bits < oid.bits
        invariant
            i <= v@.len(),
            v@ == pre,
            forall|m: int| 0 <= m < i ==> (#[trigger] pre[m]).bits < oid.bits,
        decreases v@.len() - i,
    {
        i = i + 1;
    }
    if i < v.len() && v[i].bits == oid.bits {
        proof {
            assert(pre[i as int] == oid);
            assert(pre.contains(oid));
            assert forall|x: ObjectId| #[trigger] v@.contains(x) == (pre.contains(x) || x
                == oid) by {}
        }
        return ;
    }
    v.insert(i, oid);
    proof {
        let now = v@;
        assert forall|a: int, b: int|
            0 <= a < b < now.len() implies (#[trigger] now[a]).bits < (#[trigger] now[b]).bits by {
            if a < i && b < i {
                assert(now[a] == pre[a] && now[b] == pre[b]);
            } else if a < i && b == i {
                assert(now[a] == pre[a]);
            } else if a < i && b > i {
                assert(now[a] == pre[a] && now[b] == pre[b - 1]);
                assert(pre[a].bits < oid.bits);
                if i < pre.len() {
                    assert(pre[i as int].bits >= oid.bits);
                }
                if a < b - 1 {
                } else {
                    assert(b - 1 == i);
                    assert(pre[b - 1].bits >= oid.bits);
                }
            } else if a == i {
                assert(now[b] == pre[b - 1]);
                assert(b - 1 >= i);
                assert(pre[b - 1].bits >= oid.bits);
                assert(pre[b - 1] != oid);
            } else {
                assert(now[a] == pre[a - 1] && now[b] == pre[b - 1]);
            }
        }
        assert forall|x: ObjectId| #[trigger] now.contains(x) == (pre.contains(x) || x == oid) by {
            if now.contains(x) {
                let m = choose|m: int| 0 <= m < now.len() && now[m] == x;
                if m < i {
                    assert(pre[m] == x);
                    assert(pre.contains(x));
                } else if m == i {
                    assert(x == oid);
                } else {
                    assert(pre[m - 1] == x);
                    assert(pre.contains(x));
                }
            }
            if pre.contains(x) {
                let m = choose|m: int| 0 <= m < pre.len() && pre[m] == x;
                if m < i {
                    assert(now[m] == x);
                } else {
                    assert(now[m + 1] == x);
                }
                assert(now.contains(x));
            }
            if x == oid {
                assert(now[i as int] == x);
                assert(now.contains(x));
            }
        }
    }
}

/// Accumulates the `want`s and `have`s of a fetch, deduplicated and kept
/// in ascending object-id order.
#[derive(Debug, Clone)]
pub struct BuildWantsHaves {
    wants: Vec<ObjectId>,
    haves: Vec<ObjectId>,
}

impl Default for BuildWantsHaves {
    fn default() -> (r: Self)
        ensures
            r.wf(),
            r.wants_spec() =~= Seq::<ObjectId>::empty(),
            r.haves_spec() =~= Seq::<ObjectId>::empty(),
    {
        BuildWantsHaves { wants: Vec::new(), haves: Vec::new() }
    }
}

/// What resolving one filtered ref decides: want its tip exactly when the
/// tip is neither already stored under its remote-tracking name nor present
/// in the object database. A ref whose lookup fails wants nothing.
pub open spec fn spec_ref_wants<T, D: Refdb + Odb>(db: D, r: FilteredRef<T>) -> bool {
    match db.refname_to_id_spec(r.spec_remote_tracking()) {
        Ok(found) => match found {
            Some(oid) => oid != r.tip && !db.contains_spec(r.tip),
            None => !db.contains_spec(r.tip),
        },
        Err(_) => false,
    }
}

/// Whether some ref of `refs` resolves to `x` under its remote-tracking
/// name.
pub open spec fn spec_some_have<T, D: Refdb + Odb>(
    db: D,
    refs: Seq<FilteredRef<T>>,
    x: ObjectId,
) -> bool {
    exists|m: int|
        0 <= m < refs.len() && db.refname_to_id_spec((#[trigger] refs[m]).spec_remote_tracking())
            == Ok::<Option<ObjectId>, D::FindError>(Some(x))
}

/// Whether some ref of `refs` wants `x` as its tip.
pub open spec fn spec_some_want<T, D: Refdb + Odb>(
    db: D,
    refs: Seq<FilteredRef<T>>,
    x: ObjectId,
) -> bool {
    exists|m: int|
        0 <= m < refs.len() && (#[trigger] refs[m]).tip == x && spec_ref_wants(db, refs[m])
}

/// The builder's sets after processing `refs`: the old members plus, for
/// haves, every id a ref resolved to, and, for wants, every tip a ref
/// wanted.
pub open spec fn spec_added<T, D: Refdb + Odb>(
    db: D,
    refs: Seq<FilteredRef<T>>,
    old_wants: Seq<ObjectId>,
    old_haves: Seq<ObjectId>,
    new_wants: Seq<ObjectId>,
    new_haves: Seq<ObjectId>,
) -> bool {
    &&& forall|x: ObjectId|
        #[trigger] new_haves.contains(x) == (old_haves.contains(x) || spec_some_have(db, refs, x))
    &&& forall|x: ObjectId|
        #[trigger] new_wants.contains(x) == (old_wants.contains(x) || spec_some_want(db, refs, x))
}

/// The position of the first ref whose remote-tracking lookup fails, if
/// any does.
pub open spec fn spec_first_error<T, D: Refdb + Odb>(db: D, refs: Seq<FilteredRef<T>>) -> Option<
    int,
>
    decreases refs.len(),
{
    if refs.len() == 0 {
        None
    } else if db.refname_to_id_spec(refs[0].spec_remote_tracking()) is Err {
        Some(0)
    } else {
        match spec_first_error(db, refs.drop_first()) {
            None => None,
            Some(k) => Some(k + 1),
        }
    }
}

proof fn lemma_first_error_at<T, D: Refdb + Odb>(db: D, refs: Seq<FilteredRef<T>>, j: int)
    requires
        0 <= j < refs.len(),
        forall|m: int|
            0 <= m < j ==> !(db.refname_to_id_spec(
                (#[trigger] refs[m]).spec_remote_tracking(),
            ) is Err),
        db.refname_to_id_spec(refs[j].spec_remote_tracking()) is Err,
    ensures
        spec_first_error(db, refs) == Some(j),
    decreases j,
{
    if j > 0 {
        assert(!(db.refname_to_id_spec(refs[0].spec_remote_tracking()) is Err));
        let tail = refs.drop_first();
        assert forall|m: int|
            0 <= m < j - 1 implies !(db.refname_to_id_spec(
            (#[trigger] tail[m]).spec_remote_tracking(),
        ) is Err) by {
            assert(tail[m] == refs[m + 1]);
        }
        assert(tail[j - 1] == refs[j]);
        lemma_first_error_at(db, tail, j - 1);
    }
}

proof fn lemma_first_error_none<T, D: Refdb + Odb>(db: D, refs: Seq<FilteredRef<T>>)
    requires
        forall|m: int|
            0 <= m < refs.len() ==> !(db.refname_to_id_spec(
                (#[trigger] refs[m]).spec_remote_tracking(),
            ) is Err),
    ensures
        spec_first_error(db, refs) is None,
    decreases refs.len(),
{
    if refs.len() > 0 {
        let tail = refs.drop_first();
        assert forall|m: int|
            0 <= m < tail.len() implies !(db.refname_to_id_spec(
            (#[trigger] tail[m]).spec_remote_tracking(),
        ) is Err) by {
            assert(tail[m] == refs[m + 1]);
        }
        lemma_first_error_none(db, tail);
    }
}

proof fn lemma_some_have_step<T, D: Refdb + Odb>(
    db: D,
    refs: Seq<FilteredRef<T>>,
    j: int,
    x: ObjectId,
)
    requires
        0 <= j < refs.len(),
    ensures
        spec_some_have(db, refs.take(j + 1), x) == (spec_some_have(db, refs.take(j), x)
            || db.refname_to_id_spec(refs[j].spec_remote_tracking()) == Ok::<
            Option<ObjectId>,
            D::FindError,
        >(Some(x))),
{
    let shorter = refs.take(j);
    let longer = refs.take(j + 1);
    if spec_some_have(db, longer, x) {
        let m = choose|m: int|
            0 <= m < longer.len() && db.refname_to_id_spec(
                (#[trigger] longer[m]).spec_remote_tracking(),
            ) == Ok::<Option<ObjectId>, D::FindError>(Some(x));
        if m < j {
            assert(shorter[m] == longer[m]);
            assert(spec_some_have(db, shorter, x));
        } else {
            assert(longer[m] == refs[j]);
        }
    }
    if spec_some_have(db, shorter, x) {
        let m = choose|m: int|
            0 <= m < shorter.len() && db.refname_to_id_spec(
                (#[trigger] shorter[m]).spec_remote_tracking(),
            ) == Ok::<Option<ObjectId>, D::FindError>(Some(x));
        assert(longer[m] == shorter[m]);
        assert(spec_some_have(db, longer, x));
    }
    if db.refname_to_id_spec(refs[j].spec_remote_tracking()) == Ok::<
        Option<ObjectId>,
        D::FindError,
    >(Some(x)) {
        assert(longer[j] == refs[j]);
        assert(spec_some_have(db, longer, x));
    }
}

proof fn lemma_some_want_step<T, D: Refdb + Odb>(
    db: D,
    refs: Seq<FilteredRef<T>>,
    j: int,
    x: ObjectId,
)
    requires
        0 <= j < refs.len(),
    ensures
        spec_some_want(db, refs.take(j + 1), x) == (spec_some_want(db, refs.take(j), x) || (
        refs[j].tip == x && spec_ref_wants(db, refs[j]))),
{
    let shorter = refs.take(j);
    let longer = refs.take(j + 1);
    if spec_some_want(db, longer, x) {
        let m = choose|m: int|
            0 <= m < longer.len() && (#[trigger] longer[m]).tip == x && spec_ref_wants(
                db,
                longer[m],
            );
        if m < j {
            assert(shorter[m] == longer[m]);
            assert(spec_some_want(db, shorter, x));
        } else {
            assert(longer[m] == refs[j]);
        }
    }
    if spec_some_want(db, shorter, x) {
        let m = choose|m: int|
            0 <= m < shorter.len() && (#[trigger] shorter[m]).tip == x && spec_ref_wants(
                db,
                shorter[m],
            );
        assert(longer[m] == shorter[m]);
        assert(spec_some_want(db, longer, x));
    }
    if refs[j].tip == x && spec_ref_wants(db, refs[j]) {
        assert(longer[j] == refs[j]);
        assert(spec_some_want(db, longer, x));
    }
}

/// What remains of `wants` once everything already in `haves` is removed,
/// in order.
pub open spec fn spec_missing(wants: Seq<ObjectId>, haves: Seq<ObjectId>) -> Seq<ObjectId>
    decreases wants.len(),
{
    if wants.len() == 0 {
        Seq::empty()
    } else {
        let init = spec_missing(wants.drop_last(), haves);
        if haves.contains(wants.last()) {
            init
        } else {
            init.push(wants.last())
        }
    }
}

impl BuildWantsHaves {
    /// The accumulated wants, ascending.
    pub closed spec fn wants_spec(self) -> Seq<ObjectId> {
        self.wants@
    }

    /// The accumulated haves, ascending.
    pub closed spec fn haves_spec(self) -> Seq<ObjectId> {
        self.haves@
    }

    pub open spec fn wf(self) -> bool {
        spec_strictly_sorted(self.wants_spec()) && spec_strictly_sorted(self.haves_spec())
    }

    /// Record an object to request.
    pub fn want(&mut self, oid: ObjectId)
        requires
            old(self).wf(),
        ensures
            final(self).wf(),
            forall|x: ObjectId|
                #[trigger] final(self).wants_spec().contains(x) == (old(
                    self,
                ).wants_spec().contains(x) || x == oid),
            final(self).haves_spec() == old(self).haves_spec(),
    {
        insert_sorted(&mut self.wants, oid);
    }

    /// Record an object to offer.
    pub fn have(&mut self, oid: ObjectId)
        requires
            old(self).wf(),
        ensures
            final(self).wf(),
            forall|x: ObjectId|
                #[trigger] final(self).haves_spec().contains(x) == (old(
                    self,
                ).haves_spec().contains(x) || x == oid),
            final(self).wants_spec() == old(self).wants_spec(),
    {
        insert_sorted(&mut self.haves, oid);
    }

    /// Fold a batch of filtered refs into the builder: each ref's
    /// remote-tracking name is looked up; a hit is offered as a have, and
    /// the ref's tip is wanted exactly when it is neither that hit nor
    /// already in the object database. The first lookup error stops the
    /// fold, the refs before it already folded in.
    pub fn add<T, D: Refdb + Odb>(&mut self, db: &D, refs: &Vec<FilteredRef<T>>) -> (r: Result<
        (),
        D::FindError,
    >)
        requires
            old(self).wf(),
            forall|m: int| 0 <= m < refs@.len() ==> (#[trigger] refs@[m]).wf(),
        ensures
            final(self).wf(),
            match r {
                Ok(()) => {
                    &&& spec_first_error(*db, refs@) is None
                    &&& spec_added(
                        *db,
                        refs@,
                        old(self).wants_spec(),
                        old(self).haves_spec(),
                        final(self).wants_spec(),
                        final(self).haves_spec(),
                    )
                },
                Err(e) => match spec_first_error(*db, refs@) {
                    Some(k) => {
                        &&& db.refname_to_id_spec(refs@[k].spec_remote_tracking()) == Err::<
                            Option<ObjectId>,
                            D::FindError,
                        >(e)
                        &&& spec_added(
                            *db,
                            refs@.take(k),
                            old(self).wants_spec(),
                            old(self).haves_spec(),
                            final(self).wants_spec(),
                            final(self).haves_spec(),
                        )
                    },
                    None => false,
                },
            },
    {
        let ghost all = refs@;
        let ghost w0 = self.wants_spec();
        let ghost h0 = self.haves_spec();
        let mut j: usize = 0;
        proof {
            assert(all.take(0) =~= Seq::<FilteredRef<T>>::empty());
        }
        while j < refs.len()
            invariant
                j <= all.len(),
                refs@ == all,
                w0 == old(self).wants_spec(),
                h0 == old(self).haves_spec(),
                self.wf(),
                forall|m: int| 0 <= m < all.len() ==> (#[trigger] all[m]).wf(),
                forall|m: int|
                    0 <= m < j ==> !(db.refname_to_id_spec(
                        (#[trigger] all[m]).spec_remote_tracking(),
                    ) is Err),
                spec_added(
                    *db,
                    all.take(j as int),
                    w0,
                    h0,
                    self.wants_spec(),
                    self.haves_spec(),
                ),
            decreases all.len() - j,
        {
            let r = &refs[j];
            let name = r.to_remote_tracking();
            let ghost wants_before = self.wants_spec();
            let ghost haves_before = self.haves_spec();
            match db.refname_to_id(&name) {
                Err(e) => {
                    proof {
                        lemma_first_error_at(*db, all, j as int);
                    }
                    return Err(e);
                },
                Ok(Some(oid)) => {
                    let tip_known = db.contains(&r.tip);
                    let want_it = oid.bits != r.tip.bits && !tip_known;
                    proof {
                        assert(want_it == (oid != all[j as int].tip && !db.contains_spec(
                            all[j as int].tip,
                        )));
                    }
                    self.have(oid);
                    if want_it {
                        self.want(r.tip);
                    }
                    proof {
                        assert forall|x: ObjectId| #[trigger]
                            self.haves_spec().contains(x) == (h0.contains(x) || spec_some_have(
                                *db,
                                all.take(j + 1),
                                x,
                            )) by {
                            lemma_some_have_step(*db, all, j as int, x);
                        }
                        assert forall|x: ObjectId| #[trigger]
                            self.wants_spec().contains(x) == (w0.contains(x) || spec_some_want(
                                *db,
                                all.take(j + 1),
                                x,
                            )) by {
                            lemma_some_want_step(*db, all, j as int, x);
                        }
                    }
                },
                Ok(None) => {
                    let tip_known = db.contains(&r.tip);
                    if !tip_known {
                        self.want(r.tip);
                    }
                    proof {
                        assert forall|x: ObjectId| #[trigger]
                            self.haves_spec().contains(x) == (h0.contains(x) || spec_some_have(
                                *db,
                                all.take(j + 1),
                                x,
                            )) by {
                            lemma_some_have_step(*db, all, j as int, x);
                        }
                        assert forall|x: ObjectId| #[trigger]
                            self.wants_spec().contains(x) == (w0.contains(x) || spec_some_want(
                                *db,
                                all.take(j + 1),
                                x,
                            )) by {
                            lemma_some_want_step(*db, all, j as int, x);
                        }
                    }
                },
            }
            j = j + 1;
        }
        proof {
            assert(all.take(all.len() as int) =~= all);
            lemma_first_error_none(*db, all);
        }
        Ok(())
    }

    /// Close the builder: the wants not already offered as haves, in
    /// order, beside all the haves. Nothing left to want yields `None`.
    pub fn build(self) -> (r: Option<WantsHaves>)
        requires
            self.wf(),
        ensures
            match r {
                None => spec_missing(self.wants_spec(), self.haves_spec()).len() == 0,
                Some(wh) => {
                    &&& wh.0@ == spec_missing(self.wants_spec(), self.haves_spec())
                    &&& wh.0@.len() > 0
                    &&& wh.1@ == self.haves_spec()
                },
            },
    {
        let ghost wants_view = self.wants@;
        let mut kept: Vec<ObjectId> = Vec::new();
        let mut j: usize = 0;
        proof {
            assert(kept@ =~= spec_missing(wants_view.take(0), self.haves_spec()));
        }
        while j < self.wants.len()
            invariant
                j <= wants_view.len(),
                self.wants@ == wants_view,
                kept@ == spec_missing(wants_view.take(j as int), self.haves_spec()),
                self.haves_spec() == self.haves@,
            decreases wants_view.len() - j,
        {
            let oid = self.wants[j];
            proof {
                assert(wants_view.take(j + 1).drop_last() =~= wants_view.take(j as int));
                assert(wants_view.take(j + 1).last() == wants_view[j as int]);
            }
            if !vec_contains(&self.haves, oid) {
                kept.push(oid);
            }
            j = j + 1;
        }
        proof {
            assert(wants_view.take(wants_view.len() as int) =~= wants_view);
        }
        match NonEmptyVec::from_vec(kept) {
            Some(wants) => Some((wants, self.haves)),
            None => None,
        }
    }
}

} // verus!
