//! One-way protocol upgrades on individual bidirectional streams.
//!
//! The first message on a fresh stream announces the sub-protocol about to be
//! spoken over it. The message is a 2-element compact binary array
//! `[version, discriminator]`: byte `0x82` (array of two), the version tag
//! (currently `0`), and the discriminator of the requested sub-protocol. For
//! discriminators up to `23` the encoding is padded with the break byte `0xFF`
//! to a fixed 4-byte frame, for compatibility with older peers that always
//! read exactly four bytes. Larger discriminators use the two-byte integer
//! form `0x18 d`, which fills the frame without padding.

use vstd::prelude::*;

verus! {

use vstd::std_specs::convert::IntoSpec;

/// Number of seconds a responder waits for an upgrade request before giving
/// up. Exposed so that drivers of [`interpret_frame`] agree on the deadline.
pub const RECV_UPGRADE_TIMEOUT_SECS: u64 = 23;

/// Length in bytes of the wire encoding of an [`UpgradeRequest`]. Receivers
/// read exactly this many bytes and need no bookkeeping for unconsumed input.
pub const UPGRADE_REQUEST_ENCODING_LEN: usize = 4;

/// Marker for the gossip sub-protocol.
#[derive(Debug)]
pub struct Gossip;

/// Marker for the repository-transfer sub-protocol.
#[derive(Debug)]
pub struct Git;

/// Marker for the membership sub-protocol.
#[derive(Debug)]
pub struct Membership;

/// Marker for the interrogation sub-protocol.
#[derive(Debug)]
pub struct Interrogation;

/// Marker for the request-pull sub-protocol.
#[derive(Debug)]
pub struct RequestPull;

/// The sub-protocol about to be sent over a given stream.
///
/// Only valid as the first message sent by the initiator of a fresh stream.
/// No response is expected; the initiator may start sending data immediately
/// after. A receiver unwilling to handle the announced protocol simply closes
/// the stream.
#[derive(Debug, Clone, Copy, PartialEq, Eq, Structural)]
pub enum UpgradeRequest {
    Gossip,
    Git,
    Membership,
    Interrogation,
    /// Temporary stream kind, slated for deprecation.
    RequestPull,
}

/// The wire discriminator of each sub-protocol.
pub open spec fn spec_discriminator(req: UpgradeRequest) -> u8 {
    match req {
        UpgradeRequest::Gossip => 0,
        UpgradeRequest::Git => 1,
        UpgradeRequest::Membership => 2,
        UpgradeRequest::Interrogation => 3,
        UpgradeRequest::RequestPull => 200,
    }
}

/// The bytes that encoding an [`UpgradeRequest`] produces: `[0x82, 0x00, d, 0xFF]`
/// for discriminators up to 23, `[0x82, 0x00, 0x18, d]` above.
pub open spec fn spec_encode(req: UpgradeRequest) -> Seq<u8> {
    let d = spec_discriminator(req);
    if d <= 23 {
        seq![0x82u8, 0x00u8, d, 0xFFu8]
    } else {
        seq![0x82u8, 0x00u8, 0x18u8, d]
    }
}

/// Why a buffer failed to decode as an [`UpgradeRequest`].
#[derive(Debug, Clone, Copy, PartialEq, Eq, Structural)]
pub enum DecodeError {
    /// The buffer does not begin with the header of a 2-element array.
    ExpectedArray,
    /// The version tag or the discriminator is not one we know. Carries the
    /// offending value.
    UnknownVariant(u32),
    /// The buffer ended in the middle of an integer.
    Truncated,
    /// A byte that should start an unsigned integer does not.
    NotAnInteger,
}

/// Result of reading one unsigned 8-bit integer at `pos`: the value and the
/// position just past it. Integers up to 23 stand alone; `0x18` prefixes a
/// one-byte value.
pub open spec fn spec_parse_uint(bytes: Seq<u8>, pos: int) -> Result<(u8, int), DecodeError> {
    if pos >= bytes.len() {
        Err(DecodeError::Truncated)
    } else if bytes[pos] < 0x18 {
        Ok((bytes[pos], pos + 1))
    } else if bytes[pos] == 0x18 {
        if pos + 1 >= bytes.len() {
            Err(DecodeError::Truncated)
        } else {
            Ok((bytes[pos + 1], pos + 2))
        }
    } else {
        Err(DecodeError::NotAnInteger)
    }
}

/// The [`UpgradeRequest`] a known discriminator stands for.
pub open spec fn spec_request_of(d: u8) -> Result<UpgradeRequest, DecodeError> {
    if d == 0 {
        Ok(UpgradeRequest::Gossip)
    } else if d == 1 {
        Ok(UpgradeRequest::Git)
    } else if d == 2 {
        Ok(UpgradeRequest::Membership)
    } else if d == 3 {
        Ok(UpgradeRequest::Interrogation)
    } else if d == 200 {
        Ok(UpgradeRequest::RequestPull)
    } else {
        Err(DecodeError::UnknownVariant(d as u32))
    }
}

/// What decoding a buffer yields: the header must announce a 2-element array,
/// the version must be 0, and the discriminator must be known. Trailing bytes
/// (the compatibility padding) are ignored.
pub open spec fn spec_decode(bytes: Seq<u8>) -> Result<UpgradeRequest, DecodeError> {
    if bytes.len() == 0 {
        Err(DecodeError::Truncated)
    } else if bytes[0] != 0x82 {
        Err(DecodeError::ExpectedArray)
    } else {
        match spec_parse_uint(bytes, 1) {
            Err(e) => Err(e),
            Ok((version, next)) => {
                if version != 0 {
                    Err(DecodeError::UnknownVariant(version as u32))
                } else {
                    match spec_parse_uint(bytes, next) {
                        Err(e) => Err(e),
                        Ok((d, _)) => spec_request_of(d),
                    }
                }
            },
        }
    }
}

impl UpgradeRequest {
    /// The wire discriminator of this request.
    pub fn discriminator(self) -> (d: u8)
        ensures
            d == spec_discriminator(self),
    {
        match self {
            UpgradeRequest::Gossip => 0,
            UpgradeRequest::Git => 1,
            UpgradeRequest::Membership => 2,
            UpgradeRequest::Interrogation => 3,
            UpgradeRequest::RequestPull => 200,
        }
    }

    /// Encode this request for the wire. The frame is always exactly
    /// [`UPGRADE_REQUEST_ENCODING_LEN`] bytes long.
    pub fn encode(self) -> (bytes: Vec<u8>)
        ensures
            bytes@ == spec_encode(self),
            bytes@.len() == UPGRADE_REQUEST_ENCODING_LEN,
    {
        let d = self.discriminator();
        let mut bytes: Vec<u8> = Vec::new();
        bytes.push(0x82);
        bytes.push(0x00);
        if d <= 23 {
            bytes.push(d);
            bytes.push(0xFF);
        } else {
            bytes.push(0x18);
            bytes.push(d);
        }
        proof {
            assert(bytes@ =~= spec_encode(self));
        }
        bytes
    }

    /// Decode a received frame.
    pub fn decode(bytes: &[u8]) -> (r: Result<UpgradeRequest, DecodeError>)
        ensures
            r == spec_decode(bytes@),
    {
        if bytes.len() == 0 {
            return Err(DecodeError::Truncated);
        }
        if bytes[0] != 0x82 {
            return Err(DecodeError::ExpectedArray);
        }
        let (version, next) = match Self::parse_uint(bytes, 1) {
            Ok(p) => p,
            Err(e) => {
                return Err(e);
            },
        };
        if version != 0 {
            return Err(DecodeError::UnknownVariant(version as u32));
        }
        let (d, _rest) = match Self::parse_uint(bytes, next) {
            Ok(p) => p,
            Err(e) => {
                return Err(e);
            },
        };
        if d == 0 {
            Ok(UpgradeRequest::Gossip)
        } else if d == 1 {
            Ok(UpgradeRequest::Git)
        } else if d == 2 {
            Ok(UpgradeRequest::Membership)
        } else if d == 3 {
            Ok(UpgradeRequest::Interrogation)
        } else if d == 200 {
            Ok(UpgradeRequest::RequestPull)
        } else {
            Err(DecodeError::UnknownVariant(d as u32))
        }
    }

    fn parse_uint(bytes: &[u8], pos: usize) -> (r: Result<(u8, usize), DecodeError>)
        requires
            pos <= bytes@.len(),
        ensures
            match r {
                Ok((v, next)) => spec_parse_uint(bytes@, pos as int) == Ok::<_, DecodeError>(
                    (v, next as int),
                ),
                Err(e) => spec_parse_uint(bytes@, pos as int) == Err::<(u8, int), _>(e),
            },
    {
        if pos >= bytes.len() {
            Err(DecodeError::Truncated)
        } else if bytes[pos] < 0x18 {
            Ok((bytes[pos], pos + 1))
        } else if bytes[pos] == 0x18 {
            if pos + 1 >= bytes.len() {
                Err(DecodeError::Truncated)
            } else {
                Ok((bytes[pos + 1], pos + 2))
            }
        } else {
            Err(DecodeError::NotAnInteger)
        }
    }
}

/// Encoding then decoding gives back the request: every defined tag survives
/// the trip through the wire format, padding included.
pub proof fn lemma_encode_decode_roundtrip(req: UpgradeRequest)
    ensures
        spec_decode(spec_encode(req)) == Ok::<UpgradeRequest, DecodeError>(req),
{
}

/// Every defined tag encodes to exactly four bytes, in the short form and in
/// the long form alike.
pub proof fn lemma_encode_len(req: UpgradeRequest)
    ensures
        spec_encode(req).len() == 4,
{
}

impl From<Gossip> for UpgradeRequest {
    fn from(g: Gossip) -> (r: UpgradeRequest) {
        UpgradeRequest::Gossip
    }
}

impl vstd::std_specs::convert::FromSpecImpl<Gossip> for UpgradeRequest {
    open spec fn obeys_from_spec() -> bool {
        true
    }

    open spec fn from_spec(g: Gossip) -> UpgradeRequest {
        UpgradeRequest::Gossip
    }
}

impl From<Git> for UpgradeRequest {
    fn from(g: Git) -> (r: UpgradeRequest) {
        UpgradeRequest::Git
    }
}

impl vstd::std_specs::convert::FromSpecImpl<Git> for UpgradeRequest {
    open spec fn obeys_from_spec() -> bool {
        true
    }

    open spec fn from_spec(g: Git) -> UpgradeRequest {
        UpgradeRequest::Git
    }
}

impl From<Membership> for UpgradeRequest {
    fn from(m: Membership) -> (r: UpgradeRequest) {
        UpgradeRequest::Membership
    }
}

impl vstd::std_specs::convert::FromSpecImpl<Membership> for UpgradeRequest {
    open spec fn obeys_from_spec() -> bool {
        true
    }

    open spec fn from_spec(m: Membership) -> UpgradeRequest {
        UpgradeRequest::Membership
    }
}

impl From<Interrogation> for UpgradeRequest {
    fn from(i: Interrogation) -> (r: UpgradeRequest) {
        UpgradeRequest::Interrogation
    }
}

impl vstd::std_specs::convert::FromSpecImpl<Interrogation> for UpgradeRequest {
    open spec fn obeys_from_spec() -> bool {
        true
    }

    open spec fn from_spec(i: Interrogation) -> UpgradeRequest {
        UpgradeRequest::Interrogation
    }
}

impl From<RequestPull> for UpgradeRequest {
    fn from(p: RequestPull) -> (r: UpgradeRequest) {
        UpgradeRequest::RequestPull
    }
}

impl vstd::std_specs::convert::FromSpecImpl<RequestPull> for UpgradeRequest {
    open spec fn obeys_from_spec() -> bool {
        true
    }

    open spec fn from_spec(p: RequestPull) -> UpgradeRequest {
        UpgradeRequest::RequestPull
    }
}

/// What went wrong while negotiating an upgrade.
#[derive(Debug, Clone, Copy, PartialEq, Eq, Structural)]
pub enum ErrorSource {
    /// The responder's read did not complete within the deadline.
    Timeout,
    /// The request could not be serialized by the sending side.
    Encode,
    /// The received frame could not be decoded.
    Decode(DecodeError),
    /// The transport failed while sending or receiving the frame.
    Io,
}

/// A failed upgrade. The stream is carried back with the error so that the
/// caller decides whether to reset or close it.
#[derive(Debug)]
pub struct Error<S> {
    pub stream: S,
    pub source: ErrorSource,
}

/// A stream that has been upgraded to the sub-protocol `U`. The marker exists
/// only at the type level, so that an interface requiring, say, a [`Git`]
/// stream cannot be handed a [`Membership`] stream.
#[derive(Debug)]
pub struct Upgraded<U, S> {
    stream: S,
    _marker: core::marker::PhantomData<U>,
}

impl<U, S> Upgraded<U, S> {
    /// The underlying stream.
    pub closed spec fn spec_stream(self) -> S {
        self.stream
    }

    pub fn new(stream: S) -> (r: Self)
        ensures
            r.spec_stream() == stream,
    {
        Self { stream, _marker: core::marker::PhantomData }
    }

    pub fn into_stream(self) -> (r: S)
        ensures
            r == self.spec_stream(),
    {
        self.stream
    }

    /// Borrow the underlying stream.
    pub fn stream_ref(&self) -> (r: &S)
        ensures
            *r == self.spec_stream(),
    {
        &self.stream
    }

    /// Exchange the underlying stream while keeping the protocol tag.
    pub fn map<T, F: FnOnce(S) -> T>(self, f: F) -> (r: Upgraded<U, T>)
        requires
            call_requires(f, (self.spec_stream(),)),
        ensures
            call_ensures(f, (self.spec_stream(),), r.spec_stream()),
    {
        Upgraded { stream: f(self.stream), _marker: core::marker::PhantomData }
    }
}

/// The outcome of a responder's negotiation: a stream upgraded to whichever
/// sub-protocol the initiator announced.
#[derive(Debug)]
pub enum SomeUpgraded<S> {
    Gossip(Upgraded<Gossip, S>),
    Git(Upgraded<Git, S>),
    Membership(Upgraded<Membership, S>),
    Interrogation(Upgraded<Interrogation, S>),
    RequestPull(Upgraded<RequestPull, S>),
}

impl<S> SomeUpgraded<S> {
    /// The request this variant answers.
    pub open spec fn spec_request(self) -> UpgradeRequest {
        match self {
            SomeUpgraded::Gossip(_) => UpgradeRequest::Gossip,
            SomeUpgraded::Git(_) => UpgradeRequest::Git,
            SomeUpgraded::Membership(_) => UpgradeRequest::Membership,
            SomeUpgraded::Interrogation(_) => UpgradeRequest::Interrogation,
            SomeUpgraded::RequestPull(_) => UpgradeRequest::RequestPull,
        }
    }

    /// The underlying stream, whatever the variant.
    pub open spec fn spec_inner_stream(self) -> S {
        match self {
            SomeUpgraded::Gossip(up) => up.spec_stream(),
            SomeUpgraded::Git(up) => up.spec_stream(),
            SomeUpgraded::Membership(up) => up.spec_stream(),
            SomeUpgraded::Interrogation(up) => up.spec_stream(),
            SomeUpgraded::RequestPull(up) => up.spec_stream(),
        }
    }

    /// Wrap `stream` in the variant that answers `req`.
    pub fn from_request(req: UpgradeRequest, stream: S) -> (r: Self)
        ensures
            r.spec_request() == req,
            r.spec_inner_stream() == stream,
    {
        match req {
            UpgradeRequest::Gossip => SomeUpgraded::Gossip(Upgraded::new(stream)),
            UpgradeRequest::Git => SomeUpgraded::Git(Upgraded::new(stream)),
            UpgradeRequest::Membership => SomeUpgraded::Membership(Upgraded::new(stream)),
            UpgradeRequest::Interrogation => SomeUpgraded::Interrogation(Upgraded::new(stream)),
            UpgradeRequest::RequestPull => SomeUpgraded::RequestPull(Upgraded::new(stream)),
        }
    }

    /// Exchange the underlying stream while keeping the negotiated variant.
    pub fn map<T, F: FnOnce(S) -> T>(self, f: F) -> (r: SomeUpgraded<T>)
        requires
            call_requires(f, (self.spec_inner_stream(),)),
        ensures
            r.spec_request() == self.spec_request(),
            call_ensures(f, (self.spec_inner_stream(),), r.spec_inner_stream()),
    {
        match self {
            SomeUpgraded::Gossip(up) => SomeUpgraded::Gossip(up.map(f)),
            SomeUpgraded::Git(up) => SomeUpgraded::Git(up.map(f)),
            SomeUpgraded::Membership(up) => SomeUpgraded::Membership(up.map(f)),
            SomeUpgraded::Interrogation(up) => SomeUpgraded::Interrogation(up.map(f)),
            SomeUpgraded::RequestPull(up) => SomeUpgraded::RequestPull(up.map(f)),
        }
    }
}

/// A write half of a stream, as the initiator sees it: the only operation the
/// negotiation needs is writing a whole buffer. Implementations log what they
/// have accepted so far; on failure nothing is promised about how much of the
/// buffer went out.
pub trait ByteSink {
    /// Everything successfully written so far. The default stands in for
    /// implementations the verifier never sees; verified ones supply
    /// their own.
    open spec fn written(&self) -> Seq<u8> {
        Seq::empty()
    }

    fn write_all(&mut self, bytes: &[u8]) -> (ok: bool)
        ensures
            ok ==> final(self).written() == old(self).written() + bytes@,
    ;
}

/// Initiate an upgrade: serialize the request and write it to the stream. On
/// success the stream comes back upgraded; on failure the error retains
/// ownership of the stream, and nothing is promised about how much of the
/// frame was written.
pub fn upgrade<U: Into<UpgradeRequest>, S: ByteSink>(stream: S, up: U) -> (r: Result<
    Upgraded<U, S>,
    Error<S>,
>)
    ensures
        r matches Ok(upgraded) ==> exists|req: UpgradeRequest|
            upgraded.spec_stream().written() == stream.written() + spec_encode(req),
        <U as vstd::std_specs::convert::IntoSpec<UpgradeRequest>>::obeys_into_spec() ==> (
        r matches Ok(upgraded) ==> upgraded.spec_stream().written() == stream.written()
            + spec_encode(up.into_spec())),
        r matches Err(e) ==> e.source == ErrorSource::Io,
{
    let mut stream = stream;
    let req: UpgradeRequest = up.into();
    let bytes = req.encode();
    if stream.write_all(bytes.as_slice()) {
        Ok(Upgraded::new(stream))
    } else {
        Err(Error { stream, source: ErrorSource::Io })
    }
}

/// What a responder's read of the upgrade frame produced.
#[derive(Debug)]
pub enum ReadOutcome {
    /// The frame arrived in time.
    Bytes(Vec<u8>),
    /// The deadline of [`RECV_UPGRADE_TIMEOUT_SECS`] passed first.
    TimedOut,
    /// The transport failed.
    Failed,
}

/// A read half of a stream, as the responder sees it: one attempt to read the
/// fixed-length upgrade frame under the deadline. What comes back depends on
/// the remote peer and the clock, so nothing is promised of the outcome.
pub trait UpgradeSource {
    fn read_upgrade_frame(&mut self) -> (r: ReadOutcome);
}

/// Turn the outcome of reading the upgrade frame into the negotiated stream
/// or the precise error: a timely frame is decoded and dispatched to the
/// variant it announces; a timeout or transport failure becomes the matching
/// error kind, the stream carried back in every failure.
pub fn interpret_frame<S>(outcome: ReadOutcome, stream: S) -> (r: Result<
    SomeUpgraded<S>,
    Error<S>,
>)
    ensures
        match outcome {
            ReadOutcome::Bytes(bytes) => match spec_decode(bytes@) {
                Ok(req) => r matches Ok(su) && su.spec_request() == req
                    && su.spec_inner_stream() == stream,
                Err(d) => r matches Err(e) && e.stream == stream && e.source
                    == ErrorSource::Decode(d),
            },
            ReadOutcome::TimedOut => r matches Err(e) && e.stream == stream && e.source
                == ErrorSource::Timeout,
            ReadOutcome::Failed => r matches Err(e) && e.stream == stream && e.source
                == ErrorSource::Io,
        },
{
    match outcome {
        ReadOutcome::Bytes(bytes) => match UpgradeRequest::decode(bytes.as_slice()) {
            Ok(req) => Ok(SomeUpgraded::from_request(req, stream)),
            Err(d) => Err(Error { stream, source: ErrorSource::Decode(d) }),
        },
        ReadOutcome::TimedOut => Err(Error { stream, source: ErrorSource::Timeout }),
        ReadOutcome::Failed => Err(Error { stream, source: ErrorSource::Io }),
    }
}

/// Await an upgrade on a fresh incoming stream: read the frame under the
/// deadline and dispatch it. The exact relation between what was read and
/// what is returned is stated on [`interpret_frame`]; what the read itself
/// produces depends on the remote peer, so this function promises only that
/// every failure carries a negotiation error kind and never a sender-side one.
pub fn with_upgraded<S: UpgradeSource>(incoming: S) -> (r: Result<SomeUpgraded<S>, Error<S>>)
    ensures
        r matches Err(e) ==> e.source != ErrorSource::Encode,
{
    let mut incoming = incoming;
    let outcome = incoming.read_upgrade_frame();
    interpret_frame(outcome, incoming)
}

} // verus!
