use link_core::upgrade::{
    DecodeError, ErrorSource, Gossip, ReadOutcome, SomeUpgraded, UpgradeRequest, Upgraded,
    interpret_frame, upgrade, with_upgraded, ByteSink, UpgradeSource,
    UPGRADE_REQUEST_ENCODING_LEN, RECV_UPGRADE_TIMEOUT_SECS,
};

#[test]
fn encode_bit_exact_vectors() {
    assert_eq!(UpgradeRequest::Gossip.encode(), vec![0x82, 0x00, 0x00, 0xFF]);
    assert_eq!(UpgradeRequest::Git.encode(), vec![0x82, 0x00, 0x01, 0xFF]);
    assert_eq!(UpgradeRequest::Membership.encode(), vec![0x82, 0x00, 0x02, 0xFF]);
    assert_eq!(UpgradeRequest::Interrogation.encode(), vec![0x82, 0x00, 0x03, 0xFF]);
    assert_eq!(UpgradeRequest::RequestPull.encode(), vec![0x82, 0x00, 0x18, 0xC8]);
}

#[test]
fn encode_is_always_four_bytes() {
    let all = [
        UpgradeRequest::Gossip,
        UpgradeRequest::Git,
        UpgradeRequest::Membership,
        UpgradeRequest::Interrogation,
        UpgradeRequest::RequestPull,
    ];
    for req in all {
        assert_eq!(req.encode().len(), UPGRADE_REQUEST_ENCODING_LEN);
    }
}

#[test]
fn decode_encode_roundtrip() {
    let all = [
        UpgradeRequest::Gossip,
        UpgradeRequest::Git,
        UpgradeRequest::Membership,
        UpgradeRequest::Interrogation,
        UpgradeRequest::RequestPull,
    ];
    for req in all {
        let bytes = req.encode();
        assert_eq!(UpgradeRequest::decode(&bytes), Ok(req));
    }
}

#[test]
fn decode_rejects_unknown_discriminator() {
    assert_eq!(
        UpgradeRequest::decode(&[0x82, 0x00, 0x07, 0xFF]),
        Err(DecodeError::UnknownVariant(7))
    );
}

#[test]
fn decode_rejects_wrong_version() {
    assert_eq!(
        UpgradeRequest::decode(&[0x82, 0x01, 0x00, 0xFF]),
        Err(DecodeError::UnknownVariant(1))
    );
}

#[test]
fn decode_rejects_non_array_header() {
    assert_eq!(
        UpgradeRequest::decode(&[0x80, 0x00, 0x00, 0xFF]),
        Err(DecodeError::ExpectedArray)
    );
}

#[test]
fn decode_rejects_truncated_and_malformed_input() {
    assert_eq!(UpgradeRequest::decode(&[]), Err(DecodeError::Truncated));
    assert_eq!(UpgradeRequest::decode(&[0x82]), Err(DecodeError::Truncated));
    assert_eq!(
        UpgradeRequest::decode(&[0x82, 0x00, 0x18]),
        Err(DecodeError::Truncated)
    );
    assert_eq!(
        UpgradeRequest::decode(&[0x82, 0x19, 0x00, 0x00]),
        Err(DecodeError::NotAnInteger)
    );
}

#[test]
fn timeout_deadline_is_twenty_three_seconds() {
    assert_eq!(RECV_UPGRADE_TIMEOUT_SECS, 23);
}

/// A stream double that records everything written to it. Used where the
/// negotiation only needs the write half.
struct Sink {
    written: Vec<u8>,
    accept: bool,
}

impl ByteSink for Sink {
    fn write_all(&mut self, bytes: &[u8]) -> bool {
        if self.accept {
            self.written.extend_from_slice(bytes);
        }
        self.accept
    }
}

#[test]
fn upgrade_writes_exactly_the_frame() {
    let sink = Sink { written: Vec::new(), accept: true };
    let upgraded = upgrade(sink, Gossip).map_err(|_| ()).expect("upgrade should succeed");
    assert_eq!(upgraded.into_stream().written, vec![0x82, 0x00, 0x00, 0xFF]);
}

#[test]
fn upgrade_failure_returns_the_stream_with_io_error() {
    let sink = Sink { written: Vec::new(), accept: false };
    match upgrade(sink, Gossip) {
        Ok(_) => panic!("expected failure"),
        Err(e) => {
            assert_eq!(e.source, ErrorSource::Io);
            assert!(e.stream.written.is_empty());
        },
    }
}

#[test]
fn responder_demux_membership_passes_stream_through() {
    // The "stream" here is the payload that follows the upgrade frame; it
    // must come back byte-identical inside the negotiated variant.
    let payload: Vec<u8> = vec![1, 2, 3, 4, 5];
    let outcome = ReadOutcome::Bytes(vec![0x82, 0x00, 0x02, 0xFF]);
    match interpret_frame(outcome, payload.clone()) {
        Ok(SomeUpgraded::Membership(up)) => assert_eq!(up.into_stream(), payload),
        other => panic!("expected Membership, got {:?}", other),
    }
}

#[test]
fn responder_demux_each_variant() {
    match interpret_frame(ReadOutcome::Bytes(vec![0x82, 0x00, 0x00, 0xFF]), ()) {
        Ok(SomeUpgraded::Gossip(_)) => {},
        other => panic!("expected Gossip, got {:?}", other),
    }
    match interpret_frame(ReadOutcome::Bytes(vec![0x82, 0x00, 0x01, 0xFF]), ()) {
        Ok(SomeUpgraded::Git(_)) => {},
        other => panic!("expected Git, got {:?}", other),
    }
    match interpret_frame(ReadOutcome::Bytes(vec![0x82, 0x00, 0x03, 0xFF]), ()) {
        Ok(SomeUpgraded::Interrogation(_)) => {},
        other => panic!("expected Interrogation, got {:?}", other),
    }
    match interpret_frame(ReadOutcome::Bytes(vec![0x82, 0x00, 0x18, 0xC8]), ()) {
        Ok(SomeUpgraded::RequestPull(_)) => {},
        other => panic!("expected RequestPull, got {:?}", other),
    }
}

#[test]
fn responder_timeout_carries_stream_back() {
    let payload: Vec<u8> = vec![9, 9, 9];
    match interpret_frame(ReadOutcome::TimedOut, payload.clone()) {
        Err(e) => {
            assert_eq!(e.source, ErrorSource::Timeout);
            assert_eq!(e.stream, payload);
        },
        Ok(_) => panic!("expected timeout error"),
    }
}

#[test]
fn responder_decode_error_carries_stream_back() {
    let payload: Vec<u8> = vec![7];
    match interpret_frame(ReadOutcome::Bytes(vec![0x82, 0x00, 0x07, 0xFF]), payload.clone()) {
        Err(e) => {
            assert_eq!(e.source, ErrorSource::Decode(DecodeError::UnknownVariant(7)));
            assert_eq!(e.stream, payload);
        },
        Ok(_) => panic!("expected decode error"),
    }
}

/// A read half that yields a fixed outcome once.
struct Source {
    outcome: Option<ReadOutcome>,
    payload: Vec<u8>,
}

impl UpgradeSource for Source {
    fn read_upgrade_frame(&mut self) -> ReadOutcome {
        self.outcome.take().expect("read only once")
    }
}

#[test]
fn with_upgraded_dispatches_by_frame() {
    let source = Source {
        outcome: Some(ReadOutcome::Bytes(vec![0x82, 0x00, 0x02, 0xFF])),
        payload: vec![42],
    };
    match with_upgraded(source) {
        Ok(SomeUpgraded::Membership(up)) => assert_eq!(up.into_stream().payload, vec![42]),
        other => panic!("expected Membership, got result variant {}", match other {
            Ok(_) => "Ok",
            Err(_) => "Err",
        }),
    }
}

#[test]
fn with_upgraded_surfaces_transport_failure() {
    let source = Source { outcome: Some(ReadOutcome::Failed), payload: vec![] };
    match with_upgraded(source) {
        Err(e) => assert_eq!(e.source, ErrorSource::Io),
        Ok(_) => panic!("expected failure"),
    }
}

#[test]
fn upgraded_map_exchanges_the_stream() {
    let up: Upgraded<Gossip, u32> = Upgraded::new(7);
    assert_eq!(*up.stream_ref(), 7);
    let up2 = up.map(|n| n + 1);
    assert_eq!(up2.into_stream(), 8);
}

#[test]
fn some_upgraded_map_keeps_the_variant() {
    let su = SomeUpgraded::Git(Upgraded::new(5u32));
    match su.map(|n| n * 2) {
        SomeUpgraded::Git(up) => assert_eq!(up.into_stream(), 10),
        other => panic!("variant changed: {:?}", other),
    }
}

#[test]
fn upgrade_request_from_markers() {
    assert_eq!(UpgradeRequest::from(Gossip), UpgradeRequest::Gossip);
    assert_eq!(
        UpgradeRequest::from(link_core::upgrade::Git),
        UpgradeRequest::Git
    );
    assert_eq!(
        UpgradeRequest::from(link_core::upgrade::Membership),
        UpgradeRequest::Membership
    );
    assert_eq!(
        UpgradeRequest::from(link_core::upgrade::Interrogation),
        UpgradeRequest::Interrogation
    );
    assert_eq!(
        UpgradeRequest::from(link_core::upgrade::RequestPull),
        UpgradeRequest::RequestPull
    );
}
