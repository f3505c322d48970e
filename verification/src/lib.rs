//! Core of a peer-to-peer code-collaboration network: per-stream
//! sub-protocol upgrade negotiation, token-bucket rate limiting with keyed
//! sweeping, a gossip-facing storage wrapper with admission control, the
//! peer runtime state with its stream factory, and the pure data
//! structures beside them (discussion threads, fetch want/have
//! negotiation).

pub mod clock;
pub mod limit;
pub mod nonempty;
pub mod peer;
pub mod state;
pub mod storage;
pub mod thread;
pub mod transmit;
pub mod upgrade;
