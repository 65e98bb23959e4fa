//! Cross-chain carbon asset and attestation bridge, modeled as two verified
//! state machines that share one synchronization pattern.
//!
//! The certificate registry issues, revokes and attests carbon certificates;
//! the credit ledger mints, burns and retires fungible carbon credits. Each
//! local mutation can be packaged into an outbound message with a stable,
//! versioned binary encoding, and each inbound message is validated and
//! applied exactly once. Storage, transport and token plumbing live outside
//! this crate; the library takes plain values (identities as 32-byte keys,
//! the clock as an epoch-second argument) and states in its contracts what
//! each operation does to the modeled state.

pub mod account;
pub mod certificate;
pub mod credit;
pub mod message;
pub mod wire;
