//! Scripts, transactions and key derivation for two-party payment channels
//! with hashed-time-locked contracts.
//!
//! Every script and transaction is built as an exact byte sequence; the
//! contracts state those bytes over `Seq<u8>` models.

pub mod opcodes;
pub mod encoding;
pub mod script;
pub mod hashes;
pub mod keys;
pub mod templates;
pub mod transaction;
pub mod chain;
pub mod channel;
pub mod wire;
pub mod fees;
pub mod peer;
