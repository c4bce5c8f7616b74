//! The limits that the relay keeps.
use vstd::prelude::*;

verus! {

/// The longest line that a peer can send, in bytes.
pub const MAX_LINE: usize = 262144;

/// The most lines that wait for a peer to take them.
pub const TX_BUFFER: usize = 8;

/// The most connections that are admitted at a time, and the most names that a message can be
/// addressed to.
pub const MAX_CONNECTIONS: usize = 64;

/// The most tokens that are kept.
pub const MAX_TOKENS: usize = 1024;

/// The longest name that a peer can register, in characters.
pub const MAX_NAME: usize = 32;

/// How long a name stays reserved after its connection has gone, in nanoseconds: ten minutes.
pub const TOKEN_TTL: u64 = 600_000_000_000;

/// How long a peer can take to receive a line, in seconds.
pub const WRITE_TIMEOUT: u64 = 10;

/// How long a peer can take for a TLS handshake, in seconds.
pub const TLS_TIMEOUT: u64 = 10;

/// How long a peer that has not registered can take to send a line, in seconds.
pub const REGISTRATION_TIMEOUT: u64 = 10;

/// How long a registered peer can take to send a line, in seconds: five minutes.
pub const IDLE_TIMEOUT: u64 = 300;

} // verus!
