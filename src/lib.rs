//! Rules of a turn-based two-player space-combat game: matchmaking, the maneuver and
//! action cycle of a session, weapon fire with a replayable random stream, upgrades,
//! and the decoding of requests. Every quantity is an integer (thousandths for
//! lengths, angles, health, damage and hit chance), so that any two parties that
//! replay the same requests reach the same state.

/// Finite maps kept as lists of entries with distinct keys.
pub mod dictionary;
/// Why an operation was rejected.
pub mod error;
/// Requests as they arrive on the wire.
pub mod instruction;
/// Account identifiers.
pub mod key;
/// Laws that hold across operations.
pub mod laws;
/// The waiting queue and the map of active games.
pub mod matchmaking;
/// The SplitMix64 stream that decides hits.
pub mod random;
/// A game session and its operations.
pub mod session;
/// Ships and their stats.
pub mod ship;
