use vstd::prelude::*;

verus! {

/// Why an operation was rejected. A rejected operation changes nothing.
#[derive(Clone, Copy, Debug, PartialEq, Eq, Structural)]
pub enum GameError {
    /// The record address that was derived does not match the one provided.
    InvalidPDA,
    /// The acting ship, player or game state does not allow the operation.
    InvalidShip,
    /// The target, or the ship index, is not acceptable.
    InvalidTarget,
}

impl GameError {
    /// The numeric code under which the error is reported to clients.
    pub fn code(&self) -> (r: u32)
        ensures
            r == match *self {
                GameError::InvalidPDA => 0u32,
                GameError::InvalidShip => 1u32,
                GameError::InvalidTarget => 2u32,
            },
    {
        match self {
            GameError::InvalidPDA => 0,
            GameError::InvalidShip => 1,
            GameError::InvalidTarget => 2,
        }
    }
}

} // verus!
