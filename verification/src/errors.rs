//! Error kinds reported by the library.

use vstd::prelude::*;

verus! {

/// Why an operation or a construction was rejected.
#[derive(Debug, Clone, Copy, PartialEq, Eq, Structural)]
pub enum GameError {
    /// A move string has the wrong length or holds an invalid character.
    MalformedNotation,
    /// A coordinate lies beyond the board extent.
    OutOfBounds,
    /// A move fails a legality or connectivity check.
    IllegalMove,
    /// The board size is invalid, or a serialized state cannot be loaded.
    InvalidConfiguration,
}

} // verus!
