//! The two players of a game.

use vstd::prelude::*;

verus! {

/// Identifies one of the two players.
#[derive(Debug, Clone, Copy, PartialEq, Eq, Structural)]
pub enum Player {
    Player1,
    Player2,
}

impl Player {
    /// The other player.
    pub fn opponent(&self) -> (r: Self)
        ensures
            r == self.spec_opponent(),
    {
        match self {
            Player::Player1 => Player::Player2,
            Player::Player2 => Player::Player1,
        }
    }

    /// The other player, at the specification level.
    pub open spec fn spec_opponent(self) -> Self {
        match self {
            Player::Player1 => Player::Player2,
            Player::Player2 => Player::Player1,
        }
    }

    /// A short lower-case name.
    pub fn name(&self) -> (r: &'static str)
        ensures
            self is Player1 ==> r@ == "player1"@,
            self is Player2 ==> r@ == "player2"@,
    {
        match self {
            Player::Player1 => "player1",
            Player::Player2 => "player2",
        }
    }

    /// The player's number: 1 or 2.
    pub fn number(&self) -> (r: usize)
        ensures
            r == self.spec_number(),
    {
        match self {
            Player::Player1 => 1,
            Player::Player2 => 2,
        }
    }

    /// The player's number, at the specification level.
    pub open spec fn spec_number(self) -> usize {
        match self {
            Player::Player1 => 1usize,
            Player::Player2 => 2usize,
        }
    }
}

/// Taking the opponent twice returns to the same player.
pub proof fn lemma_opponent_involution(p: Player)
    ensures
        p.spec_opponent().spec_opponent() == p,
{
}

} // verus!
