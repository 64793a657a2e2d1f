//! The contents of one cell of the grid, and the two players.

use vstd::prelude::*;

verus! {

/// One cell of the grid: empty, or holding a piece of one colour.
#[derive(Debug, Clone, Copy, PartialEq, Eq, Structural)]
pub enum Space {
    Empty,
    Red,
    Yellow,
}

/// The two sides. `AI` maximises the score and plays red; `Opponent`
/// minimises it and plays yellow.
#[derive(Debug, Clone, Copy, PartialEq, Eq, Structural)]
pub enum Player {
    AI,
    Opponent,
}

impl Space {
    /// The one-character picture of this cell.
    pub open spec fn spec_glyph(self) -> char {
        match self {
            Space::Empty => '.',
            Space::Red => 'R',
            Space::Yellow => 'Y',
        }
    }

    /// The picture of this cell as text: `"."`, `"R"` or `"Y"`.
    pub fn glyph(&self) -> (text: &'static str)
        ensures
            text@ == seq![self.spec_glyph()],
    {
        proof {
            reveal_strlit(".");
            reveal_strlit("R");
            reveal_strlit("Y");
        }
        let text = match self {
            Space::Empty => ".",
            Space::Red => "R",
            Space::Yellow => "Y",
        };
        assert(text@ =~= seq![self.spec_glyph()]);
        text
    }

    /// The player whose piece lies here, if any.
    pub open spec fn spec_owner(self) -> Option<Player> {
        match self {
            Space::Empty => None,
            Space::Red => Some(Player::AI),
            Space::Yellow => Some(Player::Opponent),
        }
    }

    /// The player whose piece lies here, if any.
    #[verifier::when_used_as_spec(spec_owner)]
    pub fn owner(self) -> (who: Option<Player>)
        ensures
            who == self.spec_owner(),
    {
        match self {
            Space::Empty => None,
            Space::Red => Some(Player::AI),
            Space::Yellow => Some(Player::Opponent),
        }
    }
}

impl Player {
    /// The colour this player drops.
    pub open spec fn spec_piece(self) -> Space {
        match self {
            Player::AI => Space::Red,
            Player::Opponent => Space::Yellow,
        }
    }

    /// The colour this player drops.
    #[verifier::when_used_as_spec(spec_piece)]
    pub fn piece(self) -> (colour: Space)
        ensures
            colour == self.spec_piece(),
    {
        match self {
            Player::AI => Space::Red,
            Player::Opponent => Space::Yellow,
        }
    }

    /// The player who moves after this one.
    pub open spec fn spec_other(self) -> Player {
        match self {
            Player::AI => Player::Opponent,
            Player::Opponent => Player::AI,
        }
    }

    /// The player who moves after this one.
    #[verifier::when_used_as_spec(spec_other)]
    pub fn other(self) -> (next: Player)
        ensures
            next == self.spec_other(),
    {
        match self {
            Player::AI => Player::Opponent,
            Player::Opponent => Player::AI,
        }
    }

    /// Whether this player would rather have `score` than `rival`: the
    /// maximiser wants more, the minimiser less. Equal scores are never
    /// preferred, so the earlier of two equally good moves stays.
    pub open spec fn spec_prefers(self, score: isize, rival: isize) -> bool {
        match self {
            Player::AI => score > rival,
            Player::Opponent => score < rival,
        }
    }

    /// Whether this player would rather have `score` than `rival`.
    #[verifier::when_used_as_spec(spec_prefers)]
    pub fn prefers(self, score: isize, rival: isize) -> (better: bool)
        ensures
            better == self.spec_prefers(score, rival),
    {
        match self {
            Player::AI => score > rival,
            Player::Opponent => score < rival,
        }
    }
}

} // verus!
