//! A connect-N engine: a rectangular grid into which two players drop pieces,
//! the analysis that finds the longest lines of each player, the evaluation of
//! a position, and a depth-bounded alpha-beta search whose answer is proved to
//! be that of the plain minimax recursion.

use vstd::prelude::*;

pub mod board;
pub mod dimensions;
pub mod evaluate;
pub mod game;
pub mod minimax;
pub mod runs;
pub mod search;
pub mod space;

pub use self::board::Board;
pub use self::dimensions::Dimensions;
pub use self::game::Game;
pub use self::game::Outcome;
pub use self::runs::Direction;
pub use self::runs::LongestRuns;
pub use self::runs::RunData;
pub use self::space::Player;
pub use self::space::Space;

verus! {

/// What can go wrong when a game is set up, played or evaluated.
#[derive(Debug, Clone, Copy, PartialEq, Eq, Structural)]
pub enum GameError {
    /// The rows do not form a grid, or no line of the winning length fits in it.
    InvalidGameDefinition,
    /// Both players hold a winning line at once.
    InvalidGameState,
    /// The column does not exist or is already full.
    InvalidMove,
}

impl GameError {
    /// The sentence that describes this error.
    pub fn message(&self) -> (text: &'static str)
        ensures
            text@ == self.spec_message(),
    {
        match self {
            GameError::InvalidGameDefinition => "Invalid game definition.",
            GameError::InvalidGameState => "Invalid game state.",
            GameError::InvalidMove => "Invalid move.",
        }
    }

    /// The characters of [`GameError::message`].
    pub open spec fn spec_message(&self) -> Seq<char> {
        match self {
            GameError::InvalidGameDefinition => "Invalid game definition."@,
            GameError::InvalidGameState => "Invalid game state."@,
            GameError::InvalidMove => "Invalid move."@,
        }
    }
}

} // verus!
