//! Evaluation of a position: who has won, whether the game is drawn or still
//! open, and the score that the search works with.
//!
//! The score of a win of the AI is `isize::MAX`, that of a win of the
//! opponent `isize::MIN`. Every other score lies strictly between the two.

use vstd::prelude::*;
use crate::GameError;
use crate::board::Board;
use crate::game::Game;
use crate::game::Outcome;
use crate::runs::LongestRuns;
use crate::space::Player;

verus! {

/// `x`, brought into the range of scores that lie strictly between the two
/// winning scores.
pub open spec fn clamp_score(x: int) -> isize {
    if x >= isize::MAX {
        (isize::MAX - 1) as isize
    } else if x <= isize::MIN {
        (isize::MIN + 1) as isize
    } else {
        x as isize
    }
}

/// Who has won, given whether each player has a winning line. Both at once
/// is no state of a game.
pub open spec fn winner_of(ai_wins: bool, opponent_wins: bool) -> Result<Option<Player>, GameError> {
    match (ai_wins, opponent_wins) {
        (false, false) => Ok(None),
        (true, false) => Ok(Some(Player::AI)),
        (false, true) => Ok(Some(Player::Opponent)),
        (true, true) => Err(GameError::InvalidGameState),
    }
}

impl Board {
    /// `who` has a run of the winning length in some direction.
    pub open spec fn has_won(self, who: Player) -> bool {
        self.best_run(who) >= self.number_for_win
    }

    /// The winner of this position, if there is one.
    pub open spec fn winner(self) -> Result<Option<Player>, GameError> {
        winner_of(self.has_won(Player::AI), self.has_won(Player::Opponent))
    }

    /// How this position stands: won by the one player with a winning line,
    /// drawn when nobody has one and no cell is empty, open otherwise. A
    /// position in which both players have a winning line is an error.
    pub open spec fn outcome(self) -> Result<Outcome, GameError> {
        match self.winner() {
            Err(e) => Err(e),
            Ok(Some(who)) => Ok(Outcome::Winner(who)),
            Ok(None) => if self.is_full() {
                Ok(Outcome::Draw)
            } else {
                Ok(Outcome::Ongoing)
            },
        }
    }

    /// The estimate of an open position: the AI's longest run less the
    /// opponent's.
    pub open spec fn heuristic(self) -> isize {
        clamp_score(self.best_run(Player::AI) - self.best_run(Player::Opponent))
    }

    /// The score of this position with `depth` plies left to search, or
    /// `None` where the search has to look further: the position is open and
    /// `depth` is not zero.
    pub open spec fn evaluation(self, depth: nat) -> Result<Option<isize>, GameError> {
        match self.outcome() {
            Err(e) => Err(e),
            Ok(Outcome::Winner(Player::AI)) => Ok(Some(isize::MAX)),
            Ok(Outcome::Winner(Player::Opponent)) => Ok(Some(isize::MIN)),
            Ok(Outcome::Draw) => Ok(Some(0)),
            Ok(Outcome::Ongoing) => if depth == 0 {
                Ok(Some(self.heuristic()))
            } else {
                Ok(None)
            },
        }
    }

    /// A position is an error exactly when both players have a winning line.
    pub proof fn lemma_error_iff_both_won(self)
        ensures
            self.outcome() is Err <==> self.has_won(Player::AI) && self.has_won(Player::Opponent),
            self.outcome() is Err ==> self.outcome() == Err::<Outcome, GameError>(
                GameError::InvalidGameState,
            ),
    {
    }

    /// A full grid on which nobody has a winning line is a draw.
    pub proof fn lemma_full_without_winner_is_draw(self)
        requires
            self.is_full(),
            !self.has_won(Player::AI),
            !self.has_won(Player::Opponent),
        ensures
            self.outcome() == Ok::<Outcome, GameError>(Outcome::Draw),
    {
    }

    /// The estimate of a position lies strictly between the two winning
    /// scores.
    pub proof fn lemma_heuristic_between_sentinels(self)
        ensures
            isize::MIN < self.heuristic() < isize::MAX,
    {
    }

    /// The two extreme scores are given to won positions and to no others.
    pub proof fn lemma_sentinels_mark_wins(self, depth: nat)
        ensures
            self.evaluation(depth) == Ok::<Option<isize>, GameError>(Some(isize::MAX))
                <==> self.outcome() == Ok::<Outcome, GameError>(Outcome::Winner(Player::AI)),
            self.evaluation(depth) == Ok::<Option<isize>, GameError>(Some(isize::MIN))
                <==> self.outcome() == Ok::<Outcome, GameError>(
                Outcome::Winner(Player::Opponent),
            ),
    {
    }

    /// The search looks further exactly at open positions with depth left.
    pub proof fn lemma_unscored_iff_open(self, depth: nat)
        ensures
            self.evaluation(depth) == Ok::<Option<isize>, GameError>(None) <==> depth > 0
                && self.outcome() == Ok::<Outcome, GameError>(Outcome::Ongoing),
    {
    }
}

impl LongestRuns {
    /// Who has won when a line of `number_for_win` wins.
    pub open spec fn spec_winner(self, number_for_win: nat) -> Result<Option<Player>, GameError> {
        winner_of(
            self.best(Player::AI) >= number_for_win,
            self.best(Player::Opponent) >= number_for_win,
        )
    }

    /// The estimate that these runs give: the AI's longest run less the
    /// opponent's.
    pub open spec fn spec_score(self) -> isize {
        clamp_score(self.best(Player::AI) - self.best(Player::Opponent))
    }

    /// The winner according to these runs: the one player with a run of at
    /// least `number_for_win`, nobody if neither has one, and
    /// `InvalidGameState` if both have.
    pub fn winner(&self, number_for_win: usize) -> (result: Result<Option<Player>, GameError>)
        ensures
            result == self.spec_winner(number_for_win as nat),
    {
        let ai_wins: bool = self.horizontal.ai >= number_for_win || self.vertical.ai
            >= number_for_win || self.diagonal.ai >= number_for_win;

        let opponent_wins: bool = self.horizontal.opponent >= number_for_win
            || self.vertical.opponent >= number_for_win || self.diagonal.opponent
            >= number_for_win;

        match (ai_wins, opponent_wins) {
            (false, false) => Ok(None),
            (true, false) => Ok(Some(Player::AI)),
            (false, true) => Ok(Some(Player::Opponent)),
            (true, true) => Err(GameError::InvalidGameState),
        }
    }

    /// The longest run of `who` over the three orientations.
    pub fn best_of(&self, who: Player) -> (n: usize)
        ensures
            n == self.best(who),
    {
        let (h, v, d): (usize, usize, usize) = match who {
            Player::AI => (self.horizontal.ai, self.vertical.ai, self.diagonal.ai),
            Player::Opponent => (
                self.horizontal.opponent,
                self.vertical.opponent,
                self.diagonal.opponent,
            ),
        };
        let straight: usize = if h >= v {
            h
        } else {
            v
        };
        if straight >= d {
            straight
        } else {
            d
        }
    }

    /// The estimate grows with the AI's longest run and falls with the
    /// opponent's.
    pub proof fn lemma_score_is_monotone(self, other: LongestRuns)
        requires
            self.best(Player::AI) <= other.best(Player::AI),
            self.best(Player::Opponent) >= other.best(Player::Opponent),
        ensures
            self.spec_score() <= other.spec_score(),
    {
    }

    /// While the runs are short enough to be counted in an `isize`, a longer
    /// run of the AI, or a shorter one of the opponent, gives a strictly
    /// higher estimate.
    pub proof fn lemma_score_is_strictly_monotone(self, other: LongestRuns)
        requires
            self.best(Player::AI) <= other.best(Player::AI),
            self.best(Player::Opponent) >= other.best(Player::Opponent),
            self.best(Player::AI) < other.best(Player::AI) || self.best(Player::Opponent)
                > other.best(Player::Opponent),
            self.best(Player::Opponent) < isize::MAX,
            other.best(Player::AI) < isize::MAX,
        ensures
            self.spec_score() < other.spec_score(),
    {
    }
}

impl Game {
    /// Analysis and classification depend on the position alone: two games
    /// with the same cells and the same winning length have the same longest
    /// runs, the same winner and the same outcome, whichever analysis of
    /// each is taken.
    pub proof fn lemma_classification_is_deterministic(
        first: Game,
        second: Game,
        runs_of_first: LongestRuns,
        runs_of_second: LongestRuns,
    )
        requires
            first@ == second@,
            runs_of_first.describes(first@),
            runs_of_second.describes(second@),
        ensures
            runs_of_first == runs_of_second,
            runs_of_first.spec_winner(first@.number_for_win) == runs_of_second.spec_winner(
                second@.number_for_win,
            ),
            runs_of_first.spec_winner(first@.number_for_win) == first@.winner(),
            first@.outcome() == second@.outcome(),
    {
    }

    /// The winner of this game according to `longest_runs`.
    pub fn winner(&self, longest_runs: &LongestRuns) -> (result: Result<Option<Player>, GameError>)
        ensures
            result == longest_runs.spec_winner(self@.number_for_win),
            longest_runs.describes(self@) ==> result == self@.winner(),
    {
        longest_runs.winner(self.number_for_win())
    }

    /// The estimate of an open position from its longest runs: a score
    /// strictly between the two winning scores.
    pub fn score_incomplete_game(&self, longest_runs: &LongestRuns) -> (score: isize)
        ensures
            score == longest_runs.spec_score(),
            isize::MIN < score < isize::MAX,
            longest_runs.describes(self@) ==> score == self@.heuristic(),
    {
        let ai: usize = longest_runs.best_of(Player::AI);
        let opponent: usize = longest_runs.best_of(Player::Opponent);
        if ai >= opponent {
            let lead: usize = ai - opponent;
            if lead >= isize::MAX as usize {
                isize::MAX - 1
            } else {
                lead as isize
            }
        } else {
            let lag: usize = opponent - ai;
            if lag >= isize::MAX as usize {
                isize::MIN + 1
            } else {
                -(lag as isize)
            }
        }
    }

    /// Whether no cell of the grid is empty.
    pub fn is_full(&self) -> (full: bool)
        ensures
            full == self@.is_full(),
    {
        let height: usize = self.height();
        let width: usize = self.width();
        let mut r: usize = 0;
        while r < height
            invariant
                r <= height,
                height == self@.height(),
                width == self@.width(),
                forall|i: int, j: int|
                    0 <= i < r && 0 <= j < width ==> self@.at(i, j) != crate::space::Space::Empty,
            decreases height - r,
        {
            let mut c: usize = 0;
            while c < width
                invariant
                    c <= width,
                    r < height,
                    height == self@.height(),
                    width == self@.width(),
                    forall|i: int, j: int|
                        0 <= i < r && 0 <= j < width ==> self@.at(i, j)
                            != crate::space::Space::Empty,
                    forall|j: int| 0 <= j < c ==> self@.at(r as int, j) != crate::space::Space::Empty,
                decreases width - c,
            {
                match self.space_at(r, c) {
                    Some(crate::space::Space::Empty) => {
                        assert(self@.on_board(r as int, c as int));
                        return false;
                    },
                    _ => {},
                }
                c = c + 1;
            }
            r = r + 1;
        }
        true
    }

    /// How this game stands.
    ///
    /// Fails with `InvalidGameState` exactly when both players have a run of
    /// the winning length.
    pub fn classify(&self) -> (result: Result<Outcome, GameError>)
        ensures
            result == self@.outcome(),
    {
        let longest_runs: LongestRuns = self.find_longest_runs();
        match self.winner(&longest_runs) {
            Err(e) => Err(e),
            Ok(Some(who)) => Ok(Outcome::Winner(who)),
            Ok(None) => {
                if self.is_full() {
                    Ok(Outcome::Draw)
                } else {
                    Ok(Outcome::Ongoing)
                }
            },
        }
    }

    /// Tells whether the search stops at this position, and if so with what
    /// score.
    ///
    /// A game that is over has the score `isize::MAX` if the AI has won,
    /// `isize::MIN` if the opponent has won, and 0 if it is drawn. An open
    /// game is scored by its estimate when `depth` is 0 and gets no score
    /// otherwise. Fails with `InvalidGameState` exactly when both players
    /// have a run of the winning length.
    pub fn evaluate(&self, depth: usize) -> (result: Result<Option<isize>, GameError>)
        ensures
            result == self@.evaluation(depth as nat),
    {
        let longest_runs: LongestRuns = self.find_longest_runs();
        let winner: Option<Player> = match self.winner(&longest_runs) {
            Ok(winner) => winner,
            Err(e) => {
                return Err(e);
            },
        };

        match winner {
            Some(Player::AI) => Ok(Some(isize::MAX)),
            Some(Player::Opponent) => Ok(Some(isize::MIN)),
            None => {
                if self.is_full() {
                    Ok(Some(0))
                } else if depth == 0 {
                    Ok(Some(self.score_incomplete_game(&longest_runs)))
                } else {
                    Ok(None)
                }
            },
        }
    }
}

} // verus!
