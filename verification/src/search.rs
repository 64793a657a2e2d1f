//! Depth-bounded alpha-beta search. The search prunes branches that cannot
//! change the answer, and is proved to return the move and the value of the
//! unpruned minimax recursion.

use vstd::prelude::*;
use crate::GameError;
use crate::board::Board;
use crate::game::Game;
use crate::game::as_columns;
use crate::space::Player;

verus! {

/// What a search of the window from `alpha` to `beta` says about the true
/// `value` of a position when it reports `found`: a report inside the window
/// is the value itself; a report at or below `alpha` is an upper bound of the
/// value; a report at or above `beta` is a lower bound.
pub open spec fn within_window(value: isize, found: isize, alpha: isize, beta: isize) -> bool {
    &&& alpha < found < beta ==> found == value
    &&& found <= alpha ==> value <= found
    &&& found >= beta ==> value >= found
}

/// The executable column `found` is the model's `column`.
pub open spec fn same_column(found: Option<usize>, column: Option<int>) -> bool {
    match (found, column) {
        (Some(a), Some(b)) => a == b,
        (None, None) => true,
        _ => false,
    }
}

/// The state of the scan of an open position after `upto` of the legal moves
/// have been searched: `best` is the best report so far and `choice` the move
/// that gave it, `low` and `high` are the window for the next move.
pub open spec fn scanned(
    board: Board,
    mover: Player,
    depth: nat,
    upto: nat,
    alpha: isize,
    beta: isize,
    low: isize,
    high: isize,
    best: isize,
    choice: Option<usize>,
) -> bool {
    match board.best_reply(mover, depth, upto) {
        None => choice is None && low == alpha && high == beta,
        Some((column, value)) => {
            &&& choice is Some
            &&& within_window(value, best, alpha, beta)
            &&& low == (if mover == Player::AI && best > alpha {
                best
            } else {
                alpha
            })
            &&& high == (if mover == Player::Opponent && best < beta {
                best
            } else {
                beta
            })
            &&& alpha == isize::MIN && beta == isize::MAX ==> best == value && choice == Some(
                column as usize,
            ) && choice->0 == column
        },
    }
}

impl Game {
    /// Searches this position to `depth` plies within the window from `alpha`
    /// to `beta`, with `mover` to play.
    ///
    /// The score found stands to the minimax value as [`within_window`] says.
    /// With the full window it is the minimax value, and the column is the
    /// first best move. Fails exactly where this position is an error.
    fn alpha_beta(&self, mover: Player, depth: usize, alpha: isize, beta: isize) -> (result: Result<
        (Option<usize>, isize),
        GameError,
    >)
        requires
            alpha < beta,
        ensures
            match self@.search(mover, depth as nat) {
                Err(e) => result == Err::<(Option<usize>, isize), GameError>(e),
                Ok((column, value)) => {
                    &&& result matches Ok((found_column, found))
                    &&& within_window(value, found, alpha, beta)
                    &&& alpha == isize::MIN && beta == isize::MAX ==> same_column(
                        found_column,
                        column,
                    )
                },
            },
        decreases depth,
    {
        proof {
            use_type_invariant(self);
        }
        match self.evaluate(depth) {
            Err(e) => {
                return Err(e);
            },
            Ok(Some(score)) => {
                return Ok((None, score));
            },
            Ok(None) => {},
        }
        let moves: Vec<usize> = self.legal_moves();
        let count: usize = moves.len();
        let ghost board = self@;
        let ghost plies = depth as nat;
        proof {
            board.lemma_legal_columns();
            assert(as_columns(moves@).len() == count);
        }
        if count == 0 {
            return Ok((None, 0));
        }
        let mut low: isize = alpha;
        let mut high: isize = beta;
        let mut best: isize = 0;
        let mut choice: Option<usize> = None;
        let mut i: usize = 0;
        while i < count && low < high
            invariant
                board == self@,
                board.wf(),
                board.winner() == Ok::<Option<Player>, GameError>(None),
                plies == depth,
                depth > 0,
                alpha < beta,
                i <= count,
                count == moves.len(),
                count == board.legal_columns().len(),
                as_columns(moves@) == board.legal_columns(),
                forall|k: int|
                    0 <= k < board.legal_columns().len() ==> board.legal(
                        #[trigger] board.legal_columns()[k],
                    ),
                scanned(board, mover, plies, i as nat, alpha, beta, low, high, best, choice),
            decreases count - i,
        {
            let column: usize = moves[i];
            let ghost earlier = board.best_reply(mover, plies, i as nat);
            proof {
                assert(as_columns(moves@)[i as int] == column as int);
                assert(board.legal(board.legal_columns()[i as int]));
                board.lemma_move_keeps_state_valid(column as int, mover);
                board.dropped(column as int, mover).lemma_search_value(
                    mover.other(),
                    (plies - 1) as nat,
                );
                board.lemma_best_reply_exists(mover, plies, i as nat);
            }
            let child: Game = self.apply(column, mover);
            let score: isize = match child.alpha_beta(mover.other(), depth - 1, low, high) {
                Ok((_, score)) => score,
                Err(e) => {
                    return Err(e);
                },
            };
            let ghost value = board.dropped(column as int, mover).minimax(
                mover.other(),
                (plies - 1) as nat,
            );
            assert(within_window(value, score, low, high));
            let improved: bool = match choice {
                None => true,
                Some(_) => mover.prefers(score, best),
            };
            if improved {
                best = score;
                choice = Some(column);
            }
            match mover {
                Player::AI => {
                    if best > low {
                        low = best;
                    }
                },
                Player::Opponent => {
                    if best < high {
                        high = best;
                    }
                },
            }
            i = i + 1;
            assert(board.best_reply(mover, plies, i as nat) == (match earlier {
                Some((before, good)) => if mover.prefers(value, good) {
                    Some((column as int, value))
                } else {
                    Some((before, good))
                },
                None => Some((column as int, value)),
            }));
        }
        proof {
            board.lemma_best_reply_exists(mover, plies, i as nat);
            board.lemma_best_reply_improves(mover, plies, i as nat, count as nat);
            if alpha == isize::MIN && beta == isize::MAX && i < count {
                board.lemma_winning_reply_stays(mover, plies, i as nat, count as nat);
            }
        }
        Ok((choice, best))
    }

    /// The move that `player_to_move` should make, found by looking
    /// `max_depth` plies ahead, and the minimax value of this position.
    ///
    /// There is no move when the game is over, when `max_depth` is 0, or when
    /// no column has room; the score is in that case the evaluation of this position,
    /// or 0 for an open position in which nothing can be played. Of several
    /// moves with the best value the leftmost is returned. Fails with
    /// `InvalidGameState` exactly when both players have a winning line.
    pub fn best_move(&self, player_to_move: Player, max_depth: usize) -> (result: Result<
        (Option<usize>, isize),
        GameError,
    >)
        ensures
            match self@.search(player_to_move, max_depth as nat) {
                Err(e) => result == Err::<(Option<usize>, isize), GameError>(e),
                Ok((column, value)) => {
                    &&& result matches Ok((found_column, found))
                    &&& found == value
                    &&& same_column(found_column, column)
                },
            },
            result is Err <==> self@.has_won(Player::AI) && self@.has_won(Player::Opponent),
    {
        self.alpha_beta(player_to_move, max_depth, isize::MIN, isize::MAX)
    }
}

} // verus!
