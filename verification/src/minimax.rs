//! The value of a position under best play by both sides, looking a given
//! number of plies ahead: plain minimax, with no pruning. This is what the
//! search has to compute.

use vstd::prelude::*;
use crate::GameError;
use crate::board::Board;
use crate::runs::Direction;
use crate::space::Player;

verus! {

impl Board {
    /// The minimax value of this position with `mover` to play and `depth`
    /// plies left.
    ///
    /// A position that the evaluation scores has that score. An open position
    /// with depth left has the value of the mover's best reply, or 0, as a
    /// draw, if no column has room. A position in which both players have a
    /// winning line has no meaningful value; it is given 0 here, and
    /// [`Board::search`] reports it as an error.
    pub open spec fn minimax(self, mover: Player, depth: nat) -> isize
        decreases depth, 1nat, 0nat,
    {
        match self.evaluation(depth) {
            Ok(Some(score)) => score,
            Ok(None) => match self.best_reply(mover, depth, self.legal_columns().len()) {
                Some((_, score)) => score,
                None => 0,
            },
            Err(_) => 0,
        }
    }

    /// The best of the first `upto` legal moves of `mover`, as the column and
    /// the minimax value of the position it leads to. Of several moves with
    /// the best value the first one is kept.
    pub open spec fn best_reply(self, mover: Player, depth: nat, upto: nat) -> Option<(int, isize)>
        decreases depth, 0nat, upto,
    {
        if depth == 0 || upto == 0 {
            None
        } else {
            let column = self.legal_columns()[upto - 1];
            let score = self.dropped(column, mover).minimax(mover.other(), (depth - 1) as nat);
            match self.best_reply(mover, depth, (upto - 1) as nat) {
                Some((earlier, best)) => if mover.prefers(score, best) {
                    Some((column, score))
                } else {
                    Some((earlier, best))
                },
                None => Some((column, score)),
            }
        }
    }

    /// The score of the best of the first `upto` legal moves of `mover`, or 0
    /// if there is none.
    pub open spec fn best_reply_score(self, mover: Player, depth: nat, upto: nat) -> isize {
        match self.best_reply(mover, depth, upto) {
            Some((_, score)) => score,
            None => 0,
        }
    }

    /// The move that `mover` should make and the minimax value of this
    /// position, looking `depth` plies ahead. There is no move where the
    /// evaluation scores the position itself or no column has room.
    pub open spec fn search(self, mover: Player, depth: nat) -> Result<(Option<int>, isize), GameError> {
        match self.evaluation(depth) {
            Err(e) => Err(e),
            Ok(Some(score)) => Ok((None, score)),
            Ok(None) => match self.best_reply(mover, depth, self.legal_columns().len()) {
                Some((column, score)) => Ok((Some(column), score)),
                None => Ok((None, 0)),
            },
        }
    }

    /// The score that the search reports is the minimax value, and the search
    /// fails exactly where the evaluation of the position does.
    pub proof fn lemma_search_value(self, mover: Player, depth: nat)
        ensures
            match self.search(mover, depth) {
                Ok((_, score)) => score == self.minimax(mover, depth) && self.evaluation(depth) is Ok,
                Err(e) => self.evaluation(depth) == Err::<Option<isize>, GameError>(e),
            },
    {
    }

    /// There is a best reply as soon as one move has been looked at.
    pub proof fn lemma_best_reply_exists(self, mover: Player, depth: nat, upto: nat)
        ensures
            self.best_reply(mover, depth, upto) is Some <==> depth > 0 && upto > 0,
    {
    }

    /// A drop leaves every run of the other player as it was.
    pub proof fn lemma_rival_run_unchanged(self, c: int, mover: Player, r: int, k: int, d: Direction)
        requires
            self.wf(),
            self.legal(c),
        ensures
            self.dropped(c, mover).run_at(r, k, d, mover.other()) == self.run_at(
                r,
                k,
                d,
                mover.other(),
            ),
        decreases self.height() - r, self.width() - k,
    {
        self.lemma_drop_changes_one_cell(c, mover);
        if self.holds(r, k, mover.other()) {
            self.lemma_rival_run_unchanged(c, mover, d.row_after(r, 1), d.col_after(k, 1), d);
        }
    }

    /// A drop leaves the other player's longest run of a row as it was.
    pub proof fn lemma_rival_row_unchanged(self, c: int, mover: Player, r: int, upto: nat, d: Direction)
        requires
            self.wf(),
            self.legal(c),
        ensures
            self.dropped(c, mover).longest_in_row(r, upto, d, mover.other())
                == self.longest_in_row(r, upto, d, mover.other()),
        decreases upto,
    {
        if upto > 0 {
            self.lemma_rival_row_unchanged(c, mover, r, (upto - 1) as nat, d);
            self.lemma_rival_run_unchanged(c, mover, r, upto - 1, d);
        }
    }

    /// A drop leaves the other player's longest run of the rows above `upto`
    /// as it was.
    pub proof fn lemma_rival_rows_unchanged(self, c: int, mover: Player, upto: nat, d: Direction)
        requires
            self.wf(),
            self.legal(c),
        ensures
            self.dropped(c, mover).longest_in_rows(upto, d, mover.other()) == self.longest_in_rows(
                upto,
                d,
                mover.other(),
            ),
        decreases upto,
    {
        self.lemma_drop_changes_one_cell(c, mover);
        if upto > 0 {
            self.lemma_rival_rows_unchanged(c, mover, (upto - 1) as nat, d);
            self.lemma_rival_row_unchanged(c, mover, upto - 1, self.width(), d);
        }
    }

    /// A move cannot make the other player win: after a drop the other
    /// player's longest run is what it was before.
    pub proof fn lemma_rival_best_run_unchanged(self, c: int, mover: Player)
        requires
            self.wf(),
            self.legal(c),
        ensures
            self.dropped(c, mover).best_run(mover.other()) == self.best_run(mover.other()),
            self.dropped(c, mover).has_won(mover.other()) == self.has_won(mover.other()),
    {
        self.lemma_drop_changes_one_cell(c, mover);
        self.lemma_rival_rows_unchanged(c, mover, self.height(), Direction::East);
        self.lemma_rival_rows_unchanged(c, mover, self.height(), Direction::South);
        self.lemma_rival_rows_unchanged(c, mover, self.height(), Direction::SouthEast);
        self.lemma_rival_rows_unchanged(c, mover, self.height(), Direction::SouthWest);
    }

    /// A legal move from a position that nobody has won leads to a position
    /// that is no error: the search meets an invalid state at its root or
    /// nowhere.
    pub proof fn lemma_move_keeps_state_valid(self, c: int, mover: Player)
        requires
            self.wf(),
            self.legal(c),
            self.winner() == Ok::<Option<Player>, GameError>(None),
        ensures
            self.dropped(c, mover).wf(),
            self.dropped(c, mover).outcome() is Ok,
            forall|depth: nat| (#[trigger] self.dropped(c, mover).evaluation(depth)) is Ok,
            forall|who: Player, depth: nat| (#[trigger] self.dropped(c, mover).search(who, depth)) is Ok,
    {
        self.lemma_drop_changes_one_cell(c, mover);
        self.lemma_rival_best_run_unchanged(c, mover);
    }

    /// Looking at more moves never makes the best reply worse for the mover.
    pub proof fn lemma_best_reply_improves(self, mover: Player, depth: nat, few: nat, many: nat)
        requires
            depth > 0,
            0 < few <= many,
        ensures
            self.best_reply(mover, depth, few) is Some,
            self.best_reply(mover, depth, many) is Some,
            !mover.prefers(
                self.best_reply_score(mover, depth, few),
                self.best_reply_score(mover, depth, many),
            ),
        decreases many,
    {
        if few < many {
            self.lemma_best_reply_improves(mover, depth, few, (many - 1) as nat);
        }
    }

    /// Once a reply with the mover's winning score is found, no later move
    /// replaces it.
    pub proof fn lemma_winning_reply_stays(self, mover: Player, depth: nat, few: nat, many: nat)
        requires
            depth > 0,
            0 < few <= many,
            self.best_reply(mover, depth, few) is Some,
            self.best_reply_score(mover, depth, few) == (match mover {
                Player::AI => isize::MAX,
                Player::Opponent => isize::MIN,
            }),
        ensures
            self.best_reply(mover, depth, many) == self.best_reply(mover, depth, few),
        decreases many,
    {
        if few < many {
            self.lemma_winning_reply_stays(mover, depth, few, (many - 1) as nat);
        }
    }

    /// The best reply is the first of the best moves: its column is one of
    /// the moves looked at, its score is the minimax value of the position
    /// that the move leads to, no move looked at is better for the mover, and
    /// every earlier move is strictly worse.
    pub proof fn lemma_best_reply_is_first_best(self, mover: Player, depth: nat, upto: nat)
        requires
            depth > 0,
            0 < upto <= self.legal_columns().len(),
        ensures
            self.best_reply(mover, depth, upto) is Some,
            exists|i: int|
                {
                    &&& 0 <= i < upto
                    &&& self.best_reply(mover, depth, upto) == Some(
                        (self.legal_columns()[i], #[trigger] self.reply_value(mover, depth, i)),
                    )
                    &&& forall|j: int|
                        0 <= j < upto ==> !mover.prefers(
                            #[trigger] self.reply_value(mover, depth, j),
                            self.reply_value(mover, depth, i),
                        )
                    &&& forall|j: int|
                        0 <= j < i ==> mover.prefers(
                            self.reply_value(mover, depth, i),
                            #[trigger] self.reply_value(mover, depth, j),
                        )
                },
        decreases upto,
    {
        let last = upto - 1;
        let here = self.reply_value(mover, depth, last);
        if upto == 1 {
            assert(self.best_reply(mover, depth, 0) is None);
            assert(self.best_reply(mover, depth, upto) == Some((self.legal_columns()[last], here)));
            assert(forall|j: int|
                0 <= j < upto ==> !mover.prefers(
                    #[trigger] self.reply_value(mover, depth, j),
                    self.reply_value(mover, depth, last),
                ));
        } else {
            self.lemma_best_reply_is_first_best(mover, depth, (upto - 1) as nat);
            let earlier = self.best_reply(mover, depth, (upto - 1) as nat);
            let i = choose|i: int|
                {
                    &&& 0 <= i < upto - 1
                    &&& earlier == Some(
                        (self.legal_columns()[i], #[trigger] self.reply_value(mover, depth, i)),
                    )
                    &&& forall|j: int|
                        0 <= j < upto - 1 ==> !mover.prefers(
                            #[trigger] self.reply_value(mover, depth, j),
                            self.reply_value(mover, depth, i),
                        )
                    &&& forall|j: int|
                        0 <= j < i ==> mover.prefers(
                            self.reply_value(mover, depth, i),
                            #[trigger] self.reply_value(mover, depth, j),
                        )
                };
            let best = self.reply_value(mover, depth, i);
            if mover.prefers(here, best) {
                assert(self.best_reply(mover, depth, upto) == Some(
                    (self.legal_columns()[last], self.reply_value(mover, depth, last)),
                ));
                assert forall|j: int| 0 <= j < last implies mover.prefers(
                    self.reply_value(mover, depth, last),
                    #[trigger] self.reply_value(mover, depth, j),
                ) by {
                    assert(!mover.prefers(self.reply_value(mover, depth, j), best));
                }
                assert forall|j: int| 0 <= j < upto implies !mover.prefers(
                    #[trigger] self.reply_value(mover, depth, j),
                    self.reply_value(mover, depth, last),
                ) by {
                    if j < last {
                        assert(!mover.prefers(self.reply_value(mover, depth, j), best));
                    }
                }
            } else {
                assert(self.best_reply(mover, depth, upto) == Some(
                    (self.legal_columns()[i], self.reply_value(mover, depth, i)),
                ));
                assert forall|j: int| 0 <= j < upto implies !mover.prefers(
                    #[trigger] self.reply_value(mover, depth, j),
                    self.reply_value(mover, depth, i),
                ) by {
                    if j < last {
                        assert(!mover.prefers(self.reply_value(mover, depth, j), best));
                    }
                }
            }
        }
    }

    /// The minimax value of the position that the `i`-th legal move of
    /// `mover` leads to, with one ply fewer to look ahead.
    pub open spec fn reply_value(self, mover: Player, depth: nat, i: int) -> isize {
        self.dropped(self.legal_columns()[i], mover).minimax(mover.other(), (depth - 1) as nat)
    }
}

} // verus!
