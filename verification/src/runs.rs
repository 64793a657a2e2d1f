//! Run analysis: the longest unbroken line of each player's pieces along the
//! rows, along the columns and along the two diagonals.

use vstd::prelude::*;
use crate::board::Board;
use crate::game::Game;
use crate::space::Player;

verus! {

/// The four ways a line can run across the grid. A line is followed from its
/// first cell downwards or to the right, so the rising diagonal is walked
/// from its upper right end towards its lower left end.
#[derive(Debug, Clone, Copy, PartialEq, Eq, Structural)]
pub enum Direction {
    /// Along a row, to the right.
    East,
    /// Down a column.
    South,
    /// Down the falling diagonal, to the right.
    SouthEast,
    /// Down the rising diagonal, to the left.
    SouthWest,
}

/// The longest run of each player in one orientation.
#[derive(Debug, Clone, Copy, PartialEq, Eq, Structural)]
pub struct RunData {
    pub ai: usize,
    pub opponent: usize,
}

/// The longest runs of a position. `diagonal` is the longer of the two
/// diagonal orientations.
#[derive(Debug, Clone, Copy, PartialEq, Eq, Structural)]
pub struct LongestRuns {
    pub horizontal: RunData,
    pub vertical: RunData,
    pub diagonal: RunData,
}

/// The larger of two lengths.
pub open spec fn longer(a: nat, b: nat) -> nat {
    if a >= b {
        a
    } else {
        b
    }
}

impl Direction {
    /// The row of the cell `i` steps along this direction from row `r`.
    pub open spec fn row_after(self, r: int, i: int) -> int {
        match self {
            Direction::East => r,
            _ => r + i,
        }
    }

    /// The column of the cell `i` steps along this direction from column `c`.
    pub open spec fn col_after(self, c: int, i: int) -> int {
        match self {
            Direction::East => c + i,
            Direction::South => c,
            Direction::SouthEast => c + i,
            Direction::SouthWest => c - i,
        }
    }
}

impl Board {
    /// The number of consecutive cells that hold a piece of `who`, counted
    /// from row `r`, column `c` along `d` up to the first cell that does not
    /// (or the edge of the grid).
    pub open spec fn run_at(self, r: int, c: int, d: Direction, who: Player) -> nat
        decreases self.height() - r, self.width() - c,
    {
        if self.holds(r, c, who) {
            1 + self.run_at(d.row_after(r, 1), d.col_after(c, 1), d, who)
        } else {
            0
        }
    }

    /// The `k` cells from row `r`, column `c` along `d` all hold a piece of
    /// `who`.
    pub open spec fn line_of(self, r: int, c: int, d: Direction, who: Player, k: nat) -> bool {
        forall|i: int| 0 <= i < k ==> self.holds(#[trigger] d.row_after(r, i), d.col_after(c, i), who)
    }

    /// The longest run of `who` along `d` that starts in row `r` left of
    /// column `upto`.
    pub open spec fn longest_in_row(self, r: int, upto: nat, d: Direction, who: Player) -> nat
        decreases upto,
    {
        if upto == 0 {
            0
        } else {
            longer(
                self.longest_in_row(r, (upto - 1) as nat, d, who),
                self.run_at(r, upto - 1, d, who),
            )
        }
    }

    /// The longest run of `who` along `d` that starts above row `upto`.
    pub open spec fn longest_in_rows(self, upto: nat, d: Direction, who: Player) -> nat
        decreases upto,
    {
        if upto == 0 {
            0
        } else {
            longer(
                self.longest_in_rows((upto - 1) as nat, d, who),
                self.longest_in_row(upto - 1, self.width(), d, who),
            )
        }
    }

    /// The longest run of `who` along `d` anywhere on the grid.
    pub open spec fn longest_run(self, d: Direction, who: Player) -> nat {
        self.longest_in_rows(self.height(), d, who)
    }

    /// The longest run of `who` along either diagonal.
    pub open spec fn longest_diagonal(self, who: Player) -> nat {
        longer(
            self.longest_run(Direction::SouthEast, who),
            self.longest_run(Direction::SouthWest, who),
        )
    }

    /// The longest run of `who` in any direction.
    pub open spec fn best_run(self, who: Player) -> nat {
        longer(
            longer(self.longest_run(Direction::East, who), self.longest_run(Direction::South, who)),
            self.longest_diagonal(who),
        )
    }

    /// A run counts exactly the cells of an unbroken line: the run from a cell
    /// is at least `k` long if and only if the `k` cells from it all hold a
    /// piece of `who`.
    pub proof fn lemma_run_is_line(self, r: int, c: int, d: Direction, who: Player, k: nat)
        ensures
            self.run_at(r, c, d, who) >= k <==> self.line_of(r, c, d, who, k),
        decreases k,
    {
        if k == 0 {
        } else if self.holds(r, c, who) {
            let r1 = d.row_after(r, 1);
            let c1 = d.col_after(c, 1);
            self.lemma_run_is_line(r1, c1, d, who, (k - 1) as nat);
            if self.line_of(r1, c1, d, who, (k - 1) as nat) {
                assert forall|i: int| 0 <= i < k implies self.holds(
                    #[trigger] d.row_after(r, i),
                    d.col_after(c, i),
                    who,
                ) by {
                    if i > 0 {
                        assert(self.holds(d.row_after(r1, i - 1), d.col_after(c1, i - 1), who));
                    }
                }
            }
            if self.line_of(r, c, d, who, k) {
                assert forall|i: int| 0 <= i < k - 1 implies self.holds(
                    #[trigger] d.row_after(r1, i),
                    d.col_after(c1, i),
                    who,
                ) by {
                    assert(self.holds(d.row_after(r, i + 1), d.col_after(c, i + 1), who));
                }
            }
        } else {
            if self.line_of(r, c, d, who, k) {
                assert(self.holds(d.row_after(r, 0), d.col_after(c, 0), who));
            }
        }
    }

    /// No run that starts in row `r` left of `upto` is longer than
    /// `longest_in_row`, and if that is not zero some run attains it.
    pub proof fn lemma_longest_in_row(self, r: int, upto: nat, d: Direction, who: Player)
        ensures
            forall|c: int|
                0 <= c < upto ==> #[trigger] self.run_at(r, c, d, who) <= self.longest_in_row(
                    r,
                    upto,
                    d,
                    who,
                ),
            self.longest_in_row(r, upto, d, who) > 0 ==> exists|c: int|
                0 <= c < upto && #[trigger] self.run_at(r, c, d, who) == self.longest_in_row(
                    r,
                    upto,
                    d,
                    who,
                ),
        decreases upto,
    {
        if upto > 0 {
            self.lemma_longest_in_row(r, (upto - 1) as nat, d, who);
            let earlier = self.longest_in_row(r, (upto - 1) as nat, d, who);
            let here = self.run_at(r, upto - 1, d, who);
            if self.longest_in_row(r, upto, d, who) > 0 {
                if earlier >= here {
                    let c = choose|c: int|
                        0 <= c < upto - 1 && #[trigger] self.run_at(r, c, d, who) == earlier;
                    assert(0 <= c < upto && self.run_at(r, c, d, who) == earlier);
                } else {
                    assert(0 <= upto - 1 < upto && self.run_at(r, upto - 1, d, who) == here);
                }
            }
        }
    }

    /// No run that starts above row `upto` is longer than `longest_in_rows`,
    /// and if that is not zero some run attains it.
    pub proof fn lemma_longest_in_rows(self, upto: nat, d: Direction, who: Player)
        ensures
            forall|r: int, c: int|
                0 <= r < upto && 0 <= c < self.width() ==> #[trigger] self.run_at(r, c, d, who)
                    <= self.longest_in_rows(upto, d, who),
            self.longest_in_rows(upto, d, who) > 0 ==> exists|r: int, c: int|
                0 <= r < upto && 0 <= c < self.width() && #[trigger] self.run_at(r, c, d, who)
                    == self.longest_in_rows(upto, d, who),
        decreases upto,
    {
        if upto > 0 {
            self.lemma_longest_in_rows((upto - 1) as nat, d, who);
            self.lemma_longest_in_row(upto - 1, self.width(), d, who);
            let earlier = self.longest_in_rows((upto - 1) as nat, d, who);
            let here = self.longest_in_row(upto - 1, self.width(), d, who);
            if self.longest_in_rows(upto, d, who) > 0 {
                if earlier >= here {
                    let (r, c) = choose|r: int, c: int|
                        0 <= r < upto - 1 && 0 <= c < self.width() && #[trigger] self.run_at(
                            r,
                            c,
                            d,
                            who,
                        ) == earlier;
                    assert(0 <= r < upto && 0 <= c < self.width() && self.run_at(r, c, d, who)
                        == earlier);
                } else {
                    let c = choose|c: int|
                        0 <= c < self.width() && #[trigger] self.run_at(upto - 1, c, d, who)
                            == here;
                    assert(0 <= upto - 1 < upto && 0 <= c < self.width() && self.run_at(
                        upto - 1,
                        c,
                        d,
                        who,
                    ) == here);
                }
            }
        }
    }

    /// The longest run is the greatest run on the grid: no cell starts a
    /// longer one, and unless it is zero some cell starts one of that length.
    pub proof fn lemma_longest_run_is_greatest(self, d: Direction, who: Player)
        ensures
            forall|r: int, c: int|
                self.on_board(r, c) ==> #[trigger] self.run_at(r, c, d, who) <= self.longest_run(
                    d,
                    who,
                ),
            self.longest_run(d, who) > 0 ==> exists|r: int, c: int|
                self.on_board(r, c) && #[trigger] self.run_at(r, c, d, who) == self.longest_run(
                    d,
                    who,
                ),
    {
        self.lemma_longest_in_rows(self.height(), d, who);
    }

    /// A player's longest run along `d` reaches `k` exactly when somewhere on
    /// the grid `k` cells in a line along `d` all hold that player's pieces.
    pub proof fn lemma_long_run_is_line_on_board(self, d: Direction, who: Player, k: nat)
        requires
            k > 0,
        ensures
            self.longest_run(d, who) >= k <==> exists|r: int, c: int| #[trigger]
                self.line_of(r, c, d, who, k),
    {
        self.lemma_longest_run_is_greatest(d, who);
        if self.longest_run(d, who) >= k {
            let (r, c) = choose|r: int, c: int|
                self.on_board(r, c) && #[trigger] self.run_at(r, c, d, who) == self.longest_run(
                    d,
                    who,
                );
            self.lemma_run_is_line(r, c, d, who, k);
            assert(self.line_of(r, c, d, who, k));
        }
        if exists|r: int, c: int| #[trigger] self.line_of(r, c, d, who, k) {
            let (r, c) = choose|r: int, c: int| #[trigger] self.line_of(r, c, d, who, k);
            self.lemma_run_is_line(r, c, d, who, k);
            assert(self.holds(d.row_after(r, 0), d.col_after(c, 0), who));
            assert(self.on_board(r, c));
            assert(self.run_at(r, c, d, who) <= self.longest_run(d, who));
        }
    }
}

impl LongestRuns {
    /// These are the longest runs of the position `board`.
    pub open spec fn describes(self, board: Board) -> bool {
        &&& self.horizontal.ai == board.longest_run(Direction::East, Player::AI)
        &&& self.horizontal.opponent == board.longest_run(Direction::East, Player::Opponent)
        &&& self.vertical.ai == board.longest_run(Direction::South, Player::AI)
        &&& self.vertical.opponent == board.longest_run(Direction::South, Player::Opponent)
        &&& self.diagonal.ai == board.longest_diagonal(Player::AI)
        &&& self.diagonal.opponent == board.longest_diagonal(Player::Opponent)
    }

    /// The longest run of `who` over the three orientations.
    pub open spec fn best(self, who: Player) -> nat {
        match who {
            Player::AI => longer(
                longer(self.horizontal.ai as nat, self.vertical.ai as nat),
                self.diagonal.ai as nat,
            ),
            Player::Opponent => longer(
                longer(self.horizontal.opponent as nat, self.vertical.opponent as nat),
                self.diagonal.opponent as nat,
            ),
        }
    }

    /// A position has only one analysis: two records that both describe
    /// `board` are equal.
    pub proof fn lemma_analysis_is_unique(self, again: LongestRuns, board: Board)
        requires
            self.describes(board),
            again.describes(board),
        ensures
            self == again,
    {
    }

    /// The analysis of a position gives each player's longest run.
    pub proof fn lemma_best_of_analysis(self, board: Board, who: Player)
        requires
            self.describes(board),
        ensures
            self.best(who) == board.best_run(who),
    {
    }
}

impl Game {
    /// Whether the given cell is on the grid and holds a piece of `who`.
    pub fn holds(&self, row: usize, column: usize, who: Player) -> (yes: bool)
        ensures
            yes == self@.holds(row as int, column as int, who),
    {
        match self.space_at(row, column) {
            Some(cell) => cell == who.piece(),
            None => false,
        }
    }

    /// The length of the run of `who` that starts at the given cell and
    /// follows `direction`.
    pub fn run_length(&self, row: usize, column: usize, direction: Direction, who: Player) -> (n:
        usize)
        ensures
            n == self@.run_at(row as int, column as int, direction, who),
    {
        let ghost total = self@.run_at(row as int, column as int, direction, who);
        let height: usize = self.height();
        let width: usize = self.width();
        let mut r: usize = row;
        let mut c: usize = column;
        let mut n: usize = 0;
        let mut live: bool = self.holds(r, c, who);
        while live
            invariant
                height == self@.height(),
                width == self@.width(),
                live ==> self@.holds(r as int, c as int, who),
                live ==> total == n + self@.run_at(r as int, c as int, direction, who),
                live ==> (if direction == Direction::East {
                    n == c - column
                } else {
                    n == r - row
                }),
                !live ==> total == n,
            decreases (if live { 1int } else { 0int }), height - r, width - c,
        {
            let ghost next_row = direction.row_after(r as int, 1);
            let ghost next_col = direction.col_after(c as int, 1);
            assert(total == n + 1 + self@.run_at(next_row, next_col, direction, who));
            n = n + 1;
            match direction {
                Direction::East => {
                    c = c + 1;
                    live = self.holds(r, c, who);
                },
                Direction::South => {
                    r = r + 1;
                    live = self.holds(r, c, who);
                },
                Direction::SouthEast => {
                    r = r + 1;
                    c = c + 1;
                    live = self.holds(r, c, who);
                },
                Direction::SouthWest => {
                    r = r + 1;
                    if c == 0 {
                        live = false;
                    } else {
                        c = c - 1;
                        live = self.holds(r, c, who);
                    }
                },
            }
            assert(live == self@.holds(next_row, next_col, who));
        }
        n
    }

    /// The longest run of `who` along `direction` anywhere on the grid.
    pub fn longest_run_of(&self, direction: Direction, who: Player) -> (best: usize)
        ensures
            best == self@.longest_run(direction, who),
    {
        let height: usize = self.height();
        let width: usize = self.width();
        let mut best: usize = 0;
        let mut r: usize = 0;
        while r < height
            invariant
                r <= height,
                height == self@.height(),
                width == self@.width(),
                best == self@.longest_in_rows(r as nat, direction, who),
            decreases height - r,
        {
            let mut row_best: usize = 0;
            let mut c: usize = 0;
            while c < width
                invariant
                    c <= width,
                    row_best == self@.longest_in_row(r as int, c as nat, direction, who),
                decreases width - c,
            {
                let n: usize = self.run_length(r, c, direction, who);
                if n > row_best {
                    row_best = n;
                }
                c = c + 1;
            }
            if row_best > best {
                best = row_best;
            }
            r = r + 1;
        }
        best
    }

    /// The longest run of each player along the rows, along the columns and
    /// along the diagonals.
    pub fn find_longest_runs(&self) -> (runs: LongestRuns)
        ensures
            runs.describes(self@),
    {
        let falling_ai: usize = self.longest_run_of(Direction::SouthEast, Player::AI);
        let rising_ai: usize = self.longest_run_of(Direction::SouthWest, Player::AI);
        let falling_opponent: usize = self.longest_run_of(Direction::SouthEast, Player::Opponent);
        let rising_opponent: usize = self.longest_run_of(Direction::SouthWest, Player::Opponent);
        LongestRuns {
            horizontal: RunData {
                ai: self.longest_run_of(Direction::East, Player::AI),
                opponent: self.longest_run_of(Direction::East, Player::Opponent),
            },
            vertical: RunData {
                ai: self.longest_run_of(Direction::South, Player::AI),
                opponent: self.longest_run_of(Direction::South, Player::Opponent),
            },
            diagonal: RunData {
                ai: if falling_ai >= rising_ai {
                    falling_ai
                } else {
                    rising_ai
                },
                opponent: if falling_opponent >= rising_opponent {
                    falling_opponent
                } else {
                    rising_opponent
                },
            },
        }
    }
}

} // verus!
