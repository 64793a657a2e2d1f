//! The mathematical model of a position: the cells of the grid, row by row
//! from the top, and the length of line that wins.

use vstd::prelude::*;
use crate::space::Player;
use crate::space::Space;

verus! {

/// A position as pure data. Row 0 is the top row; the bottom row is the last.
pub struct Board {
    pub cells: Seq<Seq<Space>>,
    pub number_for_win: nat,
}

impl Board {
    /// The board of the given size on which every cell is empty.
    pub open spec fn empty(height: nat, width: nat, number_for_win: nat) -> Board {
        Board {
            cells: Seq::new(height, |r: int| Seq::new(width, |c: int| Space::Empty)),
            number_for_win,
        }
    }

    /// Number of rows.
    pub open spec fn height(self) -> nat {
        self.cells.len()
    }

    /// Number of columns: the length of the first row.
    pub open spec fn width(self) -> nat {
        if self.cells.len() > 0 {
            self.cells[0].len()
        } else {
            0
        }
    }

    /// Every row is as long as the first.
    pub open spec fn rectangular(self) -> bool {
        forall|r: int| 0 <= r < self.cells.len() ==> (#[trigger] self.cells[r]).len() == self.width()
    }

    /// A line of the winning length fits along the rows or along the columns.
    pub open spec fn winnable(self) -> bool {
        self.number_for_win <= self.width() || self.number_for_win <= self.height()
    }

    /// The grid has at least one row, all rows have the same length, and the
    /// winning length fits in one of the two dimensions.
    pub open spec fn wf(self) -> bool {
        &&& self.height() > 0
        &&& self.rectangular()
        &&& self.winnable()
    }

    /// Whether row `r`, column `c` is a cell of the grid.
    pub open spec fn on_board(self, r: int, c: int) -> bool {
        0 <= r < self.height() && 0 <= c < self.width()
    }

    /// The cell in row `r`, column `c`.
    pub open spec fn at(self, r: int, c: int) -> Space
        recommends
            self.on_board(r, c),
    {
        self.cells[r][c]
    }

    /// Whether row `r`, column `c` is a cell that holds a piece of `who`.
    pub open spec fn holds(self, r: int, c: int, who: Player) -> bool {
        self.on_board(r, c) && self.at(r, c) == who.piece()
    }

    /// No cell is empty.
    pub open spec fn is_full(self) -> bool {
        forall|r: int, c: int| self.on_board(r, c) ==> self.at(r, c) != Space::Empty
    }

    /// A piece may be dropped into column `c`: the column exists and its top
    /// cell is empty.
    pub open spec fn legal(self, c: int) -> bool {
        0 <= c < self.width() && self.at(0, c) == Space::Empty
    }

    /// The greatest row above `below` whose cell in column `c` is empty, or
    /// -1 if there is none.
    pub open spec fn last_empty_above(self, c: int, below: int) -> int
        decreases below,
    {
        if below <= 0 {
            -1
        } else if self.at(below - 1, c) == Space::Empty {
            below - 1
        } else {
            self.last_empty_above(c, below - 1)
        }
    }

    /// The row in which a piece dropped into column `c` comes to rest: the
    /// lowest empty cell of the column.
    pub open spec fn landing_row(self, c: int) -> int {
        self.last_empty_above(c, self.height() as int)
    }

    /// The position with the cell in row `r`, column `c` replaced by `value`.
    pub open spec fn with_cell(self, r: int, c: int, value: Space) -> Board {
        Board { cells: self.cells.update(r, self.cells[r].update(c, value)), ..self }
    }

    /// The position after `who` drops a piece into column `c`.
    pub open spec fn dropped(self, c: int, who: Player) -> Board
        recommends
            self.legal(c),
    {
        self.with_cell(self.landing_row(c), c, who.piece())
    }

    /// How many of the rows above `below` have an empty cell in column `c`.
    pub open spec fn empties_above(self, c: int, below: int) -> nat
        decreases below,
    {
        if below <= 0 {
            0
        } else if self.at(below - 1, c) == Space::Empty {
            1 + self.empties_above(c, below - 1)
        } else {
            self.empties_above(c, below - 1)
        }
    }

    /// How many cells of column `c` are empty.
    pub open spec fn empties_in_column(self, c: int) -> nat {
        self.empties_above(c, self.height() as int)
    }

    /// The legal columns below `upto`, in ascending order.
    pub open spec fn legal_columns_below(self, upto: nat) -> Seq<int>
        decreases upto,
    {
        if upto == 0 {
            Seq::empty()
        } else if self.legal(upto - 1) {
            self.legal_columns_below((upto - 1) as nat).push(upto - 1)
        } else {
            self.legal_columns_below((upto - 1) as nat)
        }
    }

    /// All legal columns, in ascending order.
    pub open spec fn legal_columns(self) -> Seq<int> {
        self.legal_columns_below(self.width())
    }

    /// The first `upto` cells of row `r` as text: their glyphs with one blank
    /// between neighbours.
    pub open spec fn row_text(self, r: int, upto: nat) -> Seq<char>
        decreases upto,
    {
        if upto == 0 {
            Seq::empty()
        } else if upto == 1 {
            seq![self.at(r, 0).spec_glyph()]
        } else {
            self.row_text(r, (upto - 1) as nat) + seq![' ', self.at(r, upto - 1).spec_glyph()]
        }
    }

    /// The first `upto` rows as text: each row is begun by a line break.
    pub open spec fn text(self, upto: nat) -> Seq<char>
        decreases upto,
    {
        if upto == 0 {
            Seq::empty()
        } else {
            self.text((upto - 1) as nat) + seq!['\n'] + self.row_text(upto - 1, self.width())
        }
    }

    /// Where the top cell of column `c` is empty, the lowest empty row above
    /// `below` is a row of the grid, its cell is empty, and every cell
    /// between it and `below` is occupied.
    pub proof fn lemma_last_empty_above(self, c: int, below: int)
        requires
            below >= 1,
            self.at(0, c) == Space::Empty,
        ensures
            0 <= self.last_empty_above(c, below) < below,
            self.at(self.last_empty_above(c, below), c) == Space::Empty,
            forall|r: int|
                self.last_empty_above(c, below) < r < below ==> self.at(r, c) != Space::Empty,
        decreases below,
    {
        if self.at(below - 1, c) != Space::Empty {
            self.lemma_last_empty_above(c, below - 1);
        }
    }

    /// A piece dropped into a legal column lands on the lowest empty cell of
    /// that column: the landing row is on the grid, its cell is empty, and
    /// every cell beneath it is occupied.
    pub proof fn lemma_landing_row(self, c: int)
        requires
            self.wf(),
            self.legal(c),
        ensures
            self.on_board(self.landing_row(c), c),
            self.at(self.landing_row(c), c) == Space::Empty,
            forall|r: int| self.landing_row(c) < r < self.height() ==> self.at(r, c) != Space::Empty,
    {
        self.lemma_last_empty_above(c, self.height() as int);
    }

    /// A drop changes exactly one cell: the landing cell, which was empty,
    /// now holds the player's piece; every other cell, the size of the grid
    /// and the winning length stay as they were.
    pub proof fn lemma_drop_changes_one_cell(self, c: int, who: Player)
        requires
            self.wf(),
            self.legal(c),
        ensures
            self.dropped(c, who).wf(),
            self.dropped(c, who).height() == self.height(),
            self.dropped(c, who).width() == self.width(),
            self.dropped(c, who).number_for_win == self.number_for_win,
            self.at(self.landing_row(c), c) == Space::Empty,
            self.dropped(c, who).at(self.landing_row(c), c) == who.piece(),
            forall|r: int, k: int|
                self.on_board(r, k) && !(r == self.landing_row(c) && k == c) ==> self.dropped(
                    c,
                    who,
                ).at(r, k) == self.at(r, k),
    {
        self.lemma_landing_row(c);
        let row = self.landing_row(c);
        let next = self.dropped(c, who);
        assert(self.cells[row].len() == self.width());
        assert forall|r: int| 0 <= r < next.cells.len() implies (#[trigger] next.cells[r]).len()
            == next.width() by {
            assert(self.cells[r].len() == self.width());
            assert(self.cells[0].len() == self.width());
        }
        assert forall|r: int, k: int|
            self.on_board(r, k) && !(r == row && k == c) implies next.at(r, k) == self.at(r, k) by {
            assert(self.cells[r].len() == self.width());
        }
    }

    /// Replacing a cell of column `c` that lies at or below `below` leaves
    /// the count of empty cells above `below` as it was; so does replacing
    /// a cell of another column.
    pub proof fn lemma_empties_above_untouched(self, c: int, below: int, r: int, k: int, v: Space)
        requires
            self.wf(),
            self.on_board(r, k),
            0 <= c < self.width(),
            below <= self.height(),
            k != c || r >= below,
        ensures
            self.with_cell(r, k, v).empties_above(c, below) == self.empties_above(c, below),
        decreases below,
    {
        if below > 0 {
            self.lemma_empties_above_untouched(c, below - 1, r, k, v);
            assert(self.cells[r].len() == self.width());
            assert(self.cells[below - 1].len() == self.width());
        }
    }

    /// Filling an empty cell of column `c` above `below` lowers the count of
    /// empty cells above `below` by one.
    pub proof fn lemma_empties_above_filled(self, c: int, below: int, r: int, v: Space)
        requires
            self.wf(),
            self.on_board(r, c),
            r < below <= self.height(),
            self.at(r, c) == Space::Empty,
            v != Space::Empty,
        ensures
            self.with_cell(r, c, v).empties_above(c, below) + 1 == self.empties_above(c, below),
        decreases below,
    {
        assert(self.cells[r].len() == self.width());
        assert(self.cells[below - 1].len() == self.width());
        if below - 1 == r {
            self.lemma_empties_above_untouched(c, below - 1, r, c, v);
        } else {
            self.lemma_empties_above_filled(c, below - 1, r, v);
        }
    }

    /// A drop into column `c` takes away exactly one of that column's empty
    /// cells and none of any other column's.
    pub proof fn lemma_drop_takes_one_empty(self, c: int, who: Player, k: int)
        requires
            self.wf(),
            self.legal(c),
            0 <= k < self.width(),
        ensures
            k == c ==> self.dropped(c, who).empties_in_column(k) + 1 == self.empties_in_column(k),
            k != c ==> self.dropped(c, who).empties_in_column(k) == self.empties_in_column(k),
    {
        self.lemma_landing_row(c);
        self.lemma_drop_changes_one_cell(c, who);
        let row = self.landing_row(c);
        if k == c {
            self.lemma_empties_above_filled(c, self.height() as int, row, who.piece());
        } else {
            self.lemma_empties_above_untouched(k, self.height() as int, row, c, who.piece());
        }
    }

    /// The legal columns below `upto` are listed in ascending order, each is
    /// legal, and no legal column below `upto` is missing.
    pub proof fn lemma_legal_columns_below(self, upto: nat)
        ensures
            self.legal_columns_below(upto).len() <= upto,
            forall|i: int|
                0 <= i < self.legal_columns_below(upto).len() ==> 0 <= (
                #[trigger] self.legal_columns_below(upto)[i]) < upto && self.legal(
                    self.legal_columns_below(upto)[i],
                ),
            forall|i: int, j: int|
                0 <= i < j < self.legal_columns_below(upto).len() ==> self.legal_columns_below(
                    upto,
                )[i] < self.legal_columns_below(upto)[j],
            forall|c: int|
                0 <= c < upto && self.legal(c) ==> self.legal_columns_below(upto).contains(c),
        decreases upto,
    {
        if upto > 0 {
            let earlier = self.legal_columns_below((upto - 1) as nat);
            self.lemma_legal_columns_below((upto - 1) as nat);
            let all = self.legal_columns_below(upto);
            assert forall|c: int| 0 <= c < upto && self.legal(c) implies all.contains(c) by {
                if c < upto - 1 {
                    let i = choose|i: int| 0 <= i < earlier.len() && earlier[i] == c;
                    assert(all[i] == c);
                } else {
                    assert(all[all.len() - 1] == c);
                }
            }
        }
    }

    /// The list of legal columns is ascending and holds exactly the legal
    /// columns; it is empty when no column has room.
    pub proof fn lemma_legal_columns(self)
        ensures
            forall|i: int|
                0 <= i < self.legal_columns().len() ==> self.legal(
                    #[trigger] self.legal_columns()[i],
                ),
            forall|i: int, j: int|
                0 <= i < j < self.legal_columns().len() ==> self.legal_columns()[i]
                    < self.legal_columns()[j],
            forall|c: int| self.legal(c) <==> self.legal_columns().contains(c),
    {
        self.lemma_legal_columns_below(self.width());
    }
}

} // verus!
