//! The playable game: a grid of cells with the length of line that wins.

use vstd::prelude::*;
use crate::GameError;
use crate::board::Board;
use crate::dimensions::Dimensions;
use crate::space::Player;
use crate::space::Space;

verus! {

/// A position of the game. The rows run from the top of the grid to the
/// bottom; pieces fall towards the last row.
#[derive(Debug)]
pub struct Game {
    state: Vec<Vec<Space>>,
    number_for_win: usize,
    dimensions: Dimensions,
}

/// How a position stands.
#[derive(Debug, Clone, Copy, PartialEq, Eq, Structural)]
pub enum Outcome {
    Winner(Player),
    Draw,
    Ongoing,
}

/// The cells of `rows` as a sequence of sequences.
pub open spec fn cells_of(rows: Seq<Vec<Space>>) -> Seq<Seq<Space>> {
    Seq::new(rows.len(), |r: int| rows[r]@)
}

/// A list of columns as mathematical integers.
pub open spec fn as_columns(moves: Seq<usize>) -> Seq<int> {
    Seq::new(moves.len(), |i: int| moves[i] as int)
}

impl View for Game {
    type V = Board;

    closed spec fn view(&self) -> Board {
        Board { cells: cells_of(self.state@), number_for_win: self.number_for_win as nat }
    }
}

impl Game {
    /// The recorded dimensions, for use in contracts.
    pub closed spec fn spec_dimensions(&self) -> Dimensions {
        self.dimensions
    }

    /// Every game is a well-formed board whose recorded dimensions are those
    /// of its grid.
    #[verifier::type_invariant]
    pub open spec fn inv(&self) -> bool {
        &&& self@.wf()
        &&& self.spec_dimensions().height == self@.height()
        &&& self.spec_dimensions().width == self@.width()
    }

    /// A game on the given rows, won by `number_for_win` pieces in a line.
    ///
    /// Fails with `InvalidGameDefinition` when there is no row, when the rows
    /// differ in length, or when `number_for_win` exceeds both dimensions.
    pub fn new(state: Vec<Vec<Space>>, number_for_win: usize) -> (result: Result<Game, GameError>)
        ensures
            match result {
                Ok(game) => {
                    &&& game@ == (Board {
                        cells: cells_of(state@),
                        number_for_win: number_for_win as nat,
                    })
                    &&& game@.wf()
                },
                Err(e) => {
                    &&& e == GameError::InvalidGameDefinition
                    &&& !(Board {
                        cells: cells_of(state@),
                        number_for_win: number_for_win as nat,
                    }).wf()
                },
            },
    {
        let height: usize = state.len();
        if height == 0 {
            return Err(GameError::InvalidGameDefinition);
        }
        let width: usize = state[0].len();
        let ghost board = Board { cells: cells_of(state@), number_for_win: number_for_win as nat };
        let mut r: usize = 1;
        while r < height
            invariant
                1 <= r <= height,
                height == state.len(),
                width == state[0].len(),
                board.cells == cells_of(state@),
                forall|k: int| 0 <= k < r ==> (#[trigger] board.cells[k]).len() == width,
            decreases height - r,
        {
            if state[r].len() != width {
                assert(board.cells[r as int].len() != board.width());
                return Err(GameError::InvalidGameDefinition);
            }
            r = r + 1;
        }
        if width < number_for_win && height < number_for_win {
            return Err(GameError::InvalidGameDefinition);
        }
        Ok(Game { number_for_win, dimensions: Dimensions { height, width }, state })
    }

    /// An empty game of the given dimensions.
    ///
    /// Fails with `InvalidGameDefinition` when the height is zero or when
    /// `number_for_win` exceeds both dimensions.
    pub fn new_empty(dimensions: Dimensions, number_for_win: usize) -> (result: Result<
        Game,
        GameError,
    >)
        ensures
            match result {
                Ok(game) => {
                    &&& game@ == Board::empty(
                        dimensions.height as nat,
                        dimensions.width as nat,
                        number_for_win as nat,
                    )
                    &&& game@.wf()
                },
                Err(e) => {
                    &&& e == GameError::InvalidGameDefinition
                    &&& !Board::empty(
                        dimensions.height as nat,
                        dimensions.width as nat,
                        number_for_win as nat,
                    ).wf()
                },
            },
    {
        let mut state: Vec<Vec<Space>> = Vec::new();
        let mut r: usize = 0;
        while r < dimensions.height
            invariant
                r <= dimensions.height,
                state.len() == r,
                forall|k: int| 0 <= k < r ==> (#[trigger] state[k])@ == Seq::new(
                    dimensions.width as nat,
                    |c: int| Space::Empty,
                ),
            decreases dimensions.height - r,
        {
            let mut row: Vec<Space> = Vec::new();
            let mut c: usize = 0;
            while c < dimensions.width
                invariant
                    c <= dimensions.width,
                    row@ == Seq::new(c as nat, |k: int| Space::Empty),
                decreases dimensions.width - c,
            {
                row.push(Space::Empty);
                c = c + 1;
            }
            state.push(row);
            r = r + 1;
        }
        assert(cells_of(state@) == Board::empty(
            dimensions.height as nat,
            dimensions.width as nat,
            number_for_win as nat,
        ).cells);
        Game::new(state, number_for_win)
    }

    /// Number of rows.
    pub fn height(&self) -> (h: usize)
        ensures
            h == self@.height(),
    {
        proof {
            use_type_invariant(self);
        }
        self.dimensions.height
    }

    /// Number of columns.
    pub fn width(&self) -> (w: usize)
        ensures
            w == self@.width(),
    {
        proof {
            use_type_invariant(self);
        }
        self.dimensions.width
    }

    /// Number of pieces in a line that wins.
    pub fn number_for_win(&self) -> (n: usize)
        ensures
            n == self@.number_for_win,
    {
        self.number_for_win
    }

    /// The cell in the given row and column, or `None` off the grid.
    pub fn space_at(&self, row: usize, column: usize) -> (cell: Option<Space>)
        ensures
            cell == if self@.on_board(row as int, column as int) {
                Some(self@.at(row as int, column as int))
            } else {
                None
            },
    {
        proof {
            use_type_invariant(self);
        }
        if row < self.dimensions.height && column < self.dimensions.width {
            assert(self@.cells[row as int].len() == self@.width());
            Some(self.state[row][column])
        } else {
            None
        }
    }

    /// Whether a piece may be dropped into `column`: the column exists and
    /// its top cell is empty.
    pub fn is_legal(&self, column: usize) -> (legal: bool)
        ensures
            legal == self@.legal(column as int),
    {
        match self.space_at(0, column) {
            Some(Space::Empty) => true,
            _ => false,
        }
    }

    /// The columns into which a piece may be dropped, in ascending order.
    /// Empty when no column has room.
    pub fn legal_moves(&self) -> (moves: Vec<usize>)
        ensures
            as_columns(moves@) == self@.legal_columns(),
    {
        let width: usize = self.width();
        let mut moves: Vec<usize> = Vec::new();
        let mut c: usize = 0;
        while c < width
            invariant
                c <= width,
                width == self@.width(),
                as_columns(moves@) == self@.legal_columns_below(c as nat),
            decreases width - c,
        {
            let ghost before = moves@;
            if self.is_legal(c) {
                moves.push(c);
                assert(as_columns(moves@) == as_columns(before).push(c as int));
            }
            c = c + 1;
        }
        moves
    }

    /// The row in which a piece dropped into `column` comes to rest.
    fn landing_row(&self, column: usize) -> (row: usize)
        requires
            self@.legal(column as int),
        ensures
            row == self@.landing_row(column as int),
            row < self@.height(),
    {
        proof {
            use_type_invariant(self);
        }
        let mut below: usize = self.dimensions.height;
        loop
            invariant
                self.inv(),
                self@.legal(column as int),
                1 <= below <= self@.height(),
                self@.landing_row(column as int) == self@.last_empty_above(
                    column as int,
                    below as int,
                ),
            ensures
                1 <= below <= self@.height(),
                self@.landing_row(column as int) == below - 1,
            decreases below,
        {
            assert(self@.cells[below - 1].len() == self@.width());
            if self.state[below - 1][column] == Space::Empty {
                break ;
            }
            below = below - 1;
        }
        below - 1
    }

    /// The game after `player` drops a piece into `column`: the lowest empty
    /// cell of the column now holds the player's piece, and nothing else has
    /// changed.
    pub fn apply(&self, column: usize, player: Player) -> (next: Game)
        requires
            self@.legal(column as int),
        ensures
            next@ == self@.dropped(column as int, player),
    {
        proof {
            use_type_invariant(self);
        }
        let target: usize = self.landing_row(column);
        let piece: Space = player.piece();
        let height: usize = self.dimensions.height;
        let width: usize = self.dimensions.width;
        let ghost goal = self@.dropped(column as int, player);
        let mut state: Vec<Vec<Space>> = Vec::new();
        let mut r: usize = 0;
        while r < height
            invariant
                self.inv(),
                r <= height,
                height == self@.height(),
                width == self@.width(),
                target < height,
                column < width,
                goal == self@.with_cell(target as int, column as int, piece),
                state.len() == r,
                forall|k: int| 0 <= k < r ==> (#[trigger] state[k])@ == goal.cells[k],
            decreases height - r,
        {
            assert(self@.cells[r as int].len() == width);
            let mut row: Vec<Space> = Vec::new();
            let mut c: usize = 0;
            while c < width
                invariant
                    c <= width,
                    r < height,
                    height == self@.height(),
                    self.state[r as int]@.len() == width,
                    self@.cells[r as int] == self.state[r as int]@,
                    goal == self@.with_cell(target as int, column as int, piece),
                    target < height,
                    column < width,
                    row@.len() == c,
                    forall|k: int| 0 <= k < c ==> #[trigger] row@[k] == goal.cells[r as int][k],
                decreases width - c,
            {
                let cell: Space = if r == target && c == column {
                    piece
                } else {
                    self.state[r][c]
                };
                row.push(cell);
                c = c + 1;
            }
            assert(row@ =~= goal.cells[r as int]);
            state.push(row);
            r = r + 1;
        }
        assert(cells_of(state@) =~= goal.cells);
        proof {
            self@.lemma_drop_changes_one_cell(column as int, player);
        }
        Game { state, number_for_win: self.number_for_win, dimensions: self.dimensions }
    }

    /// Drops a piece of `player` into `column`.
    ///
    /// Fails with `InvalidMove` when the column does not exist or has no
    /// room. Otherwise the new game differs from this one in a single cell,
    /// the lowest empty cell of the column, which holds the player's piece.
    pub fn drop(&self, column: usize, player: Player) -> (result: Result<Game, GameError>)
        ensures
            match result {
                Ok(next) => self@.legal(column as int) && next@ == self@.dropped(
                    column as int,
                    player,
                ),
                Err(e) => e == GameError::InvalidMove && !self@.legal(column as int),
            },
    {
        if self.is_legal(column) {
            Ok(self.apply(column, player))
        } else {
            Err(GameError::InvalidMove)
        }
    }

    /// The grid as text: each row on a line of its own, begun by a line
    /// break, with one blank between neighbouring cells.
    pub fn render(&self) -> (text: String)
        ensures
            text@ == self@.text(self@.height()),
    {
        proof {
            use_type_invariant(self);
            reveal_strlit("\n");
            reveal_strlit(" ");
        }
        let height: usize = self.dimensions.height;
        let width: usize = self.dimensions.width;
        let mut text: String = String::new();
        let mut r: usize = 0;
        while r < height
            invariant
                self.inv(),
                r <= height,
                height == self@.height(),
                width == self@.width(),
                "\n"@ == seq!['\n'],
                " "@ == seq![' '],
                text@ == self@.text(r as nat),
            decreases height - r,
        {
            text.append("\n");
            assert(self@.cells[r as int].len() == width);
            let mut c: usize = 0;
            while c < width
                invariant
                    self.inv(),
                    r < height,
                    c <= width,
                    height == self@.height(),
                    width == self@.width(),
                    self.state[r as int]@.len() == width,
                    " "@ == seq![' '],
                    text@ == self@.text(r as nat) + seq!['\n'] + self@.row_text(r as int, c as nat),
                decreases width - c,
            {
                let ghost before = text@;
                if c > 0 {
                    text.append(" ");
                }
                text.append(self.state[r][c].glyph());
                assert(self@.at(r as int, c as int) == self.state[r as int]@[c as int]);
                assert(text@ == self@.text(r as nat) + seq!['\n'] + self@.row_text(
                    r as int,
                    (c + 1) as nat,
                )) by {
                    let cell = self@.at(r as int, c as int).spec_glyph();
                    let head = self@.text(r as nat) + seq!['\n'];
                    let row = self@.row_text(r as int, c as nat);
                    if c > 0 {
                        assert(text@ =~= head + (row + seq![' ', cell]));
                    } else {
                        assert(text@ =~= head + seq![cell]);
                    }
                }
                c = c + 1;
            }
            r = r + 1;
        }
        text
    }
}

} // verus!
