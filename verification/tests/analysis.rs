use connect_four::{Dimensions, Direction, Game, LongestRuns, Player, RunData, Space};

fn board(lines: &[&str], number_for_win: usize) -> Game {
    let rows: Vec<Vec<Space>> = lines
        .iter()
        .map(|line| {
            line.chars()
                .map(|ch| match ch {
                    'R' => Space::Red,
                    'Y' => Space::Yellow,
                    _ => Space::Empty,
                })
                .collect()
        })
        .collect();
    Game::new(rows, number_for_win).unwrap()
}

fn runs(h: (usize, usize), v: (usize, usize), d: (usize, usize)) -> LongestRuns {
    LongestRuns {
        horizontal: RunData { ai: h.0, opponent: h.1 },
        vertical: RunData { ai: v.0, opponent: v.1 },
        diagonal: RunData { ai: d.0, opponent: d.1 },
    }
}

#[test]
fn an_empty_game_has_no_runs() {
    let game = Game::new_empty(Dimensions { width: 7, height: 6 }, 4).unwrap();
    assert_eq!(game.find_longest_runs(), runs((0, 0), (0, 0), (0, 0)));
}

#[test]
fn a_single_piece_is_a_run_of_one_in_every_orientation() {
    let game = board(&["...", ".R.", "..."], 3);
    assert_eq!(game.find_longest_runs(), runs((1, 0), (1, 0), (1, 0)));
}

#[test]
fn horizontal_runs_are_counted_along_the_rows() {
    let game = board(&[".......", ".......", "YY.....", "RRR.RRY"], 4);
    let found = game.find_longest_runs();
    assert_eq!(found.horizontal, RunData { ai: 3, opponent: 2 });
    assert_eq!(found.vertical, RunData { ai: 1, opponent: 1 });
    assert_eq!(found.diagonal, RunData { ai: 1, opponent: 1 });
}

#[test]
fn vertical_runs_are_counted_down_the_columns() {
    let game = board(&["Y...", "R...", "R..Y", "R..Y"], 3);
    let found = game.find_longest_runs();
    assert_eq!(found.vertical, RunData { ai: 3, opponent: 2 });
    assert_eq!(found.horizontal, RunData { ai: 1, opponent: 1 });
}

#[test]
fn falling_diagonals_are_found() {
    let game = board(&["R...", ".R..", "..R.", "...Y"], 3);
    let found = game.find_longest_runs();
    assert_eq!(found.diagonal, RunData { ai: 3, opponent: 1 });
    assert_eq!(found.horizontal, RunData { ai: 1, opponent: 1 });
    assert_eq!(found.vertical, RunData { ai: 1, opponent: 1 });
}

#[test]
fn rising_diagonals_are_found() {
    let game = board(&["...Y", "..Y.", ".Y..", "R..."], 3);
    let found = game.find_longest_runs();
    assert_eq!(found.diagonal, RunData { ai: 1, opponent: 3 });
}

#[test]
fn diagonals_away_from_the_centre_are_found() {
    let game = board(&["......R", ".....R.", ".......", "Y......", ".Y....."], 4);
    let found = game.find_longest_runs();
    assert_eq!(found.diagonal, RunData { ai: 2, opponent: 2 });
}

#[test]
fn the_diagonal_entry_is_the_longer_of_the_two_orientations() {
    let game = board(&["R..R", ".RR.", ".RR.", "...."], 4);
    let found = game.find_longest_runs();
    assert_eq!(found.diagonal.ai, 3);
}

#[test]
fn a_run_is_broken_by_the_other_colour_and_by_gaps() {
    let game = board(&["RRYRR.R"], 4);
    let found = game.find_longest_runs();
    assert_eq!(found.horizontal, RunData { ai: 2, opponent: 1 });
}

#[test]
fn run_length_follows_one_direction_from_one_cell() {
    let game = board(&["R...", "RR..", "RRR.", "YRRR"], 4);
    assert_eq!(game.run_length(0, 0, Direction::South, Player::AI), 3);
    assert_eq!(game.run_length(1, 0, Direction::South, Player::AI), 2);
    assert_eq!(game.run_length(0, 0, Direction::SouthEast, Player::AI), 4);
    assert_eq!(game.run_length(3, 1, Direction::East, Player::AI), 3);
    assert_eq!(game.run_length(1, 1, Direction::SouthWest, Player::AI), 2);
    assert_eq!(game.run_length(3, 0, Direction::East, Player::Opponent), 1);
    assert_eq!(game.run_length(3, 0, Direction::East, Player::AI), 0);
    assert_eq!(game.run_length(0, 1, Direction::East, Player::AI), 0);
    assert_eq!(game.run_length(9, 9, Direction::East, Player::AI), 0);
}

#[test]
fn longest_run_of_is_the_greatest_run_on_the_grid() {
    let game = board(&["R...", "RR..", "RRR.", "YRRR"], 4);
    assert_eq!(game.longest_run_of(Direction::East, Player::AI), 3);
    assert_eq!(game.longest_run_of(Direction::South, Player::AI), 3);
    assert_eq!(game.longest_run_of(Direction::SouthEast, Player::AI), 4);
    assert_eq!(game.longest_run_of(Direction::SouthWest, Player::AI), 2);
    assert_eq!(game.longest_run_of(Direction::East, Player::Opponent), 1);
}

#[test]
fn holds_tells_whose_piece_lies_on_a_cell() {
    let game = board(&[".Y", "R."], 2);
    assert!(game.holds(1, 0, Player::AI));
    assert!(!game.holds(1, 0, Player::Opponent));
    assert!(game.holds(0, 1, Player::Opponent));
    assert!(!game.holds(0, 0, Player::AI));
    assert!(!game.holds(2, 0, Player::AI));
}

#[test]
fn analysing_twice_gives_the_same_runs() {
    let game = board(&["....", "..Y.", ".RY.", "RRYY"], 3);
    assert_eq!(game.find_longest_runs(), game.find_longest_runs());
    assert_eq!(game.find_longest_runs(), runs((2, 2), (2, 3), (2, 2)));
}

#[test]
fn equal_grids_have_equal_runs() {
    let first = board(&["....", "..Y.", ".RY.", "RRYY"], 3);
    let second = Game::new_empty(Dimensions { width: 4, height: 4 }, 3)
        .unwrap()
        .drop(0, Player::AI)
        .unwrap()
        .drop(1, Player::AI)
        .unwrap()
        .drop(2, Player::Opponent)
        .unwrap()
        .drop(3, Player::Opponent)
        .unwrap()
        .drop(1, Player::AI)
        .unwrap()
        .drop(2, Player::Opponent)
        .unwrap()
        .drop(2, Player::Opponent)
        .unwrap();
    assert_eq!(first.find_longest_runs(), second.find_longest_runs());
    assert_eq!(first.classify(), second.classify());
}

#[test]
fn best_of_is_the_longest_of_the_three_orientations() {
    let found = runs((1, 6), (5, 2), (3, 4));
    assert_eq!(found.best_of(Player::AI), 5);
    assert_eq!(found.best_of(Player::Opponent), 6);
    let found = runs((1, 0), (1, 0), (7, 0));
    assert_eq!(found.best_of(Player::AI), 7);
}
