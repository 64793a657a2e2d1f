use connect_four::{Dimensions, Game, GameError, Space};

fn rows(lines: &[&str]) -> Vec<Vec<Space>> {
    lines
        .iter()
        .map(|line| {
            line.chars()
                .map(|ch| match ch {
                    'R' => Space::Red,
                    'Y' => Space::Yellow,
                    _ => Space::Empty,
                })
                .collect()
        })
        .collect()
}

#[test]
fn game_test_new_empty_game_valid() {
    assert!(Game::new_empty(
        Dimensions {
            width: 7,
            height: 6,
        },
        4,
    )
    .is_ok());
}

#[test]
fn game_test_new_empty_game_invalid() {
    assert!(Game::new_empty(
        Dimensions {
            width: 3,
            height: 3,
        },
        4,
    )
    .is_err());
}

#[test]
fn main_test_new_empty_game_valid() {
    assert!(Game::new_empty(
        Dimensions {
            width: 7,
            height: 6,
        },
        4,
    )
    .is_ok());
}

#[test]
fn main_test_new_empty_game_invalid() {
    assert!(Game::new_empty(
        Dimensions {
            width: 3,
            height: 3,
        },
        4,
    )
    .is_err());
}

#[test]
fn new_empty_invalid_is_invalid_game_definition() {
    let result = Game::new_empty(Dimensions { width: 3, height: 3 }, 4);
    assert_eq!(result.err(), Some(GameError::InvalidGameDefinition));
}

#[test]
fn new_empty_has_the_given_size_and_only_empty_cells() {
    let game = Game::new_empty(Dimensions { width: 7, height: 6 }, 4).unwrap();
    assert_eq!(game.height(), 6);
    assert_eq!(game.width(), 7);
    assert_eq!(game.number_for_win(), 4);
    for row in 0..6 {
        for column in 0..7 {
            assert_eq!(game.space_at(row, column), Some(Space::Empty));
        }
    }
    assert_eq!(game.space_at(6, 0), None);
    assert_eq!(game.space_at(0, 7), None);
}

#[test]
fn new_empty_without_rows_is_rejected() {
    let result = Game::new_empty(Dimensions { width: 7, height: 0 }, 4);
    assert_eq!(result.err(), Some(GameError::InvalidGameDefinition));
}

#[test]
fn new_accepts_a_win_that_fits_one_dimension_only() {
    assert!(Game::new_empty(Dimensions { width: 7, height: 2 }, 4).is_ok());
    assert!(Game::new_empty(Dimensions { width: 2, height: 7 }, 4).is_ok());
    assert!(Game::new_empty(Dimensions { width: 4, height: 4 }, 4).is_ok());
    assert!(Game::new_empty(Dimensions { width: 4, height: 4 }, 5).is_err());
}

#[test]
fn new_keeps_the_rows_it_is_given() {
    let game = Game::new(rows(&["...", ".Y.", "RRY"]), 3).unwrap();
    assert_eq!(game.height(), 3);
    assert_eq!(game.width(), 3);
    assert_eq!(game.space_at(0, 0), Some(Space::Empty));
    assert_eq!(game.space_at(1, 1), Some(Space::Yellow));
    assert_eq!(game.space_at(2, 0), Some(Space::Red));
    assert_eq!(game.space_at(2, 1), Some(Space::Red));
    assert_eq!(game.space_at(2, 2), Some(Space::Yellow));
}

#[test]
fn new_rejects_an_empty_list_of_rows() {
    let result = Game::new(Vec::new(), 1);
    assert_eq!(result.err(), Some(GameError::InvalidGameDefinition));
}

#[test]
fn new_rejects_rows_of_different_lengths() {
    let result = Game::new(rows(&["....", "...", "...."]), 3);
    assert_eq!(result.err(), Some(GameError::InvalidGameDefinition));
    let result = Game::new(rows(&["...", "...", "...."]), 3);
    assert_eq!(result.err(), Some(GameError::InvalidGameDefinition));
}

#[test]
fn new_rejects_a_win_longer_than_both_dimensions() {
    let result = Game::new(rows(&["...", "...", "..."]), 4);
    assert_eq!(result.err(), Some(GameError::InvalidGameDefinition));
}

#[test]
fn error_messages() {
    assert_eq!(GameError::InvalidGameDefinition.message(), "Invalid game definition.");
    assert_eq!(GameError::InvalidGameState.message(), "Invalid game state.");
    assert_eq!(GameError::InvalidMove.message(), "Invalid move.");
}

#[test]
fn glyphs_of_the_cells() {
    assert_eq!(Space::Empty.glyph(), ".");
    assert_eq!(Space::Red.glyph(), "R");
    assert_eq!(Space::Yellow.glyph(), "Y");
}

#[test]
fn render_puts_each_row_on_its_own_line() {
    let game = Game::new(rows(&["...", ".Y.", "RRY"]), 3).unwrap();
    assert_eq!(game.render(), "\n. . .\n. Y .\nR R Y");
}

#[test]
fn render_of_a_single_column() {
    let game = Game::new(rows(&[".", "R"]), 2).unwrap();
    assert_eq!(game.render(), "\n.\nR");
}
