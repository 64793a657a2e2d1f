use connect_four::{Dimensions, Game, GameError, Player, Space};

fn board(lines: &[&str], number_for_win: usize) -> Game {
    let rows: Vec<Vec<Space>> = lines
        .iter()
        .map(|line| {
            line.chars()
                .map(|ch| match ch {
                    'R' => Space::Red,
                    'Y' => Space::Yellow,
                    _ => Space::Empty,
                })
                .collect()
        })
        .collect();
    Game::new(rows, number_for_win).unwrap()
}

/// Minimax over the whole tree, with no pruning.
fn full_minimax(game: &Game, mover: Player, depth: usize) -> (Option<usize>, isize) {
    if let Some(score) = game.evaluate(depth).unwrap() {
        return (None, score);
    }
    let mut best: Option<(usize, isize)> = None;
    for column in game.legal_moves() {
        let child = game.drop(column, mover).unwrap();
        let (_, score) = full_minimax(&child, mover.other(), depth - 1);
        best = match best {
            Some((kept, value)) if !mover.prefers(score, value) => Some((kept, value)),
            _ => Some((column, score)),
        };
    }
    match best {
        Some((column, score)) => (Some(column), score),
        None => (None, 0),
    }
}

fn agrees_with_full_minimax(game: &Game, deepest: usize) {
    for depth in 0..=deepest {
        for mover in [Player::AI, Player::Opponent] {
            assert_eq!(
                game.best_move(mover, depth),
                Ok(full_minimax(game, mover, depth)),
                "depth {} mover {:?}",
                depth,
                mover
            );
        }
    }
}

#[test]
fn pruning_does_not_change_the_answer_on_an_empty_grid() {
    let game = Game::new_empty(Dimensions { width: 4, height: 4 }, 3).unwrap();
    agrees_with_full_minimax(&game, 5);
}

#[test]
fn pruning_does_not_change_the_answer_in_the_middle_of_a_game() {
    agrees_with_full_minimax(&board(&["....", "....", ".Y..", "RRY."], 3), 5);
    agrees_with_full_minimax(&board(&["....", "..Y.", ".RY.", "RRYR"], 4), 6);
    agrees_with_full_minimax(&board(&["R...", "Y.Y.", "RRY.", "RYRY"], 3), 6);
    agrees_with_full_minimax(&board(&[".....", "..Y..", ".RRY."], 3), 5);
}

#[test]
fn pruning_does_not_change_the_answer_near_the_end_of_a_game() {
    agrees_with_full_minimax(&board(&["R.Y.", "YRRY", "RYYR", "YRRY"], 4), 4);
    agrees_with_full_minimax(&board(&["..Y", "YRR", "RYY"], 3), 4);
}

#[test]
fn the_ai_takes_an_immediate_win() {
    let game = board(&["....", "....", "....", "RR.."], 3);
    assert_eq!(game.best_move(Player::AI, 1), Ok((Some(2), isize::MAX)));
}

#[test]
fn of_several_winning_moves_the_leftmost_is_chosen() {
    // Three plies ahead column 0 wins as well, by a double threat.
    let game = board(&["....", "....", "....", "RR.."], 3);
    assert_eq!(game.best_move(Player::AI, 3), Ok((Some(0), isize::MAX)));
}

#[test]
fn the_opponent_takes_an_immediate_win() {
    let game = board(&["....", "....", "...Y", "RR.Y"], 3);
    assert_eq!(game.best_move(Player::Opponent, 1), Ok((Some(3), isize::MIN)));
}

#[test]
fn the_ai_blocks_a_threat() {
    let game = board(&[".....", ".....", ".....", ".....", "R..YY"], 3);
    let (column, score) = game.best_move(Player::AI, 2).unwrap();
    assert_eq!(column, Some(2));
    assert!(score > isize::MIN);
}

#[test]
fn of_equally_good_moves_the_leftmost_is_chosen() {
    let game = Game::new_empty(Dimensions { width: 4, height: 4 }, 3).unwrap();
    assert_eq!(game.best_move(Player::AI, 1), Ok((Some(0), 1)));
    assert_eq!(game.best_move(Player::Opponent, 1), Ok((Some(0), -1)));
}

#[test]
fn a_lost_position_still_names_the_first_move() {
    let game = board(&[".....", ".....", ".YY.."], 3);
    assert_eq!(game.best_move(Player::AI, 2), Ok((Some(0), isize::MIN)));
}

#[test]
fn depth_zero_gives_the_estimate_and_no_move() {
    let game = board(&["....", "....", "....", "YRR."], 3);
    assert_eq!(game.best_move(Player::AI, 0), Ok((None, 1)));
    assert_eq!(game.best_move(Player::Opponent, 0), Ok((None, 1)));
}

#[test]
fn a_finished_game_has_no_move() {
    let won = board(&["....", "....", "....", "RRR."], 3);
    assert_eq!(won.best_move(Player::Opponent, 3), Ok((None, isize::MAX)));
    let lost = board(&["....", "Y...", "Y...", "YRR."], 3);
    assert_eq!(lost.best_move(Player::AI, 3), Ok((None, isize::MIN)));
    let drawn = board(&["RYR", "RYY", "YRR"], 3);
    assert_eq!(drawn.best_move(Player::AI, 3), Ok((None, 0)));
}

#[test]
fn an_open_game_without_a_free_column_counts_as_drawn() {
    let game = board(&["RYR", "Y.Y", "RYR"], 3);
    assert_eq!(game.evaluate(2), Ok(None));
    assert_eq!(game.best_move(Player::AI, 2), Ok((None, 0)));
    assert_eq!(game.best_move(Player::Opponent, 2), Ok((None, 0)));
}

#[test]
fn an_invalid_state_stops_the_search() {
    let game = board(&[".......", ".......", "YYYY...", "RRRR..."], 4);
    assert_eq!(game.best_move(Player::AI, 0), Err(GameError::InvalidGameState));
    assert_eq!(game.best_move(Player::AI, 3), Err(GameError::InvalidGameState));
    assert_eq!(game.best_move(Player::Opponent, 3), Err(GameError::InvalidGameState));
}

#[test]
fn searching_twice_gives_the_same_answer() {
    let game = board(&["....", "..Y.", ".RY.", "RRYR"], 4);
    assert_eq!(game.best_move(Player::AI, 4), game.best_move(Player::AI, 4));
}

#[test]
fn the_search_plays_a_game_on_the_standard_grid() {
    let mut game = Game::new_empty(Dimensions { width: 7, height: 6 }, 4).unwrap();
    let mut mover = Player::AI;
    for _ in 0..6 {
        let (column, _) = game.best_move(mover, 2).unwrap();
        let column = column.unwrap();
        assert!(game.is_legal(column));
        game = game.drop(column, mover).unwrap();
        mover = mover.other();
    }
    let pieces = (0..6)
        .flat_map(|row| (0..7).map(move |column| (row, column)))
        .filter(|&(row, column)| game.space_at(row, column) != Some(Space::Empty))
        .count();
    assert_eq!(pieces, 6);
}
