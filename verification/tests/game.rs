use wordguessr::controller::game_controller::{GameController, GuessResult};
use wordguessr::model::cell::CellState;
use wordguessr::model::game_state::{GameState, GameStatus};
use wordguessr::service::dictionary::DictionaryError;
use wordguessr::service::dictionary::{DictionaryService, Word};

fn word(text: &str) -> Word {
    Word { word: String::from(text), meanings: Vec::new() }
}

fn controller_with(words: &[&str]) -> GameController {
    let dictionary: Vec<Word> = words.iter().map(|w| word(w)).collect();
    GameController::new(DictionaryService::new(dictionary))
}

fn chars(text: &str) -> Vec<char> {
    text.chars().collect()
}

#[test]
fn winning_guess_locks_row_and_ends_game() {
    let c = controller_with(&["ROBOT", "BOOST", "OTTER"]);
    let mut game = GameState::new(word("ROBOT"), 6, 5);
    let r = c.process_guess(&mut game, chars("ROBOT"));
    assert_eq!(r, GuessResult::Won);
    assert_eq!(game.status, GameStatus::Won);
    assert_eq!(game.grid.current_row, 0);
    assert!(game.grid.rows[0].is_disabled());
    for cell in &game.grid.rows[0].cells {
        assert_eq!(cell.state, CellState::Correct);
        assert!(cell.is_disabled);
    }
}

#[test]
fn winning_on_the_last_row_still_wins() {
    let c = controller_with(&["ROBOT", "BOOST"]);
    let mut game = GameState::new(word("ROBOT"), 2, 5);
    assert_eq!(c.process_guess(&mut game, chars("BOOST")), GuessResult::Continue);
    let r = c.process_guess(&mut game, chars("ROBOT"));
    assert_eq!(r, GuessResult::Won);
    assert_eq!(game.status, GameStatus::Won);
    assert_eq!(game.grid.current_row, 1);
    assert!(game.grid.rows[1].is_disabled());
}

#[test]
fn lowercase_guess_is_normalized() {
    let c = controller_with(&["ROBOT"]);
    let mut game = GameState::new(word("ROBOT"), 6, 5);
    let r = c.process_guess(&mut game, chars("robot"));
    assert_eq!(r, GuessResult::Won);
    assert_eq!(game.grid.rows[0].cells[0].letter, Some('R'));
}

#[test]
fn exhausting_tries_continues_then_loses() {
    let c = controller_with(&["ROBOT", "BOOST", "OTTER", "TOAST"]);
    let mut game = GameState::new(word("ROBOT"), 3, 5);
    assert_eq!(c.process_guess(&mut game, chars("BOOST")), GuessResult::Continue);
    assert_eq!(game.status, GameStatus::Playing);
    assert_eq!(game.grid.current_row, 1);
    assert_eq!(c.process_guess(&mut game, chars("OTTER")), GuessResult::Continue);
    assert_eq!(game.status, GameStatus::Playing);
    assert_eq!(game.grid.current_row, 2);
    assert_eq!(c.process_guess(&mut game, chars("TOAST")), GuessResult::Lost);
    assert_eq!(game.status, GameStatus::Lost);
    assert_eq!(game.grid.current_row, 2);
    assert!(game.grid.rows[2].is_disabled());
}

#[test]
fn guess_after_game_over_changes_nothing() {
    let c = controller_with(&["ROBOT", "BOOST"]);
    let mut game = GameState::new(word("ROBOT"), 6, 5);
    assert_eq!(c.process_guess(&mut game, chars("ROBOT")), GuessResult::Won);
    let letters_before: Vec<Option<char>> =
        game.grid.rows[0].cells.iter().map(|cl| cl.letter).collect();
    let r = c.process_guess(&mut game, chars("BOOST"));
    assert_eq!(r, GuessResult::GameAlreadyOver);
    assert_eq!(game.status, GameStatus::Won);
    assert_eq!(game.grid.current_row, 0);
    let letters_after: Vec<Option<char>> =
        game.grid.rows[0].cells.iter().map(|cl| cl.letter).collect();
    assert_eq!(letters_before, letters_after);
}

#[test]
fn invalid_word_changes_nothing_and_costs_no_try() {
    let c = controller_with(&["ROBOT"]);
    let mut game = GameState::new(word("ROBOT"), 6, 5);
    let r = c.process_guess(&mut game, chars("ZZZZZ"));
    assert_eq!(r, GuessResult::InvalidWord);
    assert_eq!(game.status, GameStatus::Playing);
    assert_eq!(game.grid.current_row, 0);
    assert!(!game.grid.rows[0].is_disabled());
    for cell in &game.grid.rows[0].cells {
        assert_eq!(cell.letter, None);
        assert_eq!(cell.state, CellState::Empty);
    }
}

#[test]
fn continue_writes_feedback_and_opens_next_row() {
    let c = controller_with(&["ROBOT", "BOOST"]);
    let mut game = GameState::new(word("ROBOT"), 6, 5);
    let r = c.process_guess(&mut game, chars("BOOST"));
    assert_eq!(r, GuessResult::Continue);
    assert_eq!(game.grid.current_row, 1);
    assert!(game.grid.rows[0].is_disabled());
    assert!(!game.grid.rows[1].is_disabled());
    let row = &game.grid.rows[0];
    assert_eq!(row.cells[0].letter, Some('B'));
    assert_eq!(row.cells[0].state, CellState::Present);
    assert_eq!(row.cells[1].state, CellState::Correct);
    assert_eq!(row.cells[2].state, CellState::Present);
    assert_eq!(row.cells[3].state, CellState::Absent);
    assert_eq!(row.cells[4].state, CellState::Correct);
}

#[test]
fn create_new_game_draws_word_of_requested_length() {
    let c = controller_with(&["ROBOT", "OX"]);
    let game = c.create_new_game(4, 2).expect("a two-letter word exists");
    assert_eq!(game.word_length, 2);
    assert_eq!(game.num_tries, 4);
    assert_eq!(game.status, GameStatus::Playing);
    assert_eq!(game.secret_word.word, "OX");
    assert_eq!(game.grid.rows.len(), 4);
    assert_eq!(game.grid.current_row, 0);
}

#[test]
fn create_new_game_fails_without_word_of_length() {
    let c = controller_with(&["ROBOT"]);
    let r = c.create_new_game(6, 3);
    assert!(matches!(r, Err(DictionaryError::NoWordOfLength)));
}
