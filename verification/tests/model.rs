use wordguessr::model::cell::{Cell, CellState};
use wordguessr::model::dialog::Dialog;
use wordguessr::model::game_state::{GameState, GameStatus};
use wordguessr::model::grid::{Grid, GridError};
use wordguessr::model::message::Message;
use wordguessr::model::row::Row;
use wordguessr::service::dictionary::Word;

fn word(text: &str) -> Word {
    Word { word: String::from(text), meanings: Vec::new() }
}

#[test]
fn new_cell_is_empty() {
    let c = Cell::new(Some('A'), false);
    assert_eq!(c.letter, Some('A'));
    assert_eq!(c.state, CellState::Empty);
    assert!(!c.is_disabled);
}

#[test]
fn with_state_replaces_only_the_state() {
    let c = Cell::new(Some('A'), true).with_state(CellState::Present);
    assert_eq!(c.letter, Some('A'));
    assert_eq!(c.state, CellState::Present);
    assert!(c.is_disabled);
}

#[test]
fn new_row_has_empty_cells_with_the_row_flag() {
    let r = Row::new(4, true);
    assert!(r.is_disabled());
    assert_eq!(r.cells.len(), 4);
    for c in &r.cells {
        assert_eq!(c.letter, None);
        assert_eq!(c.state, CellState::Empty);
        assert!(c.is_disabled);
    }
}

#[test]
fn set_disabled_propagates_to_cells() {
    let mut r = Row::new(3, true);
    r.set_disabled(false);
    assert!(!r.is_disabled());
    for c in &r.cells {
        assert!(!c.is_disabled);
    }
}

#[test]
fn fresh_grid_starts_on_enabled_first_row() {
    let g = Grid::new(6, 5);
    assert_eq!(g.current_row, 0);
    assert_eq!(g.rows.len(), 6);
    assert!(!g.rows[0].is_disabled());
    for row in g.rows.iter().skip(1) {
        assert!(row.is_disabled());
    }
    for c in &g.rows[0].cells {
        assert_eq!(c.letter, None);
        assert_eq!(c.state, CellState::Empty);
    }
}

#[test]
fn advance_row_moves_the_cursor_and_flags() {
    let mut g = Grid::new(3, 5);
    assert!(g.can_advance());
    assert!(g.advance_row().is_ok());
    assert_eq!(g.current_row, 1);
    assert!(g.rows[0].is_disabled());
    assert!(!g.rows[1].is_disabled());
}

#[test]
fn advance_row_on_last_row_fails_but_locks_it() {
    let mut g = Grid::new(2, 5);
    assert!(g.advance_row().is_ok());
    assert!(!g.can_advance());
    let r = g.advance_row();
    assert!(matches!(r, Err(GridError::NoMoreRows)));
    assert_eq!(g.current_row, 1);
    assert!(g.rows[1].is_disabled());
}

#[test]
fn advance_row_on_single_row_grid_fails_immediately() {
    let mut g = Grid::new(1, 5);
    assert!(!g.can_advance());
    assert!(matches!(g.advance_row(), Err(GridError::NoMoreRows)));
    assert_eq!(g.current_row, 0);
    assert!(g.rows[0].is_disabled());
}

#[test]
fn fresh_game_state_is_playing() {
    let s = GameState::new(word("ROBOT"), 6, 5);
    assert_eq!(s.status, GameStatus::Playing);
    assert!(!s.is_game_over());
    assert_eq!(s.word_length, 5);
    assert_eq!(s.num_tries, 6);
    assert_eq!(s.grid.current_row, 0);
    assert_eq!(s.grid.rows.len(), 6);
}

#[test]
fn game_over_after_status_change() {
    let mut s = GameState::new(word("ROBOT"), 6, 5);
    s.status = GameStatus::Lost;
    assert!(s.is_game_over());
    s.status = GameStatus::Won;
    assert!(s.is_game_over());
}

#[test]
fn dialog_keeps_its_fields() {
    let d = Dialog::new(
        String::from("an-id"),
        String::from("A title"),
        String::from("A message"),
        true,
    );
    assert_eq!(d.get_id(), "an-id");
    assert_eq!(d.title, "A title");
    assert_eq!(d.message, "A message");
    assert!(d.is_active);
}

#[test]
fn warning_dialog_uses_fixed_id_and_title() {
    let d = Dialog::warning_dialog(String::from("Careful"), false);
    assert_eq!(d.get_id(), "warning-dialog");
    assert_eq!(d.title, "Warning");
    assert_eq!(d.message, "Careful");
    assert!(!d.is_active);
}

#[test]
fn message_keeps_status_and_word() {
    let m = Message::new(GameStatus::Won, word("ROBOT"));
    assert_eq!(m.status, GameStatus::Won);
    assert_eq!(m.secret_word.word, "ROBOT");
}
