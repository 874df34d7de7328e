use wordguessr::controller::game_controller::GameController;
use wordguessr::model::cell::CellState;
use wordguessr::service::dictionary::{DictionaryService, Word};

fn controller() -> GameController {
    GameController::new(DictionaryService::new(Vec::new()))
}

fn word(text: &str) -> Word {
    Word { word: String::from(text), meanings: Vec::new() }
}

fn chars(text: &str) -> Vec<char> {
    text.chars().collect()
}

#[test]
fn guessing_the_secret_itself_is_all_correct() {
    let c = controller();
    let states = c.determine_cell_states(&chars("ROBOT"), &word("ROBOT"));
    assert_eq!(states, vec![CellState::Correct; 5]);
}

#[test]
fn frozen_vector_robot_boost() {
    // Two-pass rule: B is present (the secret's B at index 2 is unconsumed),
    // the first O matches exactly, the second O is present (the secret's O at
    // index 3 is unconsumed), S is absent, T matches exactly.
    let c = controller();
    let states = c.determine_cell_states(&chars("BOOST"), &word("ROBOT"));
    assert_eq!(
        states,
        vec![
            CellState::Present,
            CellState::Correct,
            CellState::Present,
            CellState::Absent,
            CellState::Correct,
        ]
    );
}

#[test]
fn duplicate_letters_error_arrow() {
    // The repeated R of ARROW must not be credited beyond the secret's
    // unconsumed occurrences.
    let c = controller();
    let states = c.determine_cell_states(&chars("ARROW"), &word("ERROR"));
    assert_eq!(
        states,
        vec![
            CellState::Absent,
            CellState::Correct,
            CellState::Correct,
            CellState::Correct,
            CellState::Absent,
        ]
    );
}

#[test]
fn duplicate_letters_otter_robot() {
    // OTTER against ROBOT: only one T is available in the secret, so the
    // guess's second T comes out absent.
    let c = controller();
    let states = c.determine_cell_states(&chars("OTTER"), &word("ROBOT"));
    assert_eq!(
        states,
        vec![
            CellState::Present,
            CellState::Present,
            CellState::Absent,
            CellState::Absent,
            CellState::Present,
        ]
    );
}

#[test]
fn empty_guess_empty_secret() {
    let c = controller();
    let states = c.determine_cell_states(&chars(""), &word(""));
    assert_eq!(states, Vec::new());
}
