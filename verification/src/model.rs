pub mod cell;
pub mod dialog;
pub mod game_state;
pub mod grid;
pub mod message;
pub mod row;
