pub mod evaluate;
pub mod game_controller;
pub mod laws;
