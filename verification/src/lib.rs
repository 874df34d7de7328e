//! Core of a turn-based word-guessing game: a player has a fixed number of
//! attempts to guess a secret word, receiving per-letter feedback (correct
//! position, present but misplaced, absent) after each guess.
//!
//! The grid/row/cell model, the guess evaluator and the turn-progression
//! logic are verified; rendering and transport live outside this crate.

pub mod controller;
pub mod model;
pub mod service;
pub mod text;
