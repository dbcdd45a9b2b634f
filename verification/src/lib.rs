//! A chess rules engine: board and piece model, attack detection, move
//! generation, legality filtering and the game state machine, with the
//! small amount of input and layout logic that a terminal front end needs.

pub mod attack;
pub mod board;
pub mod controls;
pub mod game;
pub mod kings;
pub mod legal;
pub mod listing;
pub mod movegen;
pub mod moves;
pub mod notation;
pub mod order;
pub mod piece;
pub mod sound;
pub mod position;
pub mod promotion;
pub mod rules;
pub mod square;
pub mod state;
pub mod status;
pub mod types;
pub mod ui;
