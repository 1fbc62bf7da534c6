//! An engine for N×N tic-tac-toe: board state, move validation, win
//! detection along the four lines through a move, and turn alternation.

pub mod board;
pub mod turn;
pub mod win;
pub mod game;
pub mod input;
