//! A verified tic-tac-toe core: coordinate parsing, a 3x3 board with
//! placement rules, win detection, and the per-turn decision logic.
//! Input/output around the game lives outside this crate.

pub mod board;
pub mod game;
pub mod point;
pub mod win;
