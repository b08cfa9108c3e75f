//! A sudoku board: a 9x9 grid of clues, guesses and pencil marks, with
//! detection of duplicate digits along rows and columns.

pub mod game;
pub mod pos;
pub mod puzzle;
