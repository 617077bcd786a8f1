//! Core logic of a terminal Minesweeper game: grid generation with deferred
//! mine placement (mines appear only after the first reveal, never in the
//! clicked cell or its neighbours), flood-fill reveal of zero-adjacency
//! cells, flag toggling, loss detection, and the menu/playing/dead state
//! machine. Rendering and input polling live outside this crate; the library
//! exposes the data and transition functions they need.

pub mod board;
pub mod counting;
pub mod game;
pub mod game_types;
pub mod game_utils;
pub mod rng;
