//! The board-state engine of a two-player grid battle game: square grids with checked
//! access and neighbour walks, the fields that hold ships and what a player has seen, and
//! the rule that resolves a shot.
pub mod config;
pub mod field;
pub mod playing_state;
pub mod setup_state;
