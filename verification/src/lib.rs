//! A verified Minesweeper board: mine placement, cell transitions, the
//! flood-fill reveal and win/loss detection.
//!
//! Contracts speak of a board through its view, a [`board::BoardView`]: the
//! grid as a sequence of rows of cells, the cursor and the game-over flag.
//!
//! - [`cell`]: a cell and the states it can be in.
//! - [`grid`]: the model of the grid, with neighbour counts and the region
//!   that a reveal opens.
//! - [`flood`]: facts about how far a reveal gets.
//! - [`board`]: the board, its construction, counting, flagging, cursor
//!   moves and the win check.
//! - [`sweep`]: the reveal itself.
//! - [`event`]: keys, what they ask for, and one round of play.
//! - [`render`]: the board as it is drawn.
//! - [`laws`]: what holds of any board and any move.
//! - [`rng`]: random indices; the only code here that is trusted rather
//!   than proved.

pub mod cell;
pub mod grid;
pub mod flood;
pub mod board;
pub mod sweep;
pub mod event;
pub mod render;
pub mod laws;
pub mod rng;
