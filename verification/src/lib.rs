//! Rule and geometry core of a five-in-a-row board game.
//!
//! A [`Board`] keeps which cells hold a stone and the order in which the
//! stones were put down, and maps a pointer position to the intersection it
//! hits. A [`GomokuGame`] owns a board and the turn, and handles clicks.
//! Painting and input are left to the caller: the library answers queries
//! and says when a repaint is due.

pub mod board;
pub mod cell;
pub mod game;
pub mod geometry;
pub mod message;
pub mod model;
pub mod position;

pub use board::{Board, BoardError};
pub use cell::{CellState, ChessColor};
pub use game::{GameState, GomokuGame};
pub use geometry::{BoardGeometry, CELLS_PER_ROW, CLICK_TOLERANCE_PERMILLE};
pub use message::Message;
pub use position::{Chess, GridPos};
