//! What the input surface tells the game.

use vstd::prelude::*;

verus! {

/// An input event, already resolved to the board.
#[derive(Clone, Copy, Debug, PartialEq, Eq, Structural)]
pub enum Message {
    /// The cell with this row-major index was clicked.
    ClickBoard(usize),
}

} // verus!
