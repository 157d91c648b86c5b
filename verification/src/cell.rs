//! Stone colours and the states a board cell can be in.

use vstd::prelude::*;

verus! {

/// Colour of a placed stone.
#[derive(Clone, Copy, Debug, PartialEq, Eq, Structural)]
pub enum ChessColor {
    Black,
    White,
}

/// What a single intersection of the grid holds.
#[derive(Clone, Copy, Debug, PartialEq, Eq, Structural)]
pub enum CellState {
    Empty,
    Black,
    White,
}

impl ChessColor {
    /// The cell state that a stone of this colour leaves behind.
    pub open spec fn cell(self) -> CellState {
        match self {
            ChessColor::Black => CellState::Black,
            ChessColor::White => CellState::White,
        }
    }

    /// Executable form of [`ChessColor::cell`].
    pub fn to_cell(self) -> (res: CellState)
        ensures
            res == self.cell(),
    {
        match self {
            ChessColor::Black => CellState::Black,
            ChessColor::White => CellState::White,
        }
    }
}

} // verus!
