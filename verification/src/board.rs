//! The board: grid occupancy, the history of stones, and the queries a
//! renderer and an input surface need.

use vstd::prelude::*;
use crate::cell::{CellState, ChessColor};
use crate::geometry::{BoardGeometry, CELLS_PER_ROW, CLICK_TOLERANCE_PERMILLE};
use crate::message::Message;
use crate::model::BoardModel;
use crate::position::{
    index_of,
    lemma_index_of_then_pos_of,
    pos_of,
    valid_pos,
    Chess,
    GridPos,
};

verus! {

/// Why a change to the board was refused.
#[derive(Clone, Copy, Debug, PartialEq, Eq, Structural)]
pub enum BoardError {
    /// The index names no cell of the board.
    OutOfRange,
    /// The cell already holds a stone.
    OccupiedCell,
    /// There is no stone to take back.
    EmptyHistory,
}

/// A square grid of cells together with the stones put on it, in order.
pub struct Board {
    geometry: BoardGeometry,
    cells_per_row: usize,
    cells: Vec<CellState>,
    chesses: Vec<Chess>,
    redraw: bool,
}

impl View for Board {
    type V = BoardModel;

    closed spec fn view(&self) -> BoardModel {
        BoardModel {
            geometry: self.geometry,
            cells_per_row: self.cells_per_row as nat,
            cells: self.cells@,
            history: self.chesses@,
        }
    }
}

impl Board {
    /// Consistency of the board; see [`BoardModel::wf`].
    pub open spec fn wf(&self) -> bool {
        self@.wf()
    }

    /// Whether what is painted of the stones is out of date.
    pub closed spec fn redraw_pending(&self) -> bool {
        self.redraw
    }

    /// The standard board without any stone.
    pub open spec fn default_model() -> BoardModel {
        BoardModel::empty(BoardGeometry::standard(), CELLS_PER_ROW as nat)
    }

    /// An empty standard board with the given measurements.
    pub fn new(padding: u32, cell_size: u32, chess_size: u32, line_width: u32) -> (res: Board)
        ensures
            res.wf(),
            res@ == BoardModel::empty(res@.geometry, CELLS_PER_ROW as nat),
            res@.geometry.padding == padding,
            res@.geometry.cell_size == cell_size,
            res@.geometry.chess_size == chess_size,
            res@.geometry.line_width == line_width,
            res.redraw_pending(),
    {
        let cells_per_row: usize = CELLS_PER_ROW;
        let geometry = BoardGeometry::new(
            padding,
            cell_size,
            chess_size,
            line_width,
            cells_per_row,
        );
        let count: usize = cells_per_row * cells_per_row;
        let mut cells: Vec<CellState> = Vec::with_capacity(count);
        while cells.len() < count
            invariant
                cells.len() <= count,
                forall|i: int| 0 <= i < cells.len() ==> cells@[i] == CellState::Empty,
            decreases count - cells.len(),
        {
            cells.push(CellState::Empty);
        }
        let res = Board { geometry, cells_per_row, cells, chesses: Vec::new(), redraw: true };
        proof {
            assert(res@.cells =~= BoardModel::empty(geometry, cells_per_row as nat).cells);
            assert(res@.history =~= BoardModel::empty(geometry, cells_per_row as nat).history);
            BoardModel::lemma_empty_wf(geometry, cells_per_row as nat);
        }
        res
    }

    /// Number of grid lines in each direction.
    pub fn cells_per_row(&self) -> (res: usize)
        ensures
            res == self@.cells_per_row,
    {
        self.cells_per_row
    }

    /// The measurements of the painted board.
    pub fn geometry(&self) -> (res: BoardGeometry)
        ensures
            res == self@.geometry,
    {
        self.geometry
    }

    /// Whether `index` names a cell of the board.
    pub fn valid_index(&self, index: usize) -> (res: bool)
        requires
            self.wf(),
        ensures
            res == self@.valid_index(index as int),
    {
        index < self.cells.len()
    }

    /// Whether column `col` and row `row` both lie on the grid.
    pub fn valid_pos(&self, col: usize, row: usize) -> (res: bool)
        ensures
            res == valid_pos(GridPos { col, row }, self@.cells_per_row),
    {
        col < self.cells_per_row && row < self.cells_per_row
    }

    /// Position of the cell with the given row-major index.
    pub fn index_to_pos(&self, index: usize) -> (res: GridPos)
        requires
            self.wf(),
        ensures
            res == pos_of(index as int, self@.cells_per_row),
    {
        GridPos { col: index % self.cells_per_row, row: index / self.cells_per_row }
    }

    /// Row-major index of the cell at `pos`.
    pub fn pos_to_index(&self, pos: GridPos) -> (res: usize)
        requires
            index_of(pos, self@.cells_per_row) <= usize::MAX,
        ensures
            res == index_of(pos, self@.cells_per_row),
    {
        proof {
            assert(0 <= pos.row * self.cells_per_row) by (nonlinear_arith);
        }
        pos.col + pos.row * self.cells_per_row
    }

    /// Whether `index` names a cell of the board that holds no stone. An
    /// index beyond the board is not empty.
    pub fn is_empty_at(&self, index: usize) -> (res: bool)
        requires
            self.wf(),
        ensures
            res == self@.is_empty_at(index as int),
    {
        index < self.cells.len() && self.cells[index] == CellState::Empty
    }

    /// What the cell with the given index holds; `None` beyond the board.
    pub fn cell_at(&self, index: usize) -> (res: Option<CellState>)
        requires
            self.wf(),
        ensures
            res == if self@.valid_index(index as int) {
                Some(self@.cells[index as int])
            } else {
                None
            },
    {
        if index < self.cells.len() {
            Some(self.cells[index])
        } else {
            None
        }
    }

    /// Number of stones on the board.
    pub fn chess_count(&self) -> (res: usize)
        ensures
            res == self@.history.len(),
    {
        self.chesses.len()
    }

    /// The `nth` stone in the order of play; `None` beyond the history.
    pub fn chess_at(&self, nth: usize) -> (res: Option<Chess>)
        ensures
            res == if nth < self@.history.len() {
                Some(self@.history[nth as int])
            } else {
                None
            },
    {
        if nth < self.chesses.len() {
            Some(self.chesses[nth])
        } else {
            None
        }
    }

    /// The most recent stone, if any.
    pub fn last_chess(&self) -> (res: Option<Chess>)
        ensures
            res == if self@.history.len() > 0 {
                Some(self@.history.last())
            } else {
                None
            },
    {
        let count: usize = self.chesses.len();
        if count > 0 {
            Some(self.chesses[count - 1])
        } else {
            None
        }
    }

    /// Puts a stone of `color` on the cell `index`.
    ///
    /// Fails with `OutOfRange` if `index` names no cell, and with
    /// `OccupiedCell` if the cell holds a stone; the board is then left as it
    /// was. On success the stone is appended to the history, the cell shows
    /// its colour, and a repaint is asked for.
    pub fn put_chess(&mut self, index: usize, color: ChessColor) -> (res: Result<(), BoardError>)
        requires
            old(self).wf(),
        ensures
            final(self).wf(),
            match res {
                Ok(_) => {
                    &&& old(self)@.is_empty_at(index as int)
                    &&& final(self)@ == old(self)@.put(index as int, color)
                    &&& final(self).redraw_pending()
                },
                Err(e) => {
                    &&& !old(self)@.is_empty_at(index as int)
                    &&& e == if old(self)@.valid_index(index as int) {
                        BoardError::OccupiedCell
                    } else {
                        BoardError::OutOfRange
                    }
                    &&& final(self)@ == old(self)@
                    &&& final(self).redraw_pending() == old(self).redraw_pending()
                },
            },
    {
        if !self.valid_index(index) {
            return Err(BoardError::OutOfRange);
        }
        if self.cells[index] != CellState::Empty {
            return Err(BoardError::OccupiedCell);
        }
        let pos = self.index_to_pos(index);
        self.chesses.push(Chess { pos, color });
        self.cells.set(index, color.to_cell());
        self.redraw = true;
        proof {
            old(self)@.lemma_put_wf(index as int, color);
        }
        Ok(())
    }

    /// Takes back the most recent stone.
    ///
    /// Fails with `EmptyHistory` if no stone was put; the board is then left
    /// as it was. On success the stone leaves the history, its cell is empty
    /// again, and a repaint is asked for.
    pub fn remove_last_chess(&mut self) -> (res: Result<Chess, BoardError>)
        requires
            old(self).wf(),
        ensures
            final(self).wf(),
            match res {
                Ok(chess) => {
                    &&& old(self)@.history.len() > 0
                    &&& chess == old(self)@.history.last()
                    &&& final(self)@ == old(self)@.remove_last()
                    &&& final(self).redraw_pending()
                },
                Err(e) => {
                    &&& old(self)@.history.len() == 0
                    &&& e == BoardError::EmptyHistory
                    &&& final(self)@ == old(self)@
                    &&& final(self).redraw_pending() == old(self).redraw_pending()
                },
            },
    {
        match self.chesses.pop() {
            Some(chess) => {
                proof {
                    old(self)@.lemma_remove_last_wf();
                    assert(old(self)@.stone_shown(old(self)@.history.len() - 1));
                    lemma_index_of_then_pos_of(chess.pos, self@.cells_per_row);
                }
                let index: usize = self.pos_to_index(chess.pos);
                self.cells.set(index, CellState::Empty);
                self.redraw = true;
                Ok(chess)
            },
            None => Err(BoardError::EmptyHistory),
        }
    }

    /// Takes all stones off the board. The measurements stay, and a repaint
    /// is asked for.
    pub fn clear(&mut self)
        requires
            old(self).wf(),
        ensures
            final(self).wf(),
            final(self)@ == old(self)@.cleared(),
            final(self).redraw_pending(),
    {
        let count: usize = self.cells.len();
        let mut i: usize = 0;
        while i < count
            invariant
                i <= count,
                count == self.cells.len(),
                self.geometry == old(self).geometry,
                self.cells_per_row == old(self).cells_per_row,
                forall|k: int| 0 <= k < i ==> self.cells@[k] == CellState::Empty,
            decreases count - i,
        {
            self.cells.set(i, CellState::Empty);
            i = i + 1;
        }
        self.chesses.clear();
        self.redraw = true;
        proof {
            assert(self@.cells =~= old(self)@.cleared().cells);
            assert(self@.history =~= old(self)@.cleared().history);
            BoardModel::lemma_empty_wf(self.geometry, self.cells_per_row as nat);
        }
    }

    /// The intersection hit by a pointer at `(x, y)`, if any, with a
    /// tolerance of `permille` thousandths of the line spacing: the pointer
    /// must be within a disc of half that size around the intersection. The
    /// first row and the first column of intersections are left out on
    /// purpose, so every hit is a cell of the board off its top and left
    /// edge. The board is not changed.
    pub fn grid_pos(&self, x: i64, y: i64, permille: u32) -> (res: Option<GridPos>)
        ensures
            res == self@.hit(x as int, y as int, permille as int),
    {
        self.geometry.locate(self.cells_per_row, x, y, permille)
    }

    /// The message that a press at `(x, y)` stands for: a click on the cell
    /// of the intersection that the pointer hits with the usual tolerance,
    /// or nothing if it hits none.
    pub fn click_message(&self, x: i64, y: i64) -> (res: Option<Message>)
        requires
            self.wf(),
        ensures
            res == match self@.hit(x as int, y as int, CLICK_TOLERANCE_PERMILLE as int) {
                Some(pos) => Some(
                    Message::ClickBoard(index_of(pos, self@.cells_per_row) as usize),
                ),
                None => None,
            },
            res matches Some(Message::ClickBoard(index)) ==> self@.valid_index(index as int),
    {
        proof {
            self.geometry.lemma_hit_is_inner_intersection(
                self.cells_per_row as nat,
                x as int,
                y as int,
                CLICK_TOLERANCE_PERMILLE as int,
            );
        }
        match self.grid_pos(x, y, CLICK_TOLERANCE_PERMILLE) {
            Some(pos) => Some(Message::ClickBoard(self.pos_to_index(pos))),
            None => None,
        }
    }

    /// Whether a press at `(x, y)` would be a click on some cell, so that
    /// the pointer can show it.
    pub fn is_clickable(&self, x: i64, y: i64) -> (res: bool)
        ensures
            res == self@.hit(x as int, y as int, CLICK_TOLERANCE_PERMILLE as int).is_some(),
    {
        self.grid_pos(x, y, CLICK_TOLERANCE_PERMILLE).is_some()
    }

    /// Reports whether a repaint was asked for since the last call, and
    /// withdraws the request.
    pub fn take_redraw(&mut self) -> (res: bool)
        ensures
            res == old(self).redraw_pending(),
            !final(self).redraw_pending(),
            final(self)@ == old(self)@,
    {
        let pending = self.redraw;
        self.redraw = false;
        pending
    }
}

impl Default for Board {
    /// The standard board: padding 45, spacing 48, stones of 42, lines of 2.
    fn default() -> (res: Board)
        ensures
            res.wf(),
            res@ == Board::default_model(),
            res.redraw_pending(),
    {
        Board::new(45, 48, 42, 2)
    }
}

} // verus!
