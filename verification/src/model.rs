//! Mathematical model of a board: which cells are occupied and in what
//! order the stones were put down.

use vstd::prelude::*;
use crate::cell::{CellState, ChessColor};
use crate::geometry::BoardGeometry;
use crate::position::{
    index_of,
    lemma_index_of_injective,
    lemma_index_of_then_pos_of,
    lemma_pos_of_then_index_of,
    pos_of,
    valid_pos,
    Chess,
    GridPos,
};

verus! {

/// Number of cells of `cells` that hold a stone.
pub open spec fn occupied_count(cells: Seq<CellState>) -> nat
    decreases cells.len(),
{
    if cells.len() == 0 {
        0
    } else {
        occupied_count(cells.drop_last()) + if cells.last() == CellState::Empty {
            0nat
        } else {
            1nat
        }
    }
}

/// What a board stands for: its measurements, its cells in row-major order,
/// and the stones in the order they were put down.
pub struct BoardModel {
    pub geometry: BoardGeometry,
    pub cells_per_row: nat,
    pub cells: Seq<CellState>,
    pub history: Seq<Chess>,
}

impl BoardModel {
    /// The board without any stone.
    pub open spec fn empty(geometry: BoardGeometry, cells_per_row: nat) -> BoardModel {
        BoardModel {
            geometry,
            cells_per_row,
            cells: Seq::new(cells_per_row * cells_per_row, |i: int| CellState::Empty),
            history: Seq::empty(),
        }
    }

    /// Whether `index` names a cell of the board.
    pub open spec fn valid_index(self, index: int) -> bool {
        0 <= index < self.cells_per_row * self.cells_per_row
    }

    /// Whether `index` names a cell of the board that holds no stone.
    pub open spec fn is_empty_at(self, index: int) -> bool {
        self.valid_index(index) && self.cells[index] == CellState::Empty
    }

    /// Whether the `j`-th stone of the history lies on the grid and its cell
    /// shows its colour.
    pub open spec fn stone_shown(self, j: int) -> bool {
        let stone = self.history[j];
        &&& valid_pos(stone.pos, self.cells_per_row)
        &&& self.cells[index_of(stone.pos, self.cells_per_row)] == stone.color.cell()
    }

    /// Whether some stone of the history lies on the cell with this index.
    pub open spec fn stone_on(self, index: int) -> bool {
        exists|j: int|
            0 <= j < self.history.len() && (#[trigger] self.history[j]).pos == pos_of(
                index,
                self.cells_per_row,
            )
    }

    /// Consistency of cells and history: the grid is square and fits in
    /// memory, every recorded stone shows on its cell, no two stones share a
    /// position, and every occupied cell has a stone in the history.
    pub open spec fn wf(self) -> bool {
        &&& 0 < self.cells_per_row
        &&& self.cells.len() == self.cells_per_row * self.cells_per_row
        &&& self.cells.len() <= usize::MAX
        &&& self.geometry.wf(self.cells_per_row)
        &&& forall|j: int| 0 <= j < self.history.len() ==> #[trigger] self.stone_shown(j)
        &&& forall|j: int, k: int|
            0 <= j < k < self.history.len() ==> (#[trigger] self.history[j]).pos != (
            #[trigger] self.history[k]).pos
        &&& forall|i: int|
            0 <= i < self.cells.len() && #[trigger] self.cells[i] != CellState::Empty
                ==> self.stone_on(i)
    }

    /// The board after a stone of `color` is put on the cell `index`.
    pub open spec fn put(self, index: int, color: ChessColor) -> BoardModel {
        BoardModel {
            cells: self.cells.update(index, color.cell()),
            history: self.history.push(
                Chess { pos: pos_of(index, self.cells_per_row), color },
            ),
            ..self
        }
    }

    /// The board after its most recent stone is taken back.
    pub open spec fn remove_last(self) -> BoardModel {
        BoardModel {
            cells: self.cells.update(
                index_of(self.history.last().pos, self.cells_per_row),
                CellState::Empty,
            ),
            history: self.history.drop_last(),
            ..self
        }
    }

    /// The board after all stones are taken off; the measurements stay.
    pub open spec fn cleared(self) -> BoardModel {
        BoardModel::empty(self.geometry, self.cells_per_row)
    }

    /// The intersection hit by a pointer at `(x, y)`, if any.
    pub open spec fn hit(self, x: int, y: int, permille: int) -> Option<GridPos> {
        self.geometry.hit(self.cells_per_row, x, y, permille)
    }
}

/// Changing one cell changes the count of occupied cells by that cell alone.
pub proof fn lemma_occupied_count_update(cells: Seq<CellState>, index: int, state: CellState)
    requires
        0 <= index < cells.len(),
    ensures
        occupied_count(cells.update(index, state)) + (if cells[index] == CellState::Empty {
            0nat
        } else {
            1nat
        }) == occupied_count(cells) + (if state == CellState::Empty {
            0nat
        } else {
            1nat
        }),
    decreases cells.len(),
{
    let changed = cells.update(index, state);
    if index == cells.len() - 1 {
        assert(changed.drop_last() =~= cells.drop_last());
    } else {
        assert(changed.drop_last() =~= cells.drop_last().update(index, state));
        lemma_occupied_count_update(cells.drop_last(), index, state);
    }
}

/// A run of empty cells has no occupied cell.
pub proof fn lemma_occupied_count_of_empty(cells: Seq<CellState>)
    requires
        forall|i: int| 0 <= i < cells.len() ==> cells[i] == CellState::Empty,
    ensures
        occupied_count(cells) == 0,
    decreases cells.len(),
{
    if cells.len() > 0 {
        lemma_occupied_count_of_empty(cells.drop_last());
    }
}

impl BoardModel {
    /// An empty board of a grid that fits in memory is consistent.
    pub proof fn lemma_empty_wf(geometry: BoardGeometry, cells_per_row: nat)
        requires
            0 < cells_per_row,
            cells_per_row * cells_per_row <= usize::MAX,
            geometry.wf(cells_per_row),
        ensures
            BoardModel::empty(geometry, cells_per_row).wf(),
            forall|i: int|
                BoardModel::empty(geometry, cells_per_row).valid_index(i) ==> BoardModel::empty(
                    geometry,
                    cells_per_row,
                ).is_empty_at(i),
    {
    }

    /// Putting a stone on an empty cell keeps the board consistent.
    pub proof fn lemma_put_wf(self, index: int, color: ChessColor)
        requires
            self.wf(),
            self.is_empty_at(index),
        ensures
            self.put(index, color).wf(),
    {
        let n = self.cells_per_row;
        let after = self.put(index, color);
        let count = self.history.len() as int;
        lemma_pos_of_then_index_of(index, n);
        assert forall|j: int| 0 <= j < after.history.len() implies #[trigger] after.stone_shown(
            j,
        ) by {
            if j < count {
                assert(self.stone_shown(j));
                assert(after.history[j] == self.history[j]);
                lemma_index_of_then_pos_of(self.history[j].pos, n);
            } else {
                assert(after.history[j].pos == pos_of(index, n));
            }
        }
        assert forall|j: int, k: int| 0 <= j < k < after.history.len() implies (
        #[trigger] after.history[j]).pos != (#[trigger] after.history[k]).pos by {
            assert(self.stone_shown(j));
            if k < count {
                assert(after.history[j] == self.history[j]);
                assert(after.history[k] == self.history[k]);
            }
        }
        assert forall|i: int|
            0 <= i < after.cells.len() && #[trigger] after.cells[i]
                != CellState::Empty implies after.stone_on(i) by {
            if i == index {
                assert(after.history[count].pos == pos_of(i, n));
            } else {
                assert(self.cells[i] != CellState::Empty);
                assert(self.stone_on(i));
                let j = choose|j: int|
                    0 <= j < self.history.len() && (#[trigger] self.history[j]).pos == pos_of(
                        i,
                        n,
                    );
                assert(after.history[j].pos == pos_of(i, n));
            }
        }
    }

    /// Taking back the most recent stone keeps the board consistent.
    pub proof fn lemma_remove_last_wf(self)
        requires
            self.wf(),
            self.history.len() > 0,
        ensures
            self.remove_last().wf(),
            self.valid_index(index_of(self.history.last().pos, self.cells_per_row)),
    {
        let n = self.cells_per_row;
        let after = self.remove_last();
        let top = self.history.len() - 1;
        let last = self.history[top];
        let freed = index_of(last.pos, n);
        assert(self.stone_shown(top));
        lemma_index_of_then_pos_of(last.pos, n);
        assert forall|j: int| 0 <= j < after.history.len() implies #[trigger] after.stone_shown(
            j,
        ) by {
            assert(self.stone_shown(j));
            assert(after.history[j] == self.history[j]);
            assert(self.history[j].pos != self.history[top].pos);
            lemma_index_of_then_pos_of(self.history[j].pos, n);
            if index_of(self.history[j].pos, n) == freed {
                lemma_index_of_injective(self.history[j].pos, last.pos, n);
            }
        }
        assert forall|j: int, k: int| 0 <= j < k < after.history.len() implies (
        #[trigger] after.history[j]).pos != (#[trigger] after.history[k]).pos by {
            assert(after.history[j] == self.history[j]);
            assert(after.history[k] == self.history[k]);
        }
        assert forall|i: int|
            0 <= i < after.cells.len() && #[trigger] after.cells[i]
                != CellState::Empty implies after.stone_on(i) by {
            assert(i != freed);
            assert(self.cells[i] != CellState::Empty);
            assert(self.stone_on(i));
            let j = choose|j: int|
                0 <= j < self.history.len() && (#[trigger] self.history[j]).pos == pos_of(i, n);
            if j == top {
                lemma_pos_of_then_index_of(i, n);
            }
            assert(after.history[j].pos == pos_of(i, n));
        }
    }

    /// Taking back a stone right after it was put restores the board: the
    /// cell is occupied in between, shows the stone's colour, and is empty
    /// again afterwards.
    pub proof fn lemma_put_then_remove_last(self, index: int, color: ChessColor)
        requires
            self.wf(),
            self.is_empty_at(index),
        ensures
            !self.put(index, color).is_empty_at(index),
            self.put(index, color).cells[index] == color.cell(),
            self.put(index, color).history.last() == (Chess {
                pos: pos_of(index, self.cells_per_row),
                color,
            }),
            self.put(index, color).remove_last() == self,
            self.put(index, color).remove_last().is_empty_at(index),
    {
        let after = self.put(index, color);
        lemma_pos_of_then_index_of(index, self.cells_per_row);
        assert(after.remove_last().cells =~= self.cells);
        assert(after.remove_last().history =~= self.history);
    }

    /// The number of occupied cells equals the number of stones in the
    /// history.
    pub proof fn lemma_history_matches_occupancy(self)
        requires
            self.wf(),
        ensures
            occupied_count(self.cells) == self.history.len(),
        decreases self.history.len(),
    {
        if self.history.len() == 0 {
            assert forall|i: int| 0 <= i < self.cells.len() implies self.cells[i]
                == CellState::Empty by {
                if self.cells[i] != CellState::Empty {
                    assert(self.stone_on(i));
                }
            }
            lemma_occupied_count_of_empty(self.cells);
        } else {
            let top = self.history.len() - 1;
            let freed = index_of(self.history[top].pos, self.cells_per_row);
            assert(self.stone_shown(top));
            self.lemma_remove_last_wf();
            self.remove_last().lemma_history_matches_occupancy();
            lemma_occupied_count_update(self.cells, freed, CellState::Empty);
        }
    }

    /// A cell shows a colour exactly if the history holds a stone of that
    /// colour at the cell's position, and no position has two stones.
    pub proof fn lemma_cell_shows_its_stone(self, index: int, color: ChessColor)
        requires
            self.wf(),
            self.valid_index(index),
        ensures
            self.cells[index] == color.cell() <==> exists|j: int|
                0 <= j < self.history.len() && #[trigger] self.history[j] == (Chess {
                    pos: pos_of(index, self.cells_per_row),
                    color,
                }),
            forall|j: int, k: int|
                0 <= j < self.history.len() && 0 <= k < self.history.len() && (
                #[trigger] self.history[j]).pos == (#[trigger] self.history[k]).pos ==> j == k,
    {
        let n = self.cells_per_row;
        let stone = Chess { pos: pos_of(index, n), color };
        lemma_pos_of_then_index_of(index, n);
        if self.cells[index] == color.cell() {
            assert(self.stone_on(index));
            let j = choose|j: int|
                0 <= j < self.history.len() && (#[trigger] self.history[j]).pos == pos_of(
                    index,
                    n,
                );
            assert(self.stone_shown(j));
            assert(self.history[j] == stone);
        }
        if exists|j: int| 0 <= j < self.history.len() && #[trigger] self.history[j] == stone {
            let j = choose|j: int| 0 <= j < self.history.len() && #[trigger] self.history[j] == stone;
            assert(self.stone_shown(j));
        }
        assert forall|j: int, k: int|
            0 <= j < self.history.len() && 0 <= k < self.history.len() && (
            #[trigger] self.history[j]).pos == (#[trigger] self.history[k]).pos implies j == k by {
            if j < k {
                assert(self.history[j].pos != self.history[k].pos);
            } else if k < j {
                assert(self.history[k].pos != self.history[j].pos);
            }
        }
    }

    /// A cleared board is consistent, holds no stone, and every cell of it
    /// is empty.
    pub proof fn lemma_cleared_is_empty(self)
        requires
            self.wf(),
        ensures
            self.cleared().wf(),
            self.cleared().history.len() == 0,
            self.cleared().geometry == self.geometry,
            self.cleared().cells_per_row == self.cells_per_row,
            forall|i: int| self.valid_index(i) ==> self.cleared().is_empty_at(i),
    {
        BoardModel::lemma_empty_wf(self.geometry, self.cells_per_row);
    }
}

} // verus!
