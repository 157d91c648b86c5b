//! Grid positions, recorded stones, and the row-major mapping between a
//! position and the index of its cell.

use vstd::prelude::*;
use vstd::arithmetic::div_mod::{
    lemma_fundamental_div_mod,
    lemma_fundamental_div_mod_converse,
    lemma_mod_bound,
};
use crate::cell::ChessColor;

verus! {

/// An intersection of the grid, counted from the top-left corner.
#[derive(Clone, Copy, Debug, PartialEq, Eq, Structural)]
pub struct GridPos {
    pub col: usize,
    pub row: usize,
}

/// A stone on the board: where it was put and by whom.
#[derive(Clone, Copy, Debug, PartialEq, Eq, Structural)]
pub struct Chess {
    pub pos: GridPos,
    pub color: ChessColor,
}

/// Whether `pos` lies on a grid of `n` lines in each direction.
pub open spec fn valid_pos(pos: GridPos, n: nat) -> bool {
    pos.col < n && pos.row < n
}

/// Row-major index of the cell at `pos` on a grid of `n` lines.
pub open spec fn index_of(pos: GridPos, n: nat) -> int {
    pos.col + pos.row * n
}

/// Position of the cell with row-major index `index` on a grid of `n` lines.
pub open spec fn pos_of(index: int, n: nat) -> GridPos {
    GridPos { col: (index % (n as int)) as usize, row: (index / (n as int)) as usize }
}

/// A column and a row below `n` give a row-major index below `n * n`.
proof fn lemma_row_major_bound(col: int, row: int, n: int)
    by (nonlinear_arith)
    requires
        0 <= col < n,
        0 <= row < n,
    ensures
        0 <= row * n,
        col + row * n < n * n,
{
}

/// A quotient by `n` of something below `n * n` is below `n`.
proof fn lemma_quotient_bound(index: int, n: int)
    by (nonlinear_arith)
    requires
        0 < n,
        0 <= index < n * n,
    ensures
        0 <= index / n < n,
        index / n <= index,
{
}

/// Every index of the grid names a position on the grid, and that position
/// maps back to the index.
pub proof fn lemma_pos_of_then_index_of(index: int, n: nat)
    requires
        0 < n,
        0 <= index < n * n,
        index <= usize::MAX,
    ensures
        valid_pos(pos_of(index, n), n),
        index_of(pos_of(index, n), n) == index,
{
    let d = n as int;
    lemma_fundamental_div_mod(index, d);
    lemma_mod_bound(index, d);
    lemma_quotient_bound(index, d);
    assert(d * (index / d) == (index / d) * d) by (nonlinear_arith);
}

/// Every position on the grid has an index of the grid, and that index maps
/// back to the position.
pub proof fn lemma_index_of_then_pos_of(pos: GridPos, n: nat)
    requires
        valid_pos(pos, n),
    ensures
        0 <= index_of(pos, n) < n * n,
        pos_of(index_of(pos, n), n) == pos,
{
    let d = n as int;
    lemma_row_major_bound(pos.col as int, pos.row as int, d);
    lemma_fundamental_div_mod_converse(index_of(pos, n), d, pos.row as int, pos.col as int);
}

/// Distinct positions on the grid have distinct indices.
pub proof fn lemma_index_of_injective(a: GridPos, b: GridPos, n: nat)
    requires
        valid_pos(a, n),
        valid_pos(b, n),
        index_of(a, n) == index_of(b, n),
    ensures
        a == b,
{
    lemma_index_of_then_pos_of(a, n);
    lemma_index_of_then_pos_of(b, n);
}

} // verus!
