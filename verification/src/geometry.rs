//! Board geometry and the hit test that maps a pointer position to a grid
//! intersection.
//!
//! All lengths are integers in one unit of the caller's choice (the default
//! geometry is in whole pixels); pointer coordinates are given in that same
//! unit. The tolerance of the hit test is given in thousandths of the line
//! spacing.

use vstd::prelude::*;
use vstd::arithmetic::div_mod::{lemma_fundamental_div_mod, lemma_mod_bound};
use crate::position::{index_of, lemma_index_of_then_pos_of, GridPos};

verus! {

/// Number of grid lines in each direction of a standard board.
pub const CELLS_PER_ROW: usize = 15;

/// Tolerance used for presses and hover feedback: six tenths of the spacing.
pub const CLICK_TOLERANCE_PERMILLE: u32 = 600;

/// Measurements of the painted board, fixed when the board is made.
#[derive(Clone, Copy, Debug, PartialEq, Eq, Structural)]
pub struct BoardGeometry {
    /// Offset of the first grid line from the surface's edge.
    pub padding: u32,
    /// Distance between neighbouring grid lines.
    pub cell_size: u32,
    /// Diameter of a stone.
    pub chess_size: u32,
    /// Thickness of a grid line.
    pub line_width: u32,
    /// Length of a grid line.
    pub grid_size: u64,
}

/// Length of a grid line on a grid of `n` lines spaced `cell_size` apart.
pub open spec fn grid_extent(n: nat, cell_size: int, line_width: int) -> int {
    (n - 1) * cell_size + line_width
}

/// The grid line nearest to `offset`, for lines `spacing` apart starting at
/// zero. A point half-way between two lines belongs to the one further from
/// zero.
pub open spec fn nearest_line(offset: int, spacing: int) -> int
    recommends
        spacing > 0,
{
    if offset >= 0 {
        (2 * offset + spacing) / (2 * spacing)
    } else {
        -((2 * (-offset) + spacing) / (2 * spacing))
    }
}

/// Whether a point `(dx, dy)` away from an intersection is close enough to
/// count as on it: twice its distance is at most `permille` thousandths of
/// `spacing`. Both sides are squared, so no root is taken.
pub open spec fn within_tolerance(dx: int, dy: int, spacing: int, permille: int) -> bool {
    4_000_000 * (dx * dx + dy * dy) <= (spacing * permille) * (spacing * permille)
}

impl BoardGeometry {
    /// Measurements of the standard board: padding 45, spacing 48, stones of
    /// 42, lines 2 thick and 674 long.
    pub open spec fn standard() -> BoardGeometry {
        BoardGeometry { padding: 45, cell_size: 48, chess_size: 42, line_width: 2, grid_size: 674 }
    }

    /// Whether the derived line length matches a grid of `n` lines.
    pub open spec fn wf(self, n: nat) -> bool {
        self.grid_size == grid_extent(n, self.cell_size as int, self.line_width as int)
    }

    /// The intersection hit by a pointer at `(x, y)`, if any.
    ///
    /// Each coordinate is snapped to its nearest grid line. The snapped
    /// intersection counts only if it lies on the grid and the pointer is
    /// within the tolerance of it. The first row and the first column of
    /// intersections are left out on purpose: a pointer there hits nothing.
    pub open spec fn hit(self, n: nat, x: int, y: int, permille: int) -> Option<GridPos> {
        let spacing = self.cell_size as int;
        let ox = x - self.padding;
        let oy = y - self.padding;
        let col = nearest_line(ox, spacing);
        let row = nearest_line(oy, spacing);
        if spacing > 0 && 0 < col < n && 0 < row < n && within_tolerance(
            ox - col * spacing,
            oy - row * spacing,
            spacing,
            permille,
        ) {
            Some(GridPos { col: col as usize, row: row as usize })
        } else {
            None
        }
    }

    /// Geometry of a grid of `cells_per_row` lines.
    pub fn new(
        padding: u32,
        cell_size: u32,
        chess_size: u32,
        line_width: u32,
        cells_per_row: usize,
    ) -> (res: BoardGeometry)
        requires
            cells_per_row > 0,
            grid_extent(cells_per_row as nat, cell_size as int, line_width as int) <= u64::MAX,
        ensures
            res.wf(cells_per_row as nat),
            res.padding == padding,
            res.cell_size == cell_size,
            res.chess_size == chess_size,
            res.line_width == line_width,
    {
        let lines: u64 = (cells_per_row - 1) as u64;
        proof {
            lemma_product_bounds(lines as int, cell_size as int, lines as int, cell_size as int);
        }
        let grid_size: u64 = lines * (cell_size as u64) + (line_width as u64);
        BoardGeometry { padding, cell_size, chess_size, line_width, grid_size }
    }

    /// Executable form of [`BoardGeometry::hit`].
    pub fn locate(&self, cells_per_row: usize, x: i64, y: i64, permille: u32) -> (res: Option<
        GridPos,
    >)
        ensures
            res == self.hit(cells_per_row as nat, x as int, y as int, permille as int),
    {
        if self.cell_size == 0 {
            return None;
        }
        let (col, dx) = match snap(x, self.padding, self.cell_size, cells_per_row) {
            Some(hit) => hit,
            None => { return None; },
        };
        let (row, dy) = match snap(y, self.padding, self.cell_size, cells_per_row) {
            Some(hit) => hit,
            None => { return None; },
        };
        proof {
            lemma_product_bounds(
                self.cell_size as int,
                permille as int,
                0xffff_ffff,
                0xffff_ffff,
            );
        }
        let reach: u128 = (self.cell_size as u128) * (permille as u128);
        proof {
            let ox = x - self.padding;
            let oy = y - self.padding;
            let s = self.cell_size as int;
            lemma_square_of_deviation(ox - col * s, dx as int);
            lemma_square_of_deviation(oy - row * s, dy as int);
            lemma_product_bounds(dx as int, dx as int, 0x8000_0000, 0x8000_0000);
            lemma_product_bounds(dy as int, dy as int, 0x8000_0000, 0x8000_0000);
            lemma_product_bounds(
                reach as int,
                reach as int,
                0xffff_fffe_0000_0001,
                0xffff_fffe_0000_0001,
            );
        }
        let dist2: u128 = (dx as u128) * (dx as u128) + (dy as u128) * (dy as u128);
        if 4_000_000 * dist2 <= reach * reach {
            Some(GridPos { col, row })
        } else {
            None
        }
    }
}

/// Bounds on a product of two bounded non-negative factors.
proof fn lemma_product_bounds(a: int, b: int, a_max: int, b_max: int)
    by (nonlinear_arith)
    requires
        0 <= a <= a_max,
        0 <= b <= b_max,
    ensures
        0 <= a * b <= a_max * b_max,
{
}

/// A deviation and its absolute value have the same square.
proof fn lemma_square_of_deviation(d: int, magnitude: int)
    by (nonlinear_arith)
    requires
        magnitude == d || magnitude == -d,
    ensures
        magnitude * magnitude == d * d,
{
}

/// For a non-negative offset the nearest line is within half a spacing, and
/// a point half-way belongs to the line above.
proof fn lemma_round_half_up(offset: int, spacing: int)
    requires
        0 <= offset,
        0 < spacing,
    ensures
        ({
            let q = (2 * offset + spacing) / (2 * spacing);
            &&& 0 <= q
            &&& -spacing <= 2 * (offset - q * spacing) < spacing
        }),
{
    let num = 2 * offset + spacing;
    let den = 2 * spacing;
    let q = num / den;
    lemma_fundamental_div_mod(num, den);
    lemma_mod_bound(num, den);
    assert(den * q == 2 * (q * spacing)) by (nonlinear_arith)
        requires
            den == 2 * spacing,
    ;
    assert(0 <= q) by (nonlinear_arith)
        requires
            0 <= num,
            0 < den,
            q == num / den,
    ;
}

/// Snaps one coordinate to its nearest grid line and reports how far off the
/// line it is, provided the line can be hit at all.
fn snap(coord: i64, padding: u32, spacing: u32, cells_per_row: usize) -> (res: Option<
    (usize, u32),
>)
    requires
        spacing > 0,
    ensures
        match res {
            Some((line, deviation)) => {
                &&& 0 < line < cells_per_row
                &&& line == nearest_line(coord - padding, spacing as int)
                &&& (deviation == coord - padding - line * spacing || deviation == -(coord
                    - padding - line * spacing))
                &&& 2 * deviation <= spacing
            },
            None => !(0 < nearest_line(coord - padding, spacing as int) < cells_per_row),
        },
{
    let offset: i128 = (coord as i128) - (padding as i128);
    if offset < 0 {
        proof {
            lemma_round_half_up(-offset, spacing as int);
        }
        return None;
    }
    proof {
        lemma_round_half_up(offset as int, spacing as int);
    }
    let from_origin: u128 = offset as u128;
    let line: u128 = (2 * from_origin + (spacing as u128)) / (2 * (spacing as u128));
    if line == 0 || line >= cells_per_row as u128 {
        return None;
    }
    proof {
        lemma_product_bounds(line as int, spacing as int, 0xffff_ffff_ffff_ffff, 0xffff_ffff);
    }
    let on_line: u128 = line * (spacing as u128);
    let deviation: u128 = if from_origin >= on_line {
        from_origin - on_line
    } else {
        on_line - from_origin
    };
    Some((line as usize, deviation as u32))
}

/// The nearest line is at most half a spacing away; a point half-way between
/// two lines goes to the one further from zero; and the line has the sign of
/// the offset.
pub proof fn lemma_nearest_line_is_nearest(offset: int, spacing: int)
    requires
        spacing > 0,
    ensures
        ({
            let line = nearest_line(offset, spacing);
            let off = offset - line * spacing;
            &&& -spacing <= 2 * off <= spacing
            &&& offset >= 0 ==> line >= 0 && 2 * off < spacing
            &&& offset < 0 ==> line <= 0 && -spacing < 2 * off
        }),
{
    if offset >= 0 {
        lemma_round_half_up(offset, spacing);
    } else {
        lemma_round_half_up(-offset, spacing);
        let q = (2 * (-offset) + spacing) / (2 * spacing);
        assert((-q) * spacing == -(q * spacing)) by (nonlinear_arith);
    }
}

/// Two lines whose distances to one point differ by less than a spacing are
/// the same line.
proof fn lemma_lines_apart(a: int, b: int, spacing: int)
    by (nonlinear_arith)
    requires
        spacing > 0,
        -spacing < (a - b) * spacing < spacing,
    ensures
        a == b,
{
}

/// Only the nearest line is that close: a line within half a spacing of a
/// point, the half-way point counted to the line further from zero, is the
/// point's nearest line.
pub proof fn lemma_nearest_line_unique(offset: int, spacing: int, line: int)
    requires
        spacing > 0,
        -spacing <= 2 * (offset - line * spacing) <= spacing,
        offset >= 0 ==> 2 * (offset - line * spacing) < spacing,
        offset < 0 ==> -spacing < 2 * (offset - line * spacing),
    ensures
        line == nearest_line(offset, spacing),
{
    let nearest = nearest_line(offset, spacing);
    lemma_nearest_line_is_nearest(offset, spacing);
    assert((nearest - line) * spacing == nearest * spacing - line * spacing)
        by (nonlinear_arith);
    lemma_lines_apart(nearest, line, spacing);
}

/// A point closer to an intersection than half the spacing, by a tolerance
/// below the whole spacing, is closer than half a spacing along each axis.
proof fn lemma_tolerance_bounds_axis(dx: int, dy: int, spacing: int, permille: int)
    by (nonlinear_arith)
    requires
        spacing > 0,
        0 <= permille < 1000,
        4_000_000 * (dx * dx + dy * dy) <= (spacing * permille) * (spacing * permille),
    ensures
        -spacing < 2 * dx < spacing,
{
    assert((spacing * permille) * (spacing * permille) < (spacing * 1000) * (spacing * 1000));
    assert(0 <= dy * dy);
    assert((2 * dx) * (2 * dx) < spacing * spacing);
    if 2 * dx >= spacing {
        assert((2 * dx) * (2 * dx) >= spacing * spacing);
    }
    if 2 * dx <= -spacing {
        assert((2 * dx) * (2 * dx) >= spacing * spacing);
    }
}

impl BoardGeometry {
    /// What a hit is: an intersection off the first row and column and on
    /// the grid, nearest to the pointer along both axes, with the pointer
    /// within the tolerance of it. Its index is an index of the grid.
    pub proof fn lemma_hit_is_inner_intersection(self, n: nat, x: int, y: int, permille: int)
        requires
            n <= usize::MAX,
        ensures
            match self.hit(n, x, y, permille) {
                Some(pos) => {
                    &&& self.cell_size > 0
                    &&& 0 < pos.col < n
                    &&& 0 < pos.row < n
                    &&& 0 <= index_of(pos, n) < n * n
                    &&& pos.col == nearest_line(x - self.padding, self.cell_size as int)
                    &&& pos.row == nearest_line(y - self.padding, self.cell_size as int)
                    &&& within_tolerance(
                        x - self.padding - pos.col * self.cell_size,
                        y - self.padding - pos.row * self.cell_size,
                        self.cell_size as int,
                        permille,
                    )
                },
                None => true,
            },
    {
        match self.hit(n, x, y, permille) {
            Some(pos) => {
                lemma_index_of_then_pos_of(pos, n);
            },
            None => {},
        }
    }

    /// A pointer exactly on an intersection off the first row and column
    /// hits that intersection, whatever the tolerance.
    pub proof fn lemma_hit_on_intersection(self, n: nat, pos: GridPos, permille: int)
        requires
            self.cell_size > 0,
            0 < pos.col < n,
            0 < pos.row < n,
        ensures
            self.hit(
                n,
                self.padding + pos.col * self.cell_size,
                self.padding + pos.row * self.cell_size,
                permille,
            ) == Some(pos),
    {
        let s = self.cell_size as int;
        lemma_product_bounds(pos.col as int, s, pos.col as int, s);
        lemma_product_bounds(pos.row as int, s, pos.row as int, s);
        lemma_nearest_line_unique(pos.col * s, s, pos.col as int);
        lemma_nearest_line_unique(pos.row * s, s, pos.row as int);
        assert(0 <= (s * permille) * (s * permille)) by (nonlinear_arith);
    }

    /// A pointer on the first row or the first column of intersections, or
    /// before them, hits nothing.
    pub proof fn lemma_first_lines_are_never_hit(self, n: nat, x: int, y: int, permille: int)
        requires
            x <= self.padding || y <= self.padding,
        ensures
            self.hit(n, x, y, permille) is None,
    {
        if self.cell_size > 0 {
            lemma_nearest_line_is_nearest(x - self.padding, self.cell_size as int);
            lemma_nearest_line_is_nearest(y - self.padding, self.cell_size as int);
            if x == self.padding {
                lemma_nearest_line_unique(0, self.cell_size as int, 0);
            }
            if y == self.padding {
                lemma_nearest_line_unique(0, self.cell_size as int, 0);
            }
        }
    }

    /// With a tolerance below the whole spacing the hit test is a test of
    /// distance alone: an intersection off the first row and column is hit
    /// exactly if the pointer is within the tolerance of it.
    pub proof fn lemma_hit_iff_within_tolerance(
        self,
        n: nat,
        x: int,
        y: int,
        permille: int,
        pos: GridPos,
    )
        requires
            n <= usize::MAX,
            self.cell_size > 0,
            0 <= permille < 1000,
        ensures
            self.hit(n, x, y, permille) == Some(pos) <==> {
                &&& 0 < pos.col < n
                &&& 0 < pos.row < n
                &&& within_tolerance(
                    x - self.padding - pos.col * self.cell_size,
                    y - self.padding - pos.row * self.cell_size,
                    self.cell_size as int,
                    permille,
                )
            },
    {
        let s = self.cell_size as int;
        let ox = x - self.padding;
        let oy = y - self.padding;
        let dx = ox - pos.col * s;
        let dy = oy - pos.row * s;
        self.lemma_hit_is_inner_intersection(n, x, y, permille);
        if 0 < pos.col < n && 0 < pos.row < n && within_tolerance(dx, dy, s, permille) {
            lemma_tolerance_bounds_axis(dx, dy, s, permille);
            assert(dy * dy + dx * dx == dx * dx + dy * dy);
            lemma_tolerance_bounds_axis(dy, dx, s, permille);
            lemma_nearest_line_unique(ox, s, pos.col as int);
            lemma_nearest_line_unique(oy, s, pos.row as int);
        }
    }
}

} // verus!
