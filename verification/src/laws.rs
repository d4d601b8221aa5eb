//! Grid-level laws: proved statements about the index mapping, the toroidal
//! wrap, the stability of a block, and the determinism of advancement.

use vstd::prelude::*;

use crate::universe::alive_at;
use crate::universe::cell_index;
use crate::universe::lemma_cell_index_range;
use crate::universe::lemma_index_roundtrip;
use crate::universe::live_neighbors;
use crate::universe::next_grid;
use crate::universe::next_state;
use crate::universe::wrap_dec;
use crate::universe::wrap_inc;

verus! {

/// The linear index mapping is a bijection between in-range (row, column)
/// pairs and positions of the bit buffer: every in-range cell lands inside
/// the buffer, and no two cells share an index.
pub proof fn lemma_cell_index_bijective(
    width: int,
    height: int,
    r1: int,
    c1: int,
    r2: int,
    c2: int,
)
    requires
        0 <= r1 < height,
        0 <= c1 < width,
        0 <= r2 < height,
        0 <= c2 < width,
    ensures
        0 <= cell_index(r1, c1, width) < width * height,
        cell_index(r1, c1, width) == cell_index(r2, c2, width) ==> r1 == r2 && c1 == c2,
{
    lemma_cell_index_range(r1, c1, width, height);
    if cell_index(r1, c1, width) == cell_index(r2, c2, width) {
        let i = cell_index(r1, c1, width);
        vstd::arithmetic::div_mod::lemma_fundamental_div_mod_converse(i, width, r1, c1);
        vstd::arithmetic::div_mod::lemma_fundamental_div_mod_converse(i, width, r2, c2);
    }
}

/// The grid wraps toroidally: the row before row 0 is the last row, the row
/// after the last row is row 0, and the same holds for columns.
pub proof fn lemma_toroidal_wrap(width: int, height: int)
    requires
        width >= 1,
        height >= 1,
    ensures
        wrap_dec(0, height) == height - 1,
        wrap_inc(height - 1, height) == 0,
        wrap_dec(0, width) == width - 1,
        wrap_inc(width - 1, width) == 0,
{
}

/// A live cell in the last row is counted among the neighbours of the cell
/// directly below it across the edge, in row 0: neighbour lookups wrap.
pub proof fn lemma_row_wrap_neighbor_counted(s: Seq<bool>, width: int, height: int, col: int)
    requires
        width >= 1,
        height >= 2,
        0 <= col < width,
        s[cell_index(height - 1, col, width)],
    ensures
        live_neighbors(s, width, height, 0, col) >= 1,
{
    assert(alive_at(s, width, height - 1, col) == 1);
}

/// A live cell in the last column is counted among the neighbours of the
/// cell directly right of it across the edge, in column 0.
pub proof fn lemma_col_wrap_neighbor_counted(s: Seq<bool>, width: int, height: int, row: int)
    requires
        width >= 2,
        height >= 1,
        0 <= row < height,
        s[cell_index(row, width - 1, width)],
    ensures
        live_neighbors(s, width, height, row, 0) >= 1,
{
    assert(alive_at(s, width, row, width - 1) == 1);
}

/// A 2 x 2 block of live cells at rows 1..=2, columns 1..=2, on a grid of at
/// least 4 x 4 cells with every other cell dead, is a still life: each block
/// cell has exactly three live neighbours and every dead cell at most two,
/// so the next generation is the same grid.
pub proof fn lemma_block_still_life(s: Seq<bool>, width: int, height: int)
    requires
        width >= 4,
        height >= 4,
        s.len() == width * height,
        forall|r: int, c: int|
            0 <= r < height && 0 <= c < width ==> #[trigger] s[cell_index(r, c, width)] == (1 <= r
                <= 2 && 1 <= c <= 2),
    ensures
        next_grid(s, width, height) == s,
{
    assert forall|r: int, c: int| 0 <= r < height && 0 <= c < width implies next_state(
        s,
        width,
        height,
        r,
        c,
    ) == s[cell_index(r, c, width)] by {
        let rm = wrap_dec(r, height);
        let rp = wrap_inc(r, height);
        let cm = wrap_dec(c, width);
        let cp = wrap_inc(c, width);
        assert(s[cell_index(r, c, width)] == (1 <= r <= 2 && 1 <= c <= 2));
        assert(s[cell_index(rm, cm, width)] == (1 <= rm <= 2 && 1 <= cm <= 2));
        assert(s[cell_index(rm, c, width)] == (1 <= rm <= 2 && 1 <= c <= 2));
        assert(s[cell_index(rm, cp, width)] == (1 <= rm <= 2 && 1 <= cp <= 2));
        assert(s[cell_index(r, cm, width)] == (1 <= r <= 2 && 1 <= cm <= 2));
        assert(s[cell_index(r, cp, width)] == (1 <= r <= 2 && 1 <= cp <= 2));
        assert(s[cell_index(rp, cm, width)] == (1 <= rp <= 2 && 1 <= cm <= 2));
        assert(s[cell_index(rp, c, width)] == (1 <= rp <= 2 && 1 <= c <= 2));
        assert(s[cell_index(rp, cp, width)] == (1 <= rp <= 2 && 1 <= cp <= 2));
    }
    assert forall|i: int| 0 <= i < s.len() implies next_grid(s, width, height)[i] == s[i] by {
        lemma_index_roundtrip(i, width, height);
    }
    assert(next_grid(s, width, height) =~= s);
}

/// Advancing a generation is a pure function of the cell buffer and the
/// dimensions: identical grids advance to identical grids, so repeated
/// advancement is reproducible.
pub proof fn lemma_next_generation_deterministic(
    s1: Seq<bool>,
    s2: Seq<bool>,
    width: int,
    height: int,
)
    requires
        s1 == s2,
    ensures
        next_grid(s1, width, height) == next_grid(s2, width, height),
{
}

} // verus!
