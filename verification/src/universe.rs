//! The verified core: a toroidal grid of cells and the synchronous
//! generational update rule.

use vstd::prelude::*;

use crate::bits::bits_of;
use crate::bits::bitset_clone;
use crate::bits::bitset_contains;
use crate::bits::bitset_set;
use crate::bits::bitset_with_capacity;

verus! {

/// The two states a cell can take. The grid stores one bit per cell: set for
/// `Alive`, clear for `Dead`.
#[derive(Copy, Clone, Debug, PartialEq, Eq)]
pub enum Cell {
    Dead,
    Alive,
}

impl Cell {
    pub open spec fn is_alive(self) -> bool {
        self is Alive
    }
}

/// Linear index of the cell at `row`, `col` in a row-major grid `width`
/// columns wide.
pub open spec fn cell_index(row: int, col: int, width: int) -> int {
    row * width + col
}

/// The coordinate one step before `i` on a ring of `n` positions: wraps from
/// `0` to `n - 1`.
pub open spec fn wrap_dec(i: int, n: int) -> int {
    if i == 0 {
        n - 1
    } else {
        i - 1
    }
}

/// The coordinate one step after `i` on a ring of `n` positions: wraps from
/// `n - 1` to `0`.
pub open spec fn wrap_inc(i: int, n: int) -> int {
    if i + 1 == n {
        0
    } else {
        i + 1
    }
}

/// One if the cell at (`row`, `col`) of grid `s` is alive, zero otherwise.
pub open spec fn alive_at(s: Seq<bool>, width: int, row: int, col: int) -> nat {
    if s[cell_index(row, col, width)] {
        1nat
    } else {
        0nat
    }
}

/// The number of live cells among the eight toroidal neighbours of
/// (`row`, `col`): the offsets {-1,0,+1} x {-1,0,+1} without (0,0), rows
/// wrapping modulo `height` and columns modulo `width`. On a ring of one or
/// two positions several offsets can land on the same cell; each offset
/// counts separately, as the wrapped lookup does.
pub open spec fn live_neighbors(s: Seq<bool>, width: int, height: int, row: int, col: int) -> nat {
    let rm = wrap_dec(row, height);
    let rp = wrap_inc(row, height);
    let cm = wrap_dec(col, width);
    let cp = wrap_inc(col, width);
    alive_at(s, width, rm, cm) + alive_at(s, width, rm, col) + alive_at(s, width, rm, cp)
        + alive_at(s, width, row, cm) + alive_at(s, width, row, cp)
        + alive_at(s, width, rp, cm) + alive_at(s, width, rp, col) + alive_at(s, width, rp, cp)
}

/// Conway's rule for one cell: a live cell survives with two or three live
/// neighbours and otherwise dies; a dead cell comes alive with exactly three
/// live neighbours and otherwise stays dead.
pub open spec fn next_cell(alive: bool, neighbors: nat) -> bool {
    if alive {
        2 <= neighbors <= 3
    } else {
        neighbors == 3
    }
}

/// The state the cell at (`row`, `col`) takes in the next generation of `s`.
pub open spec fn next_state(s: Seq<bool>, width: int, height: int, row: int, col: int) -> bool {
    next_cell(s[cell_index(row, col, width)], live_neighbors(s, width, height, row, col))
}

/// The whole next generation of grid `s`: every cell rewritten from the same
/// snapshot `s`.
pub open spec fn next_grid(s: Seq<bool>, width: int, height: int) -> Seq<bool> {
    Seq::new((width * height) as nat, |i: int| next_state(s, width, height, i / width, i % width))
}

/// A fixed-size toroidal grid holding one generation of cells in a packed
/// bit buffer, row-major: the bit at `row * width + col` is the cell at
/// (`row`, `col`).
pub struct Universe {
    width: u16,
    height: u16,
    cells: fixedbitset::FixedBitSet,
}

impl View for Universe {
    type V = Seq<bool>;

    closed spec fn view(&self) -> Seq<bool> {
        bits_of(self.cells)
    }
}

impl Universe {
    /// The grid's width, as contracts see it.
    pub closed spec fn spec_width(&self) -> u16 {
        self.width
    }

    /// The grid's height, as contracts see it.
    pub closed spec fn spec_height(&self) -> u16 {
        self.height
    }

    /// The grid invariant: positive dimensions, one bit per cell, and a cell
    /// count a linear index can address.
    pub open spec fn well_formed(&self) -> bool {
        &&& self.spec_width() >= 1
        &&& self.spec_height() >= 1
        &&& self.spec_width() * self.spec_height() <= usize::MAX
        &&& self@.len() == self.spec_width() * self.spec_height()
    }

    /// Linear index of (`row`, `col`) in the bit buffer.
    fn get_index(&self, row: u16, col: u16) -> (r: usize)
        requires
            self.well_formed(),
            row < self.spec_height(),
            col < self.spec_width(),
        ensures
            r == cell_index(row as int, col as int, self.spec_width() as int),
            r < self@.len(),
    {
        proof {
            lemma_cell_index_range(row as int, col as int, self.spec_width() as int, self.spec_height() as int);
        }
        (row as usize) * (self.width as usize) + (col as usize)
    }

    /// Whether the cell at (`row`, `col`) of the current generation is alive.
    fn cell_alive(&self, row: u16, col: u16) -> (r: bool)
        requires
            self.well_formed(),
            row < self.spec_height(),
            col < self.spec_width(),
        ensures
            r == self@[cell_index(row as int, col as int, self.spec_width() as int)],
    {
        let idx = self.get_index(row, col);
        bitset_contains(&self.cells, idx)
    }

    /// The number of live cells among the eight toroidal neighbours of
    /// (`row`, `col`) in the current generation.
    fn live_neighbor_count(&self, row: u16, col: u16) -> (r: u8)
        requires
            self.well_formed(),
            row < self.spec_height(),
            col < self.spec_width(),
        ensures
            r == live_neighbors(
                self@,
                self.spec_width() as int,
                self.spec_height() as int,
                row as int,
                col as int,
            ),
    {
        let rm: u16 = if row == 0 { self.height - 1 } else { row - 1 };
        let rp: u16 = if row + 1 == self.height { 0 } else { row + 1 };
        let cm: u16 = if col == 0 { self.width - 1 } else { col - 1 };
        let cp: u16 = if col + 1 == self.width { 0 } else { col + 1 };
        let mut count: u8 = 0;
        if self.cell_alive(rm, cm) { count += 1; }
        if self.cell_alive(rm, col) { count += 1; }
        if self.cell_alive(rm, cp) { count += 1; }
        if self.cell_alive(row, cm) { count += 1; }
        if self.cell_alive(row, cp) { count += 1; }
        if self.cell_alive(rp, cm) { count += 1; }
        if self.cell_alive(rp, col) { count += 1; }
        if self.cell_alive(rp, cp) { count += 1; }
        count
    }

    /// A universe of the given dimensions whose cells are seeded from
    /// `alive`, one boolean per cell in row-major order.
    pub fn from_cells(width: u16, height: u16, alive: Vec<bool>) -> (r: Universe)
        requires
            width >= 1,
            height >= 1,
            alive@.len() == width * height,
        ensures
            r.well_formed(),
            r.spec_width() == width,
            r.spec_height() == height,
            r@ == alive@,
    {
        let size: usize = alive.len();
        let mut cells = bitset_with_capacity(size);
        let mut i: usize = 0;
        while i < size
            invariant
                size == alive@.len(),
                bits_of(cells).len() == size,
                i <= size,
                forall|j: int| 0 <= j < i ==> bits_of(cells)[j] == alive@[j],
            decreases size - i,
        {
            bitset_set(&mut cells, i, alive[i]);
            i = i + 1;
        }
        proof {
            assert(bits_of(cells) =~= alive@);
        }
        Universe { width, height, cells }
    }

    /// A fresh 64 x 64 universe seeded from `alive`, one boolean per cell in
    /// row-major order. The caller supplies the initial generation; the
    /// simulation itself draws on no source of randomness.
    pub fn new(alive: Vec<bool>) -> (r: Universe)
        requires
            alive@.len() == 64 * 64,
        ensures
            r.well_formed(),
            r.spec_width() == 64,
            r.spec_height() == 64,
            r@ == alive@,
    {
        Universe::from_cells(64, 64, alive)
    }

    /// Advance one generation: every cell is rewritten from a single
    /// consistent snapshot of the current generation, so the update is
    /// synchronous. The dimensions never change.
    pub fn tick(&mut self)
        requires
            old(self).well_formed(),
        ensures
            final(self).well_formed(),
            final(self).spec_width() == old(self).spec_width(),
            final(self).spec_height() == old(self).spec_height(),
            final(self)@ == next_grid(
                old(self)@,
                old(self).spec_width() as int,
                old(self).spec_height() as int,
            ),
            forall|r: int, c: int|
                0 <= r < old(self).spec_height() && 0 <= c < old(self).spec_width() ==> #[trigger] final(self)@[cell_index(r, c, old(self).spec_width() as int)]
                    == next_state(
                    old(self)@,
                    old(self).spec_width() as int,
                    old(self).spec_height() as int,
                    r,
                    c,
                ),
    {
        let next = self.compute_next();
        self.cells = next;
        proof {
            let w = self.spec_width() as int;
            let h = self.spec_height() as int;
            assert forall|r: int, c: int| 0 <= r < h && 0 <= c < w implies #[trigger] self@[cell_index(
                r,
                c,
                w,
            )] == next_state(old(self)@, w, h, r, c) by {
                lemma_next_grid_at(old(self)@, w, h, r, c);
            }
        }
    }

    /// The next generation of the current grid, computed into a fresh buffer
    /// while the current one is only read.
    fn compute_next(&self) -> (r: fixedbitset::FixedBitSet)
        requires
            self.well_formed(),
        ensures
            bits_of(r) == next_grid(self@, self.spec_width() as int, self.spec_height() as int),
    {
        let ghost s = self@;
        let ghost w = self.spec_width() as int;
        let ghost h = self.spec_height() as int;
        let mut next = bitset_clone(&self.cells);
        let mut row: u16 = 0;
        while row < self.height
            invariant
                self.well_formed(),
                s == self@,
                w == self.spec_width() as int,
                h == self.spec_height() as int,
                row <= h,
                bits_of(next).len() == s.len(),
                forall|i: int| 0 <= i < row * w ==> bits_of(next)[i] == next_grid(s, w, h)[i],
            decreases h - row,
        {
            let mut col: u16 = 0;
            while col < self.width
                invariant
                    self.well_formed(),
                    s == self@,
                    w == self.spec_width() as int,
                    h == self.spec_height() as int,
                    row < h,
                    col <= w,
                    bits_of(next).len() == s.len(),
                    forall|i: int|
                        0 <= i < row * w + col ==> bits_of(next)[i] == next_grid(s, w, h)[i],
                decreases w - col,
            {
                let idx = self.get_index(row, col);
                let alive = self.cell_alive(row, col);
                let neighbors = self.live_neighbor_count(row, col);
                let state = next_cell_state(alive, neighbors);
                bitset_set(&mut next, idx, state);
                proof {
                    lemma_next_grid_at(s, w, h, row as int, col as int);
                }
                col = col + 1;
            }
            proof {
                assert(row * w + w == (row + 1) * w) by (nonlinear_arith);
            }
            row = row + 1;
        }
        proof {
            assert(s.len() == h * w) by (nonlinear_arith)
                requires
                    s.len() == w * h,
            ;
            assert(bits_of(next) =~= next_grid(s, w, h));
        }
        next
    }

    /// The fixed width, in cells.
    pub fn width(&self) -> (r: u16)
        ensures
            r == self.spec_width(),
    {
        self.width
    }

    /// The fixed height, in cells.
    pub fn height(&self) -> (r: u16)
        ensures
            r == self.spec_height(),
    {
        self.height
    }

    /// Read-only view of the packed bit buffer holding the current
    /// generation; it is invalidated by the next call to [`Universe::tick`].
    pub fn cells(&self) -> (r: &fixedbitset::FixedBitSet)
        ensures
            bits_of(*r) == self@,
    {
        &self.cells
    }

    /// The state of the cell at (`row`, `col`) in the current generation.
    pub fn get_cell(&self, row: u16, col: u16) -> (r: Cell)
        requires
            self.well_formed(),
            row < self.spec_height(),
            col < self.spec_width(),
        ensures
            r.is_alive() == self@[cell_index(row as int, col as int, self.spec_width() as int)],
    {
        if self.cell_alive(row, col) {
            Cell::Alive
        } else {
            Cell::Dead
        }
    }
}

/// One cell's transition: Conway's rule applied to its current state and its
/// live-neighbour count.
pub fn next_cell_state(alive: bool, neighbors: u8) -> (r: bool)
    ensures
        r == next_cell(alive, neighbors as nat),
{
    if alive {
        neighbors == 2 || neighbors == 3
    } else {
        neighbors == 3
    }
}

/// The next generation's bit at a cell's linear index is exactly the rule
/// applied to that cell: the linear index recovers its row and column.
pub proof fn lemma_next_grid_at(s: Seq<bool>, width: int, height: int, row: int, col: int)
    requires
        width >= 1,
        height >= 1,
        0 <= row < height,
        0 <= col < width,
    ensures
        0 <= cell_index(row, col, width) < width * height,
        next_grid(s, width, height)[cell_index(row, col, width)] == next_state(
            s,
            width,
            height,
            row,
            col,
        ),
{
    lemma_cell_index_range(row, col, width, height);
    let i = cell_index(row, col, width);
    vstd::arithmetic::div_mod::lemma_fundamental_div_mod_converse(i, width, row, col);
    assert(i / width == row && i % width == col);
}

/// The linear index of an in-range cell lies within the buffer.
pub(crate) proof fn lemma_cell_index_range(row: int, col: int, width: int, height: int)
    requires
        0 <= row < height,
        0 <= col < width,
    ensures
        0 <= cell_index(row, col, width) < width * height,
{
    assert(0 <= row * width + col < width * height) by (nonlinear_arith)
        requires
            0 <= row < height,
            0 <= col < width,
    ;
}

/// Every linear index in the buffer is the index of exactly the cell at
/// (`i / width`, `i % width`).
pub(crate) proof fn lemma_index_roundtrip(i: int, width: int, height: int)
    requires
        width >= 1,
        height >= 1,
        0 <= i < width * height,
    ensures
        0 <= i / width < height,
        0 <= i % width < width,
        cell_index(i / width, i % width, width) == i,
{
    vstd::arithmetic::div_mod::lemma_fundamental_div_mod(i, width);
    vstd::arithmetic::div_mod::lemma_mod_bound(i, width);
    let q = i / width;
    vstd::arithmetic::mul::lemma_mul_is_commutative(width, q);
    vstd::arithmetic::mul::lemma_mul_is_commutative(width, height);
    if q < 0 {
        vstd::arithmetic::mul::lemma_mul_inequality(q, -1, width);
        assert(false);
    }
    if q >= height {
        vstd::arithmetic::mul::lemma_mul_inequality(height, q, width);
        assert(false);
    }
}

} // verus!
