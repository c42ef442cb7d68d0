//! The mathematical state of a simulation: what every contract of the
//! universe speaks about.

use crate::material::{Cell, AMBIENT, KINDS};
use crate::random::xorshift;
use vstd::prelude::*;

verus! {

/// A sequence with the entries at `i` and `j` exchanged.
pub open spec fn exchange<A>(s: Seq<A>, i: int, j: int) -> Seq<A> {
    s.update(i, s[j]).update(j, s[i])
}

/// The abstract state of a universe: its dimensions, one material byte, one
/// temperature and one moved flag per cell in row-major order, the state of
/// the random stream and the generation counter.
pub struct Grid {
    pub width: nat,
    pub height: nat,
    pub cells: Seq<u8>,
    pub temps: Seq<i16>,
    pub moved: Seq<bool>,
    pub rng: u32,
    pub generation: u8,
}

impl Grid {
    /// The state of a fresh universe: every cell empty, at ambient temperature
    /// and unmoved, generation zero.
    pub open spec fn blank(width: nat, height: nat, seed: u32) -> Grid {
        Grid {
            width,
            height,
            cells: Seq::new(width * height, |i: int| 0u8),
            temps: Seq::new(width * height, |i: int| AMBIENT),
            moved: Seq::new(width * height, |i: int| false),
            rng: seed,
            generation: 0,
        }
    }

    /// Number of cells.
    pub open spec fn area(self) -> nat {
        self.width * self.height
    }

    /// The three buffers cover the grid exactly, the cell count fits 32 bits,
    /// and every cell byte names a material.
    pub open spec fn wf(self) -> bool {
        &&& self.area() <= u32::MAX
        &&& self.cells.len() == self.area()
        &&& self.temps.len() == self.area()
        &&& self.moved.len() == self.area()
        &&& forall|i: int| 0 <= i < self.cells.len() ==> #[trigger] self.cells[i] < KINDS
    }

    /// Whether (`row`, `col`) is a cell of the grid.
    pub open spec fn in_bounds(self, row: int, col: int) -> bool {
        0 <= row < self.height && 0 <= col < self.width
    }

    /// Row-major position of a cell.
    pub open spec fn at(self, row: int, col: int) -> int {
        row * self.width + col
    }

    /// Row of the cell at position `i`.
    pub open spec fn row_of(self, i: int) -> int {
        i / (self.width as int)
    }

    /// Column of the cell at position `i`.
    pub open spec fn col_of(self, i: int) -> int {
        i % (self.width as int)
    }

    /// Whether the cell at position `i` comes before (`r`, `c`) when the grid
    /// is walked row by row from the top, each row from the left.
    pub open spec fn before(self, i: int, r: int, c: int) -> bool {
        self.row_of(i) < r || (self.row_of(i) == r && self.col_of(i) < c)
    }

    /// Whether two states have the same dimensions and generation.
    pub open spec fn same_frame(self, other: Grid) -> bool {
        &&& self.width == other.width
        &&& self.height == other.height
        &&& self.generation == other.generation
    }

    /// The material at a position.
    pub open spec fn cell(self, i: int) -> Cell {
        Cell::decode(self.cells[i])
    }

    /// The grid with the cell at `i` made `m`. Any material but `Empty` brings
    /// its base temperature; `Empty` leaves the temperature as it was.
    pub open spec fn put(self, i: int, m: Cell) -> Grid {
        Grid {
            cells: self.cells.update(i, m.tag()),
            temps: if m == Cell::Empty {
                self.temps
            } else {
                self.temps.update(i, m.base_temp_of())
            },
            ..self
        }
    }

    /// The grid with the cell at `i` made `m` at its present temperature.
    pub open spec fn put_keeping_heat(self, i: int, m: Cell) -> Grid {
        Grid { cells: self.cells.update(i, m.tag()), ..self }
    }

    /// The grid with the contents of `i` and `j` exchanged, material and
    /// temperature together, and both marked as moved.
    pub open spec fn swapped(self, i: int, j: int) -> Grid {
        Grid {
            cells: exchange(self.cells, i, j),
            temps: exchange(self.temps, i, j),
            moved: self.moved.update(i, true).update(j, true),
            ..self
        }
    }

    /// The state with every cell empty, at ambient temperature and unmoved.
    /// The random stream and the generation are as they were.
    pub open spec fn cleared(self) -> Grid {
        Grid {
            cells: Seq::new(self.cells.len(), |i: int| 0u8),
            temps: Seq::new(self.temps.len(), |i: int| AMBIENT),
            moved: Seq::new(self.moved.len(), |i: int| false),
            ..self
        }
    }

    /// The state at the start of a tick: the generation advanced by one,
    /// wrapping at 256, and no cell marked as moved.
    pub open spec fn begun(self) -> Grid {
        Grid {
            generation: if self.generation == u8::MAX {
                0u8
            } else {
                (self.generation + 1) as u8
            },
            moved: Seq::new(self.moved.len(), |i: int| false),
            ..self
        }
    }

    /// The value the next draw from the random stream gives.
    pub open spec fn roll(self) -> u32 {
        xorshift(self.rng)
    }

    /// The grid after one draw from the random stream.
    pub open spec fn drawn(self) -> Grid {
        Grid { rng: xorshift(self.rng), ..self }
    }

    /// Whether the next draw is a hit at odds of one in `n`.
    pub open spec fn hit(self, n: u32) -> bool {
        self.roll() % n == 0
    }

    /// Whether the next draw, as a coin, shows heads.
    pub open spec fn heads(self) -> bool {
        self.roll() & 1 == 0
    }
}

/// A cell inside the grid has a position inside the buffers.
pub proof fn lemma_at_in_range(width: nat, height: nat, row: int, col: int)
    requires
        0 <= row < height,
        0 <= col < width,
    ensures
        0 <= row * width + col < width * height,
{
    assert(row * width + col < width * height) by (nonlinear_arith)
        requires
            0 <= row,
            row + 1 <= height,
            0 <= col < width,
    ;
    assert(0 <= row * width) by (nonlinear_arith)
        requires
            0 <= row,
            0 <= width,
    ;
}

/// Every position inside the buffers is that of exactly one cell of the
/// grid: the one in row `i / width` and column `i % width`.
pub proof fn lemma_row_col(width: nat, height: nat, i: int)
    requires
        0 <= i < width * height,
    ensures
        0 <= i / (width as int) < height,
        0 <= i % (width as int) < width,
        i == (i / (width as int)) * width + i % (width as int),
{
    let w = width as int;
    assert(w > 0) by (nonlinear_arith)
        requires
            0 <= i < w * height,
            w >= 0,
    ;
    vstd::arithmetic::div_mod::lemma_fundamental_div_mod(i, w);
    vstd::arithmetic::div_mod::lemma_mod_pos_bound(i, w);
    vstd::arithmetic::div_mod::lemma_div_pos_is_pos(i, w);
    vstd::arithmetic::div_mod::lemma_multiply_divide_lt(i, w, height as int);
    assert(w * (i / w) == (i / w) * w) by (nonlinear_arith);
}

/// The position of a cell gives back its row and its column.
pub proof fn lemma_at_row_col(width: nat, row: int, col: int)
    requires
        0 <= row,
        0 <= col < width,
    ensures
        (row * width + col) / (width as int) == row,
        (row * width + col) % (width as int) == col,
{
    vstd::arithmetic::div_mod::lemma_fundamental_div_mod_converse(
        row * width + col,
        width as int,
        row,
        col,
    );
}

/// Distinct cells have distinct positions.
pub proof fn lemma_at_injective(width: nat, r1: int, c1: int, r2: int, c2: int)
    requires
        0 <= c1 < width,
        0 <= c2 < width,
        r1 * width + c1 == r2 * width + c2,
    ensures
        r1 == r2,
        c1 == c2,
{
    assert(r1 == r2) by (nonlinear_arith)
        requires
            0 <= c1 < width,
            0 <= c2 < width,
            r1 * width + c1 == r2 * width + c2,
    ;
    assert(r1 * width == r2 * width);
}

} // verus!
