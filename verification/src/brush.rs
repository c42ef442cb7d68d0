//! The circular brush: painting a disc of one material onto the grid.

use crate::grid::{lemma_at_row_col, lemma_row_col, Grid};
use crate::material::Cell;
use crate::universe::Universe;
use vstd::prelude::*;

verus! {

/// Whether the cell (`r`, `c`) lies under a brush of the given radius centred
/// at (`row`, `col`). The rim belongs to the disc; a negative radius covers
/// nothing.
pub open spec fn in_brush(row: int, col: int, radius: int, r: int, c: int) -> bool {
    radius >= 0 && (r - row) * (r - row) + (c - col) * (c - col) <= radius * radius
}

/// A cell under the brush is at most `radius` rows and `radius` columns away
/// from the centre.
pub proof fn lemma_brush_reach(row: int, col: int, radius: int, r: int, c: int)
    requires
        in_brush(row, col, radius, r, c),
    ensures
        row - radius <= r <= row + radius,
        col - radius <= c <= col + radius,
{
    let dr = r - row;
    let dc = c - col;
    assert(-radius <= dr <= radius && -radius <= dc <= radius) by (nonlinear_arith)
        requires
            radius >= 0,
            dr * dr + dc * dc <= radius * radius,
    ;
}

impl Grid {
    /// Whether the cell at position `i` lies under the brush.
    pub open spec fn covered(self, row: int, col: int, radius: int, i: int) -> bool {
        in_brush(row, col, radius, self.row_of(i), self.col_of(i))
    }

    /// The grid after a stroke of the brush: every cell under the disc is of
    /// material `m`, at the base temperature of `m` unless `m` is `Empty`;
    /// every other cell, and every other part of the state, is as before.
    pub open spec fn painted(self, row: int, col: int, m: Cell, radius: int) -> Grid {
        Grid {
            cells: Seq::new(
                self.cells.len(),
                |i: int|
                    if self.covered(row, col, radius, i) {
                        m.tag()
                    } else {
                        self.cells[i]
                    },
            ),
            temps: Seq::new(
                self.temps.len(),
                |i: int|
                    if self.covered(row, col, radius, i) && m != Cell::Empty {
                        m.base_temp_of()
                    } else {
                        self.temps[i]
                    },
            ),
            ..self
        }
    }

    /// Whether `g` is this grid with the stroke carried out on the cells
    /// before (`r`, `c`) and on no others.
    spec fn painted_before(
        self,
        g: Grid,
        row: int,
        col: int,
        m: Cell,
        radius: int,
        r: int,
        c: int,
    ) -> bool {
        &&& g.width == self.width
        &&& g.height == self.height
        &&& g.moved == self.moved
        &&& g.rng == self.rng
        &&& g.generation == self.generation
        &&& g.cells.len() == self.cells.len()
        &&& g.temps.len() == self.temps.len()
        &&& forall|i: int|
            0 <= i < self.cells.len() ==> #[trigger] g.cells[i] == (if self.covered(
                row,
                col,
                radius,
                i,
            ) && self.before(i, r, c) {
                m.tag()
            } else {
                self.cells[i]
            })
        &&& forall|i: int|
            0 <= i < self.temps.len() ==> #[trigger] g.temps[i] == (if self.covered(
                row,
                col,
                radius,
                i,
            ) && self.before(i, r, c) && m != Cell::Empty {
                m.base_temp_of()
            } else {
                self.temps[i]
            })
    }

    /// Painting the cell (`r`, `c`) if it is under the brush carries the
    /// stroke one cell further.
    proof fn lemma_paint_step(
        self,
        g: Grid,
        row: int,
        col: int,
        m: Cell,
        radius: int,
        r: int,
        c: int,
    )
        requires
            self.wf(),
            self.in_bounds(r, c),
            self.painted_before(g, row, col, m, radius, r, c),
        ensures
            in_brush(row, col, radius, r, c) ==> self.painted_before(
                g.put(self.at(r, c), m),
                row,
                col,
                m,
                radius,
                r,
                c + 1,
            ),
            !in_brush(row, col, radius, r, c) ==> self.painted_before(
                g,
                row,
                col,
                m,
                radius,
                r,
                c + 1,
            ),
    {
        let idx = self.at(r, c);
        lemma_at_row_col(self.width, r, c);
        crate::grid::lemma_at_in_range(self.width, self.height, r, c);
        assert forall|i: int| 0 <= i < self.cells.len() implies (self.before(i, r, c + 1) == (
        self.before(i, r, c) || i == idx)) by {
            lemma_row_col(self.width, self.height, i);
        }
    }

    /// Moving from the end of one row to the start of the next, or over
    /// columns the brush cannot reach, leaves the stroke where it is.
    proof fn lemma_paint_skip(
        self,
        g: Grid,
        row: int,
        col: int,
        m: Cell,
        radius: int,
        r: int,
        c: int,
        r2: int,
        c2: int,
    )
        requires
            self.wf(),
            self.painted_before(g, row, col, m, radius, r, c),
            forall|i: int|
                0 <= i < self.cells.len() && self.covered(row, col, radius, i) ==> (self.before(
                    i,
                    r,
                    c,
                ) == self.before(i, r2, c2)),
        ensures
            self.painted_before(g, row, col, m, radius, r2, c2),
    {
    }
}

impl Universe {
    /// Paints a disc of material `m` and the given radius, centred at
    /// (`row`, `col`). Cells of the disc outside the grid are passed over.
    pub(crate) fn paint_with(&mut self, row: u32, col: u32, m: Cell, radius: i32)
        requires
            old(self).wf(),
        ensures
            final(self).wf(),
            final(self)@ == old(self)@.painted(row as int, col as int, m, radius as int),
            final(self).staged() == old(self).staged(),
    {
        let ghost g0 = self@;
        let ghost (row0, col0, rad0) = (row as int, col as int, radius as int);
        proof {
            self.lemma_wf();
        }
        let rad: i64 = radius as i64;
        let height: i64 = self.height() as i64;
        let width: i64 = self.width() as i64;
        let r_lo: i64 = if row as i64 - rad < 0 {
            0
        } else {
            row as i64 - rad
        };
        let r_hi: i64 = if row as i64 + rad >= height {
            height - 1
        } else {
            row as i64 + rad
        };
        let c_lo: i64 = if col as i64 - rad < 0 {
            0
        } else {
            col as i64 - rad
        };
        let c_hi: i64 = if col as i64 + rad >= width {
            width - 1
        } else {
            col as i64 + rad
        };
        if radius >= 0 && width > 0 {
            assert(rad * rad <= 0x3FFF_FFFF_0000_0001) by (nonlinear_arith)
                requires
                    0 <= rad <= 0x7FFF_FFFF,
            ;
            let limit: i64 = rad * rad;
            let mut r: i64 = r_lo;
            proof {
                assert forall|i: int|
                    0 <= i < g0.cells.len() && g0.covered(row0, col0, rad0, i) implies !g0.before(
                    i,
                    r_lo as int,
                    c_lo as int,
                ) by {
                    lemma_row_col(g0.width, g0.height, i);
                    lemma_brush_reach(row0, col0, rad0, g0.row_of(i), g0.col_of(i));
                }
            }
            while r <= r_hi
                invariant
                    self.wf(),
                    self.staged() == old(self).staged(),
                    g0 == old(self)@,
                    g0.wf(),
                    row0 == row,
                    col0 == col,
                    rad0 == radius,
                    rad == radius,
                    rad >= 0,
                    limit == rad * rad,
                    limit <= 0x3FFF_FFFF_0000_0001,
                    width == g0.width,
                    height == g0.height,
                    width <= u32::MAX,
                    height <= u32::MAX,
                    width > 0,
                    r_lo <= r,
                    0 <= r_lo,
                    r_hi < height,
                    row - rad <= r_lo,
                    r_hi <= row + rad,
                    0 <= c_lo,
                    c_hi < width,
                    c_lo == (if col - rad < 0 {
                        0
                    } else {
                        col - rad
                    }),
                    c_hi == (if col + rad >= width {
                        width - 1
                    } else {
                        col + rad
                    }),
                    g0.painted_before(self@, row0, col0, m, rad0, r as int, c_lo as int),
                decreases r_hi + 1 - r,
            {
                let dr: i64 = r - row as i64;
                assert(0 <= dr * dr <= 0x3FFF_FFFF_0000_0001) by (nonlinear_arith)
                    requires
                        -0x7FFF_FFFF <= dr <= 0x7FFF_FFFF,
                ;
                let dr2: i64 = dr * dr;
                let mut c: i64 = c_lo;
                while c <= c_hi
                    invariant
                        self.wf(),
                        self.staged() == old(self).staged(),
                        g0 == old(self)@,
                        g0.wf(),
                        row0 == row,
                        col0 == col,
                        rad0 == radius,
                        rad == radius,
                        rad >= 0,
                        limit == rad * rad,
                        limit <= 0x3FFF_FFFF_0000_0001,
                        width == g0.width,
                        height == g0.height,
                        width <= u32::MAX,
                        height <= u32::MAX,
                        0 <= r < height,
                        dr == r - row,
                        dr2 == dr * dr,
                        0 <= dr2 <= 0x3FFF_FFFF_0000_0001,
                        0 <= c_lo <= c,
                        c_hi < width,
                        col - rad <= c_lo,
                        c_hi <= col + rad,
                        g0.painted_before(self@, row0, col0, m, rad0, r as int, c as int),
                    decreases c_hi + 1 - c,
                {
                    let dc: i64 = c - col as i64;
                    assert(0 <= dc * dc <= 0x3FFF_FFFF_0000_0001) by (nonlinear_arith)
                        requires
                            -0x7FFF_FFFF <= dc <= 0x7FFF_FFFF,
                    ;
                    proof {
                        g0.lemma_paint_step(self@, row0, col0, m, rad0, r as int, c as int);
                    }
                    if dr2 + dc * dc <= limit {
                        let idx = self.get_index(r as u32, c as u32);
                        self.set_cell(idx, m);
                    }
                    c += 1;
                }
                proof {
                    assert forall|i: int|
                        0 <= i < g0.cells.len() && g0.covered(
                            row0,
                            col0,
                            rad0,
                            i,
                        ) implies g0.before(i, r as int, c as int) == g0.before(
                        i,
                        r + 1,
                        c_lo as int,
                    ) by {
                        lemma_row_col(g0.width, g0.height, i);
                        lemma_brush_reach(row0, col0, rad0, g0.row_of(i), g0.col_of(i));
                    }
                    g0.lemma_paint_skip(
                        self@,
                        row0,
                        col0,
                        m,
                        rad0,
                        r as int,
                        c as int,
                        r + 1,
                        c_lo as int,
                    );
                }
                r += 1;
            }
            proof {
                assert forall|i: int|
                    0 <= i < g0.cells.len() && g0.covered(row0, col0, rad0, i) implies g0.before(
                    i,
                    r as int,
                    c_lo as int,
                ) by {
                    lemma_row_col(g0.width, g0.height, i);
                    lemma_brush_reach(row0, col0, rad0, g0.row_of(i), g0.col_of(i));
                }
            }
        }
        proof {
            let want = g0.painted(row0, col0, m, rad0);
            assert(self@.cells =~= want.cells);
            assert(self@.temps =~= want.temps);
        }
    }

    /// Overwrites every cell within `radius` of (`row`, `col`) with the
    /// material that `color_val` names. Cells of the disc outside the grid are
    /// passed over.
    pub fn paint(&mut self, row: u32, col: u32, color_val: u8, radius: i32)
        requires
            old(self).wf(),
        ensures
            final(self).wf(),
            final(self)@.wf(),
            final(self)@ == old(self)@.painted(
                row as int,
                col as int,
                Cell::decode(color_val),
                radius as int,
            ),
    {
        self.paint_with(row, col, Cell::from_code(color_val), radius);
        proof {
            self.lemma_wf();
        }
    }
}

} // verus!
