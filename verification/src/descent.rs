//! The fall of a lone grain: in a grid that is empty but for one cell of
//! sand, at ambient temperature throughout, the grain drops one row with
//! every tick until it lies in the bottom row.

use crate::grid::{lemma_at_in_range, lemma_at_injective, lemma_row_col, Grid};
use crate::material::{Cell, AMBIENT};
use crate::reaction::{side_col, side_row};
use vstd::prelude::*;

verus! {

impl Grid {
    /// Whether the grid is well formed, holds material `m` at position `i`
    /// and nothing anywhere else, and is at ambient temperature throughout.
    pub open spec fn holds_only(self, i: int, m: Cell) -> bool {
        &&& self.wf()
        &&& 0 <= i < self.area()
        &&& forall|k: int|
            0 <= k < self.area() ==> #[trigger] self.cells[k] == (if k == i {
                m.tag()
            } else {
                0u8
            })
        &&& forall|k: int| 0 <= k < self.area() ==> #[trigger] self.temps[k] == AMBIENT
    }

    /// Whether every cell of `row` is empty.
    pub open spec fn row_is_empty(self, row: int) -> bool {
        forall|c: int| 0 <= c < self.width ==> #[trigger] self.cell(self.at(row, c)) == Cell::Empty
    }

    /// The row a falling grain in `row` is in after one tick: the next one
    /// down, or the same in the bottom row.
    pub open spec fn row_below(self, row: int) -> int {
        if row + 1 < self.height {
            row + 1
        } else {
            row
        }
    }

    /// In a grid that holds only a grain at (`row`, `col`), every other row
    /// is empty.
    proof fn lemma_other_rows_empty(self, row: int, col: int, other: int)
        requires
            self.in_bounds(row, col),
            self.holds_only(self.at(row, col), Cell::Sand),
            0 <= other < self.height,
            other != row,
        ensures
            self.row_is_empty(other),
    {
        assert forall|c: int| 0 <= c < self.width implies #[trigger] self.cell(self.at(other, c))
            == Cell::Empty by {
            lemma_at_in_range(self.width, self.height, other, c);
            if self.at(other, c) == self.at(row, col) {
                lemma_at_injective(self.width, other, c, row, col);
            }
        }
    }

    /// Visiting cells of an empty row changes nothing.
    proof fn lemma_sweep_idle(self, row: int, col: int, dir: int, todo: nat)
        requires
            self.row_is_empty(row),
            self.run_fits(col, dir, todo),
        ensures
            self.sweep(row, col, dir, todo) == self,
        decreases todo,
    {
        if todo > 0 {
            assert(self.cell(self.at(row, col)) == Cell::Empty);
            assert(self.step(row, col) == self);
            self.lemma_sweep_idle(row, col + dir, dir, (todo - 1) as nat);
        }
    }

    /// Visiting the lowest rows changes nothing if they are empty.
    proof fn lemma_scanned_idle(self, rows: nat)
        requires
            rows <= self.height,
            forall|r: int| 0 <= r < rows ==> self.row_is_empty(r),
        ensures
            self.scanned(rows) == self,
        decreases rows,
    {
        if rows > 0 {
            self.lemma_sweep_idle(rows - 1, 0, 1, self.width);
            self.lemma_sweep_idle(rows - 1, self.width - 1, -1, self.width);
            self.lemma_scanned_idle((rows - 1) as nat);
        }
    }

    /// The visit to a lone grain that has not moved yet: whatever is drawn,
    /// the grain reacts with nothing and drops into the cell below, or stays
    /// if it lies in the bottom row.
    proof fn lemma_lone_step(self, row: int, col: int)
        requires
            self.in_bounds(row, col),
            self.holds_only(self.at(row, col), Cell::Sand),
            !self.moved[self.at(row, col)],
        ensures
            self.step(row, col).holds_only(self.at(self.row_below(row), col), Cell::Sand),
            self.step(row, col).same_frame(self),
    {
        let i = self.at(row, col);
        lemma_at_in_range(self.width, self.height, row, col);
        assert(self.cell(i) == Cell::Sand);
        assert(self.thermal(i) == (self, false));
        assert(self.adjacent(row, col) == (self, false));
        // The sampled neighbour, if there is one, is empty: nothing happens.
        let g1 = self.drawn();
        let k = (g1.roll() % 4) as int;
        let g2 = g1.drawn();
        let (r, c) = (row + side_row(k), col + side_col(k));
        if g2.in_bounds(r, c) {
            lemma_at_in_range(self.width, self.height, r, c);
            let j = g2.at(r, c);
            if j == i {
                lemma_at_injective(self.width, r, c, row, col);
            }
            assert(g2.cell(j) == Cell::Empty);
            assert(g2.cell(i) == Cell::Sand);
            assert(g2.meet(i, j) == (g2, false));
        }
        let reacted = self.react(row, col);
        assert(reacted.0 == g1 || reacted.0 == g2);
        assert(!reacted.1);
        let g = reacted.0;
        assert(self.step(row, col) == g.fall(row, col));
        if row + 1 < self.height {
            lemma_at_in_range(self.width, self.height, row + 1, col);
            let below = self.at(row + 1, col);
            if below == i {
                lemma_at_injective(self.width, row + 1, col, row, col);
            }
            assert(g.cell(below) == Cell::Empty);
            assert(g.falls_into(i, row + 1, col));
            let after = g.swapped(i, below);
            assert(g.fall(row, col) == after);
            assert(after.holds_only(below, Cell::Sand));
        } else {
            assert(g.fall(row, col) == g);
            assert(g.holds_only(i, Cell::Sand));
        }
    }

    /// Visiting a run of cells of the grain's row: if the run holds the
    /// grain, the outcome is that of the one visit to it; if not, nothing
    /// changes.
    proof fn lemma_sweep_lone(self, row: int, col: int, dir: int, todo: nat, at_col: int)
        requires
            self.in_bounds(row, at_col),
            self.holds_only(self.at(row, at_col), Cell::Sand),
            !self.moved[self.at(row, at_col)],
            self.run_fits(col, dir, todo),
        ensures
            self.sweep(row, col, dir, todo) == if todo > 0 && (if dir == 1 {
                col <= at_col <= col + (todo - 1)
            } else {
                col - (todo - 1) <= at_col <= col
            }) {
                self.step(row, at_col)
            } else {
                self
            },
        decreases todo,
    {
        if todo > 0 {
            if col == at_col {
                let next = self.step(row, at_col);
                self.lemma_lone_step(row, at_col);
                if self.row_below(row) != row {
                    next.lemma_other_rows_empty(self.row_below(row), at_col, row);
                    next.lemma_sweep_idle(row, col + dir, dir, (todo - 1) as nat);
                } else {
                    next.lemma_sweep_past_mover(row, col + dir, dir, (todo - 1) as nat, at_col);
                }
            } else {
                lemma_at_in_range(self.width, self.height, row, col);
                if self.at(row, col) == self.at(row, at_col) {
                    lemma_at_injective(self.width, row, col, row, at_col);
                }
                assert(self.cell(self.at(row, col)) == Cell::Empty);
                assert(self.step(row, col) == self);
                self.lemma_sweep_lone(row, col + dir, dir, (todo - 1) as nat, at_col);
            }
        }
    }

    /// Visiting a run of cells that does not hold the grain changes nothing.
    proof fn lemma_sweep_past_mover(self, row: int, col: int, dir: int, todo: nat, at_col: int)
        requires
            self.in_bounds(row, at_col),
            self.holds_only(self.at(row, at_col), Cell::Sand),
            self.run_fits(col, dir, todo),
            if dir == 1 {
                at_col < col
            } else {
                at_col > col
            },
        ensures
            self.sweep(row, col, dir, todo) == self,
        decreases todo,
    {
        if todo > 0 {
            lemma_at_in_range(self.width, self.height, row, col);
            if self.at(row, col) == self.at(row, at_col) {
                lemma_at_injective(self.width, row, col, row, at_col);
            }
            assert(self.cell(self.at(row, col)) == Cell::Empty);
            assert(self.step(row, col) == self);
            self.lemma_sweep_past_mover(row, col + dir, dir, (todo - 1) as nat, at_col);
        }
    }

    /// Visiting the lowest rows of a grid that holds only a grain in one of
    /// them comes to the one visit to the grain.
    proof fn lemma_scanned_lone(self, rows: nat, row: int, col: int)
        requires
            self.in_bounds(row, col),
            self.holds_only(self.at(row, col), Cell::Sand),
            !self.moved[self.at(row, col)],
            row < rows <= self.height,
        ensures
            self.scanned(rows) == self.step(row, col),
        decreases rows,
    {
        let r = rows - 1;
        if r > row {
            self.lemma_other_rows_empty(row, col, r);
            self.lemma_sweep_idle(r, 0, 1, self.width);
            self.lemma_sweep_idle(r, self.width - 1, -1, self.width);
            assert(self.row_scanned(r) == self);
            self.lemma_scanned_lone(r as nat, row, col);
        } else {
            self.lemma_sweep_lone(row, 0, 1, self.width, col);
            self.lemma_sweep_lone(row, self.width - 1, -1, self.width, col);
            let next = self.step(row, col);
            assert(self.row_scanned(row) == next);
            self.lemma_lone_step(row, col);
            assert forall|above: int| 0 <= above < row implies next.row_is_empty(above) by {
                next.lemma_other_rows_empty(self.row_below(row), col, above);
            }
            next.lemma_scanned_idle(row as nat);
        }
    }

    /// Heat does not stir in a grid at ambient temperature that holds only a
    /// grain of sand.
    proof fn lemma_ambient_stays(self, i: int)
        requires
            self.holds_only(i, Cell::Sand),
        ensures
            self.diffused() == self,
    {
        assert forall|k: int| 0 <= k < self.area() implies self.diffused_temp(
            self.row_of(k),
            self.col_of(k),
        ) == AMBIENT by {
            lemma_row_col(self.width, self.height, k);
            let (r, c) = (self.row_of(k), self.col_of(k));
            assert(self.at(r, c) == k);
            assert(self.cell(k) == Cell::Sand || self.cell(k) == Cell::Empty);
            assert forall|s: int| 0 <= s < 4 implies self.side_heat(r, c, s) == AMBIENT
                * self.side_weight(r, c, s) by {
                if self.in_bounds(r + side_row(s), c + side_col(s)) {
                    lemma_at_in_range(self.width, self.height, r + side_row(s), c + side_col(s));
                }
            }
            let w = self.heat_weight(r, c);
            assert(self.heat_sum(r, c) == AMBIENT * w);
            assert((AMBIENT * w) / w == AMBIENT) by (nonlinear_arith)
                requires
                    w > 0,
            ;
        }
        assert(self.diffused().temps =~= self.temps);
    }

    /// A lone grain of sand falls one row a tick: if the grid holds only a
    /// grain at (`row`, `col`), then after a tick it holds only a grain one
    /// row further down in the same column, or in the same place if that was
    /// the bottom row.
    pub proof fn lemma_lone_sand_falls(self, row: int, col: int)
        requires
            self.in_bounds(row, col),
            self.holds_only(self.at(row, col), Cell::Sand),
        ensures
            self.ticked().holds_only(self.at(self.row_below(row), col), Cell::Sand),
            self.ticked().width == self.width,
            self.ticked().height == self.height,
    {
        let i = self.at(row, col);
        let b = self.begun();
        assert(b.holds_only(i, Cell::Sand));
        b.lemma_ambient_stays(i);
        assert(b.diffused() == b);
        b.lemma_scanned_lone(b.height, row, col);
        b.lemma_lone_step(row, col);
    }

    /// A lone grain of sand lands: after `n` ticks it lies `n` rows further
    /// down, or in the bottom row if that is nearer. Dropped in the top row
    /// of a grid of height H, it is in the bottom row after H - 1 ticks.
    pub proof fn lemma_lone_sand_lands(self, row: int, col: int, n: nat)
        requires
            self.in_bounds(row, col),
            self.holds_only(self.at(row, col), Cell::Sand),
        ensures
            self.ticks(n).holds_only(
                self.at(
                    if row + n < self.height {
                        row + n
                    } else {
                        self.height - 1
                    },
                    col,
                ),
                Cell::Sand,
            ),
        decreases n,
    {
        if n > 0 {
            self.lemma_lone_sand_falls(row, col);
            self.ticked().lemma_lone_sand_lands(self.row_below(row), col, (n - 1) as nat);
        }
    }
}

} // verus!
