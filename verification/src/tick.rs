//! The tick: one step of the simulation. The moved flags are cleared, heat
//! diffuses, and every position is visited once, bottom row first, in a
//! column order that alternates with the generation.
//!
//! The moved flag belongs to a position, not to a material. An exchange
//! marks both positions, so a cell carried to a position the scan has yet to
//! reach is passed over there, and a cell pushed back to a position already
//! visited has had its turn or loses it for this tick. The flag guards the
//! visit only: a marked cell can still be displaced by a later mover, and a
//! cell that a reaction has made, which is not marked, is visited in the
//! same tick if the scan has not passed it.

use crate::grid::Grid;
use crate::material::{Cell, Phase};
use crate::universe::Universe;
use vstd::prelude::*;

verus! {

impl Grid {
    /// What a visit does to the cell at (`row`, `col`).
    ///
    /// A cell that has moved in this tick, or is empty, is passed over. Any
    /// other cell reacts; if that did not transform it, a gas then rises and
    /// a solid or liquid falls, while a static cell stays.
    pub open spec fn step(self, row: int, col: int) -> Grid {
        let i = self.at(row, col);
        if self.moved[i] || self.cell(i) == Cell::Empty {
            self
        } else {
            let reacted = self.react(row, col);
            if reacted.1 {
                reacted.0
            } else {
                match self.cell(i).phase_of() {
                    Phase::Gas => reacted.0.rise(row, col),
                    Phase::Solid | Phase::Liquid => reacted.0.fall(row, col),
                    _ => reacted.0,
                }
            }
        }
    }

    /// The grid after visiting `todo` cells of `row`, starting at column
    /// `col` and going on in direction `dir`.
    pub open spec fn sweep(self, row: int, col: int, dir: int, todo: nat) -> Grid
        decreases todo,
    {
        if todo == 0 {
            self
        } else {
            self.step(row, col).sweep(row, col + dir, dir, (todo - 1) as nat)
        }
    }

    /// Whether a run of `todo` cells that starts at column `col` and goes on
    /// in direction `dir`, right for 1 and left for -1, lies inside a row.
    pub open spec fn run_fits(self, col: int, dir: int, todo: nat) -> bool {
        &&& dir == 1 || dir == -1
        &&& todo > 0 ==> 0 <= col < self.width
        &&& todo > 0 ==> 0 <= (if dir == 1 {
            col + todo - 1
        } else {
            col - todo + 1
        }) < self.width
    }

    /// The grid after visiting every cell of `row`: from the left in an even
    /// generation, from the right in an odd one.
    pub open spec fn row_scanned(self, row: int) -> Grid {
        if self.generation % 2 == 0 {
            self.sweep(row, 0, 1, self.width)
        } else {
            self.sweep(row, self.width - 1, -1, self.width)
        }
    }

    /// The grid after visiting the rows below `rows`, the lowest of them
    /// first.
    pub open spec fn scanned(self, rows: nat) -> Grid
        decreases rows,
    {
        if rows == 0 {
            self
        } else {
            self.row_scanned(rows - 1).scanned((rows - 1) as nat)
        }
    }

    /// The grid after one tick.
    pub open spec fn ticked(self) -> Grid {
        let g = self.begun().diffused();
        g.scanned(g.height)
    }
}

impl Universe {
    /// Visits the cell at (`row`, `col`): lets it react and, if that did not
    /// transform it, move.
    pub(crate) fn update_pixel(&mut self, row: u32, col: u32)
        requires
            old(self).wf(),
            old(self)@.in_bounds(row as int, col as int),
        ensures
            final(self).wf(),
            final(self)@ == old(self)@.step(row as int, col as int),
            final(self)@.same_frame(old(self)@),
    {
        let idx = self.get_index(row, col);
        if self.has_moved(idx) {
            return ;
        }
        let cell = self.cell_at(idx);
        if cell == Cell::Empty {
            return ;
        }
        if self.react(row, col) {
            return ;
        }
        match cell.phase() {
            Phase::Gas => self.update_gas_body(row, col),
            Phase::Solid | Phase::Liquid => self.update_gravity_body(row, col),
            _ => {},
        }
    }

    /// Visits every cell of `row` in the column order of this generation.
    fn scan_row(&mut self, row: u32)
        requires
            old(self).wf(),
            row < old(self)@.height,
        ensures
            final(self).wf(),
            final(self)@ == old(self)@.row_scanned(row as int),
            final(self)@.same_frame(old(self)@),
    {
        let width = self.width();
        let reverse = self.generation() % 2 != 0;
        let ghost dir: int = if reverse {
            -1
        } else {
            1
        };
        let mut k: u32 = 0;
        while k < width
            invariant
                self.wf(),
                self@.same_frame(old(self)@),
                width == self@.width,
                row < self@.height,
                k <= width,
                reverse == (old(self)@.generation % 2 != 0),
                dir == if reverse {
                    -1int
                } else {
                    1int
                },
                self@.sweep(
                    row as int,
                    if reverse {
                        width - 1 - k
                    } else {
                        k as int
                    },
                    dir,
                    (width - k) as nat,
                ) == old(self)@.row_scanned(row as int),
            decreases width - k,
        {
            let col = if reverse {
                width - 1 - k
            } else {
                k
            };
            self.update_pixel(row, col);
            k += 1;
        }
    }

    /// Advances the simulation by one tick.
    pub fn tick(&mut self)
        requires
            old(self).wf(),
        ensures
            final(self).wf(),
            final(self)@.wf(),
            final(self)@ == old(self)@.ticked(),
            final(self)@.width == old(self)@.width,
            final(self)@.height == old(self)@.height,
    {
        self.begin_tick();
        self.diffuse_heat();
        let ghost start = self@;
        let height = self.height();
        let mut rows: u32 = height;
        while rows > 0
            invariant
                self.wf(),
                self@.same_frame(start),
                height == start.height,
                rows <= height,
                self@.scanned(rows as nat) == start.scanned(start.height),
            decreases rows,
        {
            rows -= 1;
            self.scan_row(rows);
        }
        proof {
            self.lemma_wf();
        }
    }
}

} // verus!
