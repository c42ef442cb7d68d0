//! The movement resolver: gravity for solids and liquids, buoyancy for gases.
//! Every move is an exchange of two cells.

use crate::grid::{lemma_at_in_range, Grid};
use crate::material::{Cell, Phase};
use crate::universe::Universe;
use vstd::prelude::*;

verus! {

/// Column offset tried first after the coin toss: left on heads.
pub open spec fn first_side(heads: bool) -> int {
    if heads {
        -1
    } else {
        1
    }
}

impl Grid {
    /// Whether the mover at `i` may take the place of the cell at
    /// (`row`, `col`): that cell exists and the mover displaces its material.
    pub open spec fn falls_into(self, i: int, row: int, col: int) -> bool {
        self.in_bounds(row, col) && self.cell(i).displaces(self.cell(self.at(row, col)))
    }

    /// Whether a gas may rise into (`row`, `col`): the cell exists and is
    /// empty or a liquid.
    pub open spec fn rises_into(self, row: int, col: int) -> bool {
        self.in_bounds(row, col) && self.cell(self.at(row, col)).yields_to_gas()
    }

    /// Whether a gas may drift sideways into (`row`, `col`): the cell exists
    /// and is empty.
    pub open spec fn drifts_into(self, row: int, col: int) -> bool {
        self.in_bounds(row, col) && self.cell(self.at(row, col)) == Cell::Empty
    }

    /// Whether the liquid at `i`, in column `col` of `row`, may jump over its
    /// neighbour on side `d`: the neighbour is of the same material and the
    /// cell beyond it exists and is empty.
    pub open spec fn jumps_over(self, i: int, row: int, col: int, d: int) -> bool {
        &&& self.in_bounds(row, col + d)
        &&& self.in_bounds(row, col + 2 * d)
        &&& self.cell(self.at(row, col + d)) == self.cell(i)
        &&& self.cell(self.at(row, col + 2 * d)) == Cell::Empty
    }

    /// What gravity does to the solid or liquid at (`row`, `col`).
    ///
    /// In the bottom row nothing moves. Otherwise the cell exchanges places
    /// with the one below if it displaces it. Failing that a coin is tossed
    /// for the side to try first, and the cell takes the first place it can
    /// among: the two cells diagonally below; for a liquid, the two cells
    /// beside it; for a liquid, the cell two columns away past a neighbour of
    /// its own material.
    pub open spec fn fall(self, row: int, col: int) -> Grid {
        let i = self.at(row, col);
        if row + 1 >= self.height {
            self
        } else if self.falls_into(i, row + 1, col) {
            self.swapped(i, self.at(row + 1, col))
        } else {
            let d = first_side(self.heads());
            let g = self.drawn();
            if g.falls_into(i, row + 1, col + d) {
                g.swapped(i, g.at(row + 1, col + d))
            } else if g.falls_into(i, row + 1, col - d) {
                g.swapped(i, g.at(row + 1, col - d))
            } else if g.cell(i).phase_of() != Phase::Liquid {
                g
            } else if g.falls_into(i, row, col + d) {
                g.swapped(i, g.at(row, col + d))
            } else if g.falls_into(i, row, col - d) {
                g.swapped(i, g.at(row, col - d))
            } else if g.jumps_over(i, row, col, d) {
                g.swapped(i, g.at(row, col + 2 * d))
            } else if g.jumps_over(i, row, col, -d) {
                g.swapped(i, g.at(row, col - 2 * d))
            } else {
                g
            }
        }
    }

    /// What buoyancy does to the gas at (`row`, `col`).
    ///
    /// In the top row nothing moves. Otherwise the gas exchanges places with
    /// the cell above if that is empty or a liquid. Failing that a coin is
    /// tossed for the side to try first, and the gas takes the first place it
    /// can among: the two cells diagonally above, if empty or liquid; the two
    /// cells beside it, if empty.
    pub open spec fn rise(self, row: int, col: int) -> Grid {
        let i = self.at(row, col);
        if row <= 0 {
            self
        } else if self.rises_into(row - 1, col) {
            self.swapped(i, self.at(row - 1, col))
        } else {
            let d = first_side(self.heads());
            let g = self.drawn();
            if g.rises_into(row - 1, col + d) {
                g.swapped(i, g.at(row - 1, col + d))
            } else if g.rises_into(row - 1, col - d) {
                g.swapped(i, g.at(row - 1, col - d))
            } else if g.drifts_into(row, col + d) {
                g.swapped(i, g.at(row, col + d))
            } else if g.drifts_into(row, col - d) {
                g.swapped(i, g.at(row, col - d))
            } else {
                g
            }
        }
    }
}

impl Universe {
    /// Moves the solid or liquid at `idx` into (`row`, `col`) if it displaces
    /// what is there.
    fn try_displace(&mut self, idx: usize, row: u32, col: i64) -> (done: bool)
        requires
            old(self).wf(),
            idx < old(self)@.area(),
            row < old(self)@.height,
        ensures
            final(self).wf(),
            done == old(self)@.falls_into(idx as int, row as int, col as int),
            final(self)@ == if done {
                old(self)@.swapped(idx as int, old(self)@.at(row as int, col as int))
            } else {
                old(self)@
            },
            final(self).staged() == old(self).staged(),
    {
        match self.locate(row as i64, col) {
            Some(target) => {
                if self.cell_at(idx).can_displace(self.cell_at(target)) {
                    self.swap_cells(idx, target);
                    true
                } else {
                    false
                }
            },
            None => false,
        }
    }

    /// Moves the liquid at `idx` two columns towards side `d` if it may jump
    /// over its neighbour there.
    fn try_jump(&mut self, idx: usize, row: u32, col: u32, d: i64) -> (done: bool)
        requires
            old(self).wf(),
            old(self)@.in_bounds(row as int, col as int),
            idx == old(self)@.at(row as int, col as int),
            d == 1 || d == -1,
        ensures
            final(self).wf(),
            done == old(self)@.jumps_over(idx as int, row as int, col as int, d as int),
            final(self)@ == if done {
                old(self)@.swapped(idx as int, old(self)@.at(row as int, col + 2 * d))
            } else {
                old(self)@
            },
            final(self).staged() == old(self).staged(),
    {
        proof {
            self.lemma_wf();
            lemma_at_in_range(self@.width, self@.height, row as int, col as int);
        }
        let near = self.locate(row as i64, col as i64 + d);
        let far = self.locate(row as i64, col as i64 + 2 * d);
        match (near, far) {
            (Some(n), Some(f)) => {
                if self.cell_at(n) == self.cell_at(idx) && self.cell_at(f) == Cell::Empty {
                    self.swap_cells(idx, f);
                    true
                } else {
                    false
                }
            },
            _ => false,
        }
    }

    /// Moves the gas at `idx` into (`row`, `col`) if the cell there is empty,
    /// or a liquid where `through_liquid` allows it.
    fn try_rise(&mut self, idx: usize, row: u32, col: i64, through_liquid: bool) -> (done: bool)
        requires
            old(self).wf(),
            idx < old(self)@.area(),
            row < old(self)@.height,
        ensures
            final(self).wf(),
            done == if through_liquid {
                old(self)@.rises_into(row as int, col as int)
            } else {
                old(self)@.drifts_into(row as int, col as int)
            },
            final(self)@ == if done {
                old(self)@.swapped(idx as int, old(self)@.at(row as int, col as int))
            } else {
                old(self)@
            },
            final(self).staged() == old(self).staged(),
    {
        match self.locate(row as i64, col) {
            Some(target) => {
                let there = self.cell_at(target);
                if there == Cell::Empty || (through_liquid && there.is_liquid()) {
                    self.swap_cells(idx, target);
                    true
                } else {
                    false
                }
            },
            None => false,
        }
    }

    /// Lets gravity act on the solid or liquid at (`row`, `col`).
    pub(crate) fn update_gravity_body(&mut self, row: u32, col: u32)
        requires
            old(self).wf(),
            old(self)@.in_bounds(row as int, col as int),
        ensures
            final(self).wf(),
            final(self)@ == old(self)@.fall(row as int, col as int),
            final(self).staged() == old(self).staged(),
    {
        proof {
            self.lemma_wf();
        }
        let idx = self.get_index(row, col);
        if row + 1 >= self.height() {
            return ;
        }
        let c: i64 = col as i64;
        if self.try_displace(idx, row + 1, c) {
            return ;
        }
        let liquid = self.cell_at(idx).is_liquid();
        let heads = self.toss_coin();
        let d: i64 = if heads {
            -1
        } else {
            1
        };
        if self.try_displace(idx, row + 1, c + d) {
            return ;
        }
        if self.try_displace(idx, row + 1, c - d) {
            return ;
        }
        if !liquid {
            return ;
        }
        if self.try_displace(idx, row, c + d) {
            return ;
        }
        if self.try_displace(idx, row, c - d) {
            return ;
        }
        if self.try_jump(idx, row, col, d) {
            return ;
        }
        let _ = self.try_jump(idx, row, col, -d);
    }

    /// Lets buoyancy act on the gas at (`row`, `col`).
    pub(crate) fn update_gas_body(&mut self, row: u32, col: u32)
        requires
            old(self).wf(),
            old(self)@.in_bounds(row as int, col as int),
        ensures
            final(self).wf(),
            final(self)@ == old(self)@.rise(row as int, col as int),
            final(self).staged() == old(self).staged(),
    {
        proof {
            self.lemma_wf();
        }
        let idx = self.get_index(row, col);
        if row == 0 {
            return ;
        }
        let c: i64 = col as i64;
        if self.try_rise(idx, row - 1, c, true) {
            return ;
        }
        let heads = self.toss_coin();
        let d: i64 = if heads {
            -1
        } else {
            1
        };
        if self.try_rise(idx, row - 1, c + d, true) {
            return ;
        }
        if self.try_rise(idx, row - 1, c - d, true) {
            return ;
        }
        if self.try_rise(idx, row, c + d, false) {
            return ;
        }
        let _ = self.try_rise(idx, row, c - d, false);
    }
}

} // verus!
