//! The reaction resolver: the rules that change what a cell is made of.
//!
//! A cell is tried against three groups of rules in turn: those that depend on
//! its own temperature or age, those that fire whenever a certain neighbour
//! touches it, and those that sample one neighbour at random. Each group says
//! whether it transformed the cell; a transformed cell is done for the tick.

use crate::grid::Grid;
use crate::material::Cell;
use crate::universe::Universe;
use vstd::prelude::*;

verus! {

/// Radius of the disc of fire an explosion paints.
pub const BLAST_RADIUS: i32 = 3;

/// Number of sparks an explosion throws.
pub const SPARKS: u32 = 10;

/// Row offset of the neighbour on side `k`: 0 is above, 1 below, 2 left and
/// 3 right.
pub open spec fn side_row(k: int) -> int {
    if k == 0 {
        -1
    } else if k == 1 {
        1
    } else {
        0
    }
}

/// Column offset of the neighbour on side `k`.
pub open spec fn side_col(k: int) -> int {
    if k == 2 {
        -1
    } else if k == 3 {
        1
    } else {
        0
    }
}

/// Whether a material sets gunpowder off and lights what can burn.
pub open spec fn is_flame(m: Cell) -> bool {
    m == Cell::Fire || m == Cell::Lava
}

impl Grid {
    /// The outcome of a rule that, at odds of one in `n`, makes the cell at
    /// `i` the material `m`. The draw is made either way.
    pub open spec fn turned(self, i: int, n: u32, m: Cell) -> (Grid, bool) {
        if self.hit(n) {
            (self.drawn().put(i, m), true)
        } else {
            (self.drawn(), false)
        }
    }

    /// The rules of temperature and age, applied to the cell at `i`.
    ///
    /// Water above 100 boils to steam and below -5 freezes to ice, each at
    /// odds of 1 in 10. Ice above 0 melts at 1 in 20. Lava below 800 sets to
    /// stone at 1 in 10 and keeps its temperature. Sand above 500 fuses to
    /// glass at 1 in 50. Fire dies at 1 in 16, leaving smoke or nothing on a
    /// coin. Smoke clears at 1 in 16. Steam below 80 condenses at 1 in 20. No
    /// draw is made for a rule whose temperature condition fails.
    pub open spec fn thermal(self, i: int) -> (Grid, bool) {
        let t = self.temps[i];
        match self.cell(i) {
            Cell::Water => if t > 100 {
                self.turned(i, 10, Cell::Steam)
            } else if t < -5 {
                self.turned(i, 10, Cell::Ice)
            } else {
                (self, false)
            },
            Cell::Ice => if t > 0 {
                self.turned(i, 20, Cell::Water)
            } else {
                (self, false)
            },
            Cell::Lava => if t < 800 {
                if self.hit(10) {
                    (self.drawn().put_keeping_heat(i, Cell::Stone), true)
                } else {
                    (self.drawn(), false)
                }
            } else {
                (self, false)
            },
            Cell::Sand => if t > 500 {
                self.turned(i, 50, Cell::Glass)
            } else {
                (self, false)
            },
            Cell::Fire => if self.hit(16) {
                let g = self.drawn();
                (
                    g.drawn().put(
                        i,
                        if g.heads() {
                            Cell::Smoke
                        } else {
                            Cell::Empty
                        },
                    ),
                    true,
                )
            } else {
                (self.drawn(), false)
            },
            Cell::Smoke => self.turned(i, 16, Cell::Empty),
            Cell::Steam => if t < 80 {
                self.turned(i, 20, Cell::Water)
            } else {
                (self, false)
            },
            _ => (self, false),
        }
    }

    /// Whether the neighbour of (`row`, `col`) on side `k` exists and is of
    /// material `m`.
    pub open spec fn neighbour_is(self, row: int, col: int, k: int, m: Cell) -> bool {
        self.in_bounds(row + side_row(k), col + side_col(k)) && self.cell(
            self.at(row + side_row(k), col + side_col(k)),
        ) == m
    }

    /// The first side, in the order above, below, left, right, on which
    /// (`row`, `col`) has a neighbour of lava; 4 if there is none.
    pub open spec fn lava_side(self, row: int, col: int) -> int {
        if self.neighbour_is(row, col, 0, Cell::Lava) {
            0
        } else if self.neighbour_is(row, col, 1, Cell::Lava) {
            1
        } else if self.neighbour_is(row, col, 2, Cell::Lava) {
            2
        } else if self.neighbour_is(row, col, 3, Cell::Lava) {
            3
        } else {
            4
        }
    }

    /// Whether any of the four neighbours of (`row`, `col`) is fire or lava.
    pub open spec fn touches_flame(self, row: int, col: int) -> bool {
        exists|k: int|
            0 <= k < 4 && (#[trigger] self.neighbour_is(row, col, k, Cell::Fire)
                || self.neighbour_is(row, col, k, Cell::Lava))
    }

    /// One spark of an explosion centred at (`row`, `col`): two draws give a
    /// row and a column offset between -5 and 5; if the cell there exists and
    /// is not structural, a coin makes it fire or smoke.
    pub open spec fn spark(self, row: int, col: int) -> Grid {
        let r = row + (self.roll() % 11) - 5;
        let g1 = self.drawn();
        let c = col + (g1.roll() % 11) - 5;
        let g2 = g1.drawn();
        if g2.in_bounds(r, c) && !g2.cell(g2.at(r, c)).structural() {
            g2.drawn().put(
                g2.at(r, c),
                if g2.heads() {
                    Cell::Fire
                } else {
                    Cell::Smoke
                },
            )
        } else {
            g2
        }
    }

    /// The grid after `n` sparks in a row.
    pub open spec fn scattered(self, row: int, col: int, n: nat) -> Grid
        decreases n,
    {
        if n == 0 {
            self
        } else {
            self.spark(row, col).scattered(row, col, (n - 1) as nat)
        }
    }

    /// The grid after an explosion at (`row`, `col`): a disc of fire of radius
    /// 3, then ten sparks.
    pub open spec fn exploded(self, row: int, col: int) -> Grid {
        self.painted(row, col, Cell::Fire, BLAST_RADIUS as int).scattered(row, col, SPARKS as nat)
    }

    /// The rules that fire whenever a neighbour touches the cell at
    /// (`row`, `col`): ice beside lava becomes steam and that lava obsidian;
    /// gunpowder beside fire or lava explodes.
    pub open spec fn adjacent(self, row: int, col: int) -> (Grid, bool) {
        let i = self.at(row, col);
        match self.cell(i) {
            Cell::Ice => {
                let k = self.lava_side(row, col);
                if k < 4 {
                    (
                        self.put(i, Cell::Steam).put(
                            self.at(row + side_row(k), col + side_col(k)),
                            Cell::Obsidian,
                        ),
                        true,
                    )
                } else {
                    (self, false)
                }
            },
            Cell::Gunpowder => if self.touches_flame(row, col) {
                (self.exploded(row, col), true)
            } else {
                (self, false)
            },
            _ => (self, false),
        }
    }

    /// What happens when the cell at `i` meets its sampled neighbour at `j`.
    ///
    /// Acid on lava becomes fire and the lava steam. Acid on stone or obsidian,
    /// at odds of 1 in 20, turns it to sand and is itself used up on a coin.
    /// Acid on wood, plant or gunpowder, at 1 in 10, turns it to smoke and is
    /// used up. Lava on water becomes obsidian and the water steam. Lava on
    /// wood, plant, gunpowder or oil sets it on fire. Water on plant becomes
    /// plant at 1 in 20. Any other cell that can burn, meeting fire or lava,
    /// catches fire with its flammability as the chance in a hundred.
    pub open spec fn meet(self, i: int, j: int) -> (Grid, bool) {
        let a = self.cell(i);
        let b = self.cell(j);
        if a == Cell::Acid && b == Cell::Lava {
            (self.put(i, Cell::Fire).put(j, Cell::Steam), true)
        } else if a == Cell::Acid && (b == Cell::Stone || b == Cell::Obsidian) {
            if self.hit(20) {
                let g = self.drawn().put(j, Cell::Sand);
                if g.heads() {
                    (g.drawn().put(i, Cell::Empty), true)
                } else {
                    (g.drawn(), false)
                }
            } else {
                (self.drawn(), false)
            }
        } else if a == Cell::Acid && (b == Cell::Wood || b == Cell::Plant || b
            == Cell::Gunpowder) {
            if self.hit(10) {
                (self.drawn().put(j, Cell::Smoke).put(i, Cell::Empty), true)
            } else {
                (self.drawn(), false)
            }
        } else if a == Cell::Lava && b == Cell::Water {
            (self.put(i, Cell::Obsidian).put(j, Cell::Steam), true)
        } else if a == Cell::Lava && (b == Cell::Wood || b == Cell::Plant || b == Cell::Gunpowder
            || b == Cell::Oil) {
            (self.put(j, Cell::Fire), false)
        } else if a == Cell::Water && b == Cell::Plant {
            self.turned(i, 20, Cell::Plant)
        } else if is_flame(b) && a.flammability_of() > 0 {
            if self.roll() % 100 < a.flammability_of() {
                (self.drawn().put(i, Cell::Fire), true)
            } else {
                (self.drawn(), false)
            }
        } else {
            (self, false)
        }
    }

    /// The rules that sample a neighbour of (`row`, `col`): at odds of 1 in 8
    /// a second draw picks one of the four sides, and if there is a cell on
    /// that side the two meet.
    pub open spec fn sampled(self, row: int, col: int) -> (Grid, bool) {
        if !self.hit(8) {
            (self.drawn(), false)
        } else {
            let g1 = self.drawn();
            let k = (g1.roll() % 4) as int;
            let g = g1.drawn();
            if g.in_bounds(row + side_row(k), col + side_col(k)) {
                g.meet(g.at(row, col), g.at(row + side_row(k), col + side_col(k)))
            } else {
                (g, false)
            }
        }
    }

    /// All the rules in turn, applied to the cell at (`row`, `col`). The flag
    /// says whether the cell itself was transformed.
    pub open spec fn react(self, row: int, col: int) -> (Grid, bool) {
        let first = self.thermal(self.at(row, col));
        if first.1 {
            first
        } else {
            let second = first.0.adjacent(row, col);
            if second.1 {
                second
            } else {
                second.0.sampled(row, col)
            }
        }
    }
}

/// The offsets of the neighbour on side `k`.
pub(crate) fn side(k: u32) -> (d: (i64, i64))
    requires
        k < 4,
    ensures
        d.0 == side_row(k as int),
        d.1 == side_col(k as int),
{
    if k == 0 {
        (-1, 0)
    } else if k == 1 {
        (1, 0)
    } else if k == 2 {
        (0, -1)
    } else {
        (0, 1)
    }
}

impl Universe {
    /// At odds of one in `n`, makes the cell at `idx` the material `m`.
    fn turn(&mut self, idx: usize, n: u32, m: Cell) -> (done: bool)
        requires
            old(self).wf(),
            idx < old(self)@.area(),
            n > 0,
        ensures
            final(self).wf(),
            final(self)@ == old(self)@.turned(idx as int, n, m).0,
            done == old(self)@.turned(idx as int, n, m).1,
            final(self).staged() == old(self).staged(),
    {
        if self.chance(n) {
            self.set_cell(idx, m);
            true
        } else {
            false
        }
    }

    /// Applies the rules of temperature and age to the cell at `idx`.
    pub(crate) fn react_thermal(&mut self, idx: usize) -> (done: bool)
        requires
            old(self).wf(),
            idx < old(self)@.area(),
        ensures
            final(self).wf(),
            final(self)@ == old(self)@.thermal(idx as int).0,
            done == old(self)@.thermal(idx as int).1,
            final(self).staged() == old(self).staged(),
    {
        let t = self.temp_at(idx);
        match self.cell_at(idx) {
            Cell::Water => {
                if t > 100 {
                    self.turn(idx, 10, Cell::Steam)
                } else if t < -5 {
                    self.turn(idx, 10, Cell::Ice)
                } else {
                    false
                }
            },
            Cell::Ice => {
                if t > 0 {
                    self.turn(idx, 20, Cell::Water)
                } else {
                    false
                }
            },
            Cell::Lava => {
                if t < 800 {
                    if self.chance(10) {
                        self.set_cell_keeping_heat(idx, Cell::Stone);
                        true
                    } else {
                        false
                    }
                } else {
                    false
                }
            },
            Cell::Sand => {
                if t > 500 {
                    self.turn(idx, 50, Cell::Glass)
                } else {
                    false
                }
            },
            Cell::Fire => {
                if self.chance(16) {
                    let left = if self.toss_coin() {
                        Cell::Smoke
                    } else {
                        Cell::Empty
                    };
                    self.set_cell(idx, left);
                    true
                } else {
                    false
                }
            },
            Cell::Smoke => self.turn(idx, 16, Cell::Empty),
            Cell::Steam => {
                if t < 80 {
                    self.turn(idx, 20, Cell::Water)
                } else {
                    false
                }
            },
            _ => false,
        }
    }

    /// Position of the neighbour of (`row`, `col`) on side `k`, if there is
    /// one.
    fn neighbour(&self, row: u32, col: u32, k: u32) -> (at: Option<usize>)
        requires
            self.wf(),
            k < 4,
        ensures
            at.is_some() == self@.in_bounds(
                row + side_row(k as int),
                col + side_col(k as int),
            ),
            at.is_some() ==> at.unwrap() == self@.at(
                row + side_row(k as int),
                col + side_col(k as int),
            ) && at.unwrap() < self@.area(),
    {
        let d = side(k);
        self.locate(row as i64 + d.0, col as i64 + d.1)
    }

    /// Whether the neighbour of (`row`, `col`) on side `k` is of material `m`.
    fn neighbour_is(&self, row: u32, col: u32, k: u32, m: Cell) -> (b: bool)
        requires
            self.wf(),
            k < 4,
        ensures
            b == self@.neighbour_is(row as int, col as int, k as int, m),
    {
        match self.neighbour(row, col, k) {
            Some(j) => self.cell_at(j) == m,
            None => false,
        }
    }

    /// Whether any neighbour of (`row`, `col`) is fire or lava.
    fn touches_flame(&self, row: u32, col: u32) -> (b: bool)
        requires
            self.wf(),
        ensures
            b == self@.touches_flame(row as int, col as int),
    {
        let mut k: u32 = 0;
        while k < 4
            invariant
                self.wf(),
                k <= 4,
                forall|s: int|
                    0 <= s < k ==> !(#[trigger] self@.neighbour_is(
                        row as int,
                        col as int,
                        s,
                        Cell::Fire,
                    ) || self@.neighbour_is(row as int, col as int, s, Cell::Lava)),
            decreases 4 - k,
        {
            if self.neighbour_is(row, col, k, Cell::Fire) || self.neighbour_is(
                row,
                col,
                k,
                Cell::Lava,
            ) {
                return true;
            }
            k += 1;
        }
        false
    }

    /// Throws one spark of an explosion centred at (`row`, `col`).
    fn spark(&mut self, row: u32, col: u32)
        requires
            old(self).wf(),
        ensures
            final(self).wf(),
            final(self)@ == old(self)@.spark(row as int, col as int),
            final(self).staged() == old(self).staged(),
    {
        let r: i64 = row as i64 + (self.rand() % 11) as i64 - 5;
        let c: i64 = col as i64 + (self.rand() % 11) as i64 - 5;
        match self.locate(r, c) {
            Some(j) => {
                if !self.cell_at(j).is_structural() {
                    let m = if self.toss_coin() {
                        Cell::Fire
                    } else {
                        Cell::Smoke
                    };
                    self.set_cell(j, m);
                }
            },
            None => {},
        }
    }

    /// Sets off an explosion centred at (`row`, `col`).
    pub(crate) fn explode(&mut self, row: u32, col: u32)
        requires
            old(self).wf(),
        ensures
            final(self).wf(),
            final(self)@ == old(self)@.exploded(row as int, col as int),
            final(self)@.same_frame(old(self)@),
            final(self).staged() == old(self).staged(),
    {
        self.paint_with(row, col, Cell::Fire, BLAST_RADIUS);
        let ghost start = self@;
        let mut k: u32 = 0;
        while k < SPARKS
            invariant
                self.wf(),
                self.staged() == old(self).staged(),
                self@.same_frame(old(self)@),
                k <= SPARKS,
                self@.scattered(row as int, col as int, (SPARKS - k) as nat) == start.scattered(
                    row as int,
                    col as int,
                    SPARKS as nat,
                ),
            decreases SPARKS - k,
        {
            self.spark(row, col);
            k += 1;
        }
    }

    /// Applies the rules that fire on touch to the cell at (`row`, `col`).
    pub(crate) fn react_adjacent(&mut self, row: u32, col: u32) -> (done: bool)
        requires
            old(self).wf(),
            old(self)@.in_bounds(row as int, col as int),
        ensures
            final(self).wf(),
            final(self)@ == old(self)@.adjacent(row as int, col as int).0,
            done == old(self)@.adjacent(row as int, col as int).1,
            final(self)@.same_frame(old(self)@),
            final(self).staged() == old(self).staged(),
    {
        let idx = self.get_index(row, col);
        match self.cell_at(idx) {
            Cell::Ice => {
                let mut k: u32 = 0;
                while k < 4
                    invariant
                        self.wf(),
                        self@ == old(self)@,
                        self.staged() == old(self).staged(),
                        k <= 4,
                        idx == self@.at(row as int, col as int),
                        idx < self@.area(),
                        self@.cell(idx as int) == Cell::Ice,
                        forall|s: int|
                            0 <= s < k ==> !#[trigger] self@.neighbour_is(
                                row as int,
                                col as int,
                                s,
                                Cell::Lava,
                            ),
                    decreases 4 - k,
                {
                    match self.neighbour(row, col, k) {
                        Some(j) => {
                            if self.cell_at(j) == Cell::Lava {
                                assert(self@.neighbour_is(
                                    row as int,
                                    col as int,
                                    k as int,
                                    Cell::Lava,
                                ));
                                assert(self@.lava_side(row as int, col as int) == k);
                                self.set_cell(idx, Cell::Steam);
                                self.set_cell(j, Cell::Obsidian);
                                return true;
                            }
                        },
                        None => {},
                    }
                    k += 1;
                }
                false
            },
            Cell::Gunpowder => {
                if self.touches_flame(row, col) {
                    self.explode(row, col);
                    true
                } else {
                    false
                }
            },
            _ => false,
        }
    }

    /// Lets the cell at `idx` meet its sampled neighbour at `j`.
    fn meet(&mut self, idx: usize, j: usize) -> (done: bool)
        requires
            old(self).wf(),
            idx < old(self)@.area(),
            j < old(self)@.area(),
        ensures
            final(self).wf(),
            final(self)@ == old(self)@.meet(idx as int, j as int).0,
            done == old(self)@.meet(idx as int, j as int).1,
            final(self).staged() == old(self).staged(),
    {
        let a = self.cell_at(idx);
        let b = self.cell_at(j);
        if a == Cell::Acid && b == Cell::Lava {
            self.set_cell(idx, Cell::Fire);
            self.set_cell(j, Cell::Steam);
            true
        } else if a == Cell::Acid && (b == Cell::Stone || b == Cell::Obsidian) {
            if self.chance(20) {
                self.set_cell(j, Cell::Sand);
                if self.toss_coin() {
                    self.set_cell(idx, Cell::Empty);
                    true
                } else {
                    false
                }
            } else {
                false
            }
        } else if a == Cell::Acid && (b == Cell::Wood || b == Cell::Plant || b
            == Cell::Gunpowder) {
            if self.chance(10) {
                self.set_cell(j, Cell::Smoke);
                self.set_cell(idx, Cell::Empty);
                true
            } else {
                false
            }
        } else if a == Cell::Lava && b == Cell::Water {
            self.set_cell(idx, Cell::Obsidian);
            self.set_cell(j, Cell::Steam);
            true
        } else if a == Cell::Lava && (b == Cell::Wood || b == Cell::Plant || b == Cell::Gunpowder
            || b == Cell::Oil) {
            self.set_cell(j, Cell::Fire);
            false
        } else if a == Cell::Water && b == Cell::Plant {
            self.turn(idx, 20, Cell::Plant)
        } else if (b == Cell::Fire || b == Cell::Lava) && a.flammability() > 0 {
            if self.rand() % 100 < a.flammability() {
                self.set_cell(idx, Cell::Fire);
                true
            } else {
                false
            }
        } else {
            false
        }
    }

    /// Applies the rules that sample a neighbour to the cell at
    /// (`row`, `col`).
    pub(crate) fn react_sampled(&mut self, row: u32, col: u32) -> (done: bool)
        requires
            old(self).wf(),
            old(self)@.in_bounds(row as int, col as int),
        ensures
            final(self).wf(),
            final(self)@ == old(self)@.sampled(row as int, col as int).0,
            done == old(self)@.sampled(row as int, col as int).1,
            final(self).staged() == old(self).staged(),
    {
        if !self.chance(8) {
            return false;
        }
        let k = self.rand() % 4;
        match self.neighbour(row, col, k) {
            Some(j) => {
                let idx = self.get_index(row, col);
                self.meet(idx, j)
            },
            None => false,
        }
    }

    /// Applies all the rules to the cell at (`row`, `col`) and reports whether
    /// the cell itself was transformed.
    pub(crate) fn react(&mut self, row: u32, col: u32) -> (done: bool)
        requires
            old(self).wf(),
            old(self)@.in_bounds(row as int, col as int),
        ensures
            final(self).wf(),
            final(self)@ == old(self)@.react(row as int, col as int).0,
            done == old(self)@.react(row as int, col as int).1,
            final(self)@.same_frame(old(self)@),
            final(self).staged() == old(self).staged(),
    {
        let idx = self.get_index(row, col);
        if self.react_thermal(idx) {
            return true;
        }
        if self.react_adjacent(row, col) {
            return true;
        }
        self.react_sampled(row, col)
    }
}

} // verus!
