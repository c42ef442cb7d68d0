//! The heat diffusion pass: one step of a cheap local averaging of the
//! temperature field, computed from the previous field for every cell at once.

use crate::grid::{lemma_at_row_col, lemma_row_col, Grid};
use crate::material::{Cell, AMBIENT};
use crate::reaction::{side, side_col, side_row};
use crate::universe::Universe;
use vstd::prelude::*;

verus! {

/// Weight of a cell's own temperature in the average; each neighbour weighs 1.
pub const SELF_WEIGHT: i32 = 1024;

/// Empty cells drift towards ambient when position plus generation is a
/// multiple of this.
pub const DRIFT_PERIOD: u64 = 10;

/// Division that rounds towards zero.
pub open spec fn trunc_div(a: int, b: int) -> int {
    if a >= 0 {
        a / b
    } else {
        -((-a) / b)
    }
}

/// A temperature moved one unit towards ambient.
pub open spec fn nudged(t: int) -> int {
    if t > AMBIENT {
        t - 1
    } else if t < AMBIENT {
        t + 1
    } else {
        t
    }
}

/// A weighted mean of temperatures is itself a temperature.
pub proof fn lemma_mean_in_range(sum: int, weight: int)
    requires
        SELF_WEIGHT <= weight <= SELF_WEIGHT + 4,
        weight * i16::MIN <= sum <= weight * i16::MAX,
    ensures
        i16::MIN <= trunc_div(sum, weight) <= i16::MAX,
{
    if weight == 1024 {
    } else if weight == 1025 {
    } else if weight == 1026 {
    } else if weight == 1027 {
    } else {
        assert(weight == 1028);
    }
}

impl Grid {
    /// What the neighbour of (`row`, `col`) on side `k` adds to the sum of
    /// temperatures: its temperature, or nothing if there is no such cell.
    pub open spec fn side_heat(self, row: int, col: int, k: int) -> int {
        if self.in_bounds(row + side_row(k), col + side_col(k)) {
            self.temps[self.at(row + side_row(k), col + side_col(k))] as int
        } else {
            0
        }
    }

    /// What the neighbour on side `k` adds to the total weight.
    pub open spec fn side_weight(self, row: int, col: int, k: int) -> int {
        if self.in_bounds(row + side_row(k), col + side_col(k)) {
            1
        } else {
            0
        }
    }

    /// Sum of the temperatures around (`row`, `col`), the cell's own counted
    /// 1024 times.
    pub open spec fn heat_sum(self, row: int, col: int) -> int {
        SELF_WEIGHT * self.temps[self.at(row, col)] + self.side_heat(row, col, 0) + self.side_heat(
            row,
            col,
            1,
        ) + self.side_heat(row, col, 2) + self.side_heat(row, col, 3)
    }

    /// Total weight of the average at (`row`, `col`): 1024 and one for each
    /// neighbour there is.
    pub open spec fn heat_weight(self, row: int, col: int) -> int {
        SELF_WEIGHT + self.side_weight(row, col, 0) + self.side_weight(row, col, 1)
            + self.side_weight(row, col, 2) + self.side_weight(row, col, 3)
    }

    /// Whether the empty cell at position `i` drifts towards ambient in this
    /// generation.
    pub open spec fn drifts(self, i: int) -> bool {
        self.cell(i) == Cell::Empty && (i + self.generation) % (DRIFT_PERIOD as int) == 0
    }

    /// The temperature of (`row`, `col`) after one diffusion step.
    ///
    /// Fire is always at 800 and ice at -20. Any other cell takes the
    /// weighted average of its own temperature and those of its neighbours,
    /// rounded towards zero; an empty cell whose turn it is then moves one
    /// unit towards ambient.
    pub open spec fn diffused_temp(self, row: int, col: int) -> int {
        let i = self.at(row, col);
        match self.cell(i) {
            Cell::Fire => 800,
            Cell::Ice => -20,
            _ => {
                let mean = trunc_div(self.heat_sum(row, col), self.heat_weight(row, col));
                if self.drifts(i) {
                    nudged(mean)
                } else {
                    mean
                }
            },
        }
    }

    /// The grid after one diffusion step: every temperature replaced by its
    /// diffused value, all computed from the temperatures before the step.
    pub open spec fn diffused(self) -> Grid {
        Grid {
            temps: Seq::new(
                self.temps.len(),
                |i: int| self.diffused_temp(self.row_of(i), self.col_of(i)) as i16,
            ),
            ..self
        }
    }

    /// The average is always taken over a weight of at least 1024, never
    /// over zero, and the diffused temperature of a cell fits the
    /// temperature type.
    pub proof fn lemma_diffused_temp_in_range(self, row: int, col: int)
        requires
            self.wf(),
            self.in_bounds(row, col),
        ensures
            SELF_WEIGHT <= self.heat_weight(row, col) <= SELF_WEIGHT + 4,
            i16::MIN <= self.diffused_temp(row, col) <= i16::MAX,
    {
        lemma_mean_in_range(self.heat_sum(row, col), self.heat_weight(row, col));
    }
}

impl Universe {
    /// Temperature and weight that the neighbour of (`row`, `col`) on side
    /// `k` adds to the average.
    fn side_heat(&self, row: u32, col: u32, k: u32) -> (hw: (i32, i32))
        requires
            self.wf(),
            k < 4,
        ensures
            hw.0 == self@.side_heat(row as int, col as int, k as int),
            hw.1 == self@.side_weight(row as int, col as int, k as int),
    {
        let d = side(k);
        match self.locate(row as i64 + d.0, col as i64 + d.1) {
            Some(j) => (self.temp_at(j) as i32, 1),
            None => (0, 0),
        }
    }

    /// The temperature of (`row`, `col`) after one diffusion step.
    pub(crate) fn diffused_temp(&self, row: u32, col: u32) -> (t: i16)
        requires
            self.wf(),
            self@.in_bounds(row as int, col as int),
        ensures
            t == self@.diffused_temp(row as int, col as int),
    {
        let idx = self.get_index(row, col);
        let cell = self.cell_at(idx);
        if cell == Cell::Fire {
            return 800;
        }
        if cell == Cell::Ice {
            return -20;
        }
        let up = self.side_heat(row, col, 0);
        let down = self.side_heat(row, col, 1);
        let left = self.side_heat(row, col, 2);
        let right = self.side_heat(row, col, 3);
        let sum: i32 = SELF_WEIGHT * (self.temp_at(idx) as i32) + up.0 + down.0 + left.0 + right.0;
        let weight: i32 = SELF_WEIGHT + up.1 + down.1 + left.1 + right.1;
        proof {
            self.lemma_wf();
            lemma_mean_in_range(sum as int, weight as int);
        }
        let mean: i32 = if sum >= 0 {
            ((sum as u32) / (weight as u32)) as i32
        } else {
            -((((-sum) as u32) / (weight as u32)) as i32)
        };
        let turn = cell == Cell::Empty && (idx as u64 + self.generation() as u64) % DRIFT_PERIOD
            == 0;
        let t: i32 = if !turn {
            mean
        } else if mean > AMBIENT as i32 {
            mean - 1
        } else if mean < AMBIENT as i32 {
            mean + 1
        } else {
            mean
        };
        t as i16
    }

    /// Advances the temperature field by one diffusion step.
    pub(crate) fn diffuse_heat(&mut self)
        requires
            old(self).wf(),
        ensures
            final(self).wf(),
            final(self)@ == old(self)@.diffused(),
    {
        let ghost g0 = self@;
        proof {
            self.lemma_wf();
        }
        let height = self.height();
        let width = self.width();
        let mut row: u32 = 0;
        while row < height
            invariant
                self.wf(),
                self@ == g0,
                g0.wf(),
                width == g0.width,
                height == g0.height,
                row <= height,
                self.staged().len() == g0.area(),
                forall|i: int|
                    0 <= i < g0.area() && g0.before(i, row as int, 0) ==> #[trigger] self.staged()[i]
                        == g0.diffused_temp(g0.row_of(i), g0.col_of(i)),
            decreases height - row,
        {
            let mut col: u32 = 0;
            while col < width
                invariant
                    self.wf(),
                    self@ == g0,
                    g0.wf(),
                    width == g0.width,
                    height == g0.height,
                    row < height,
                    col <= width,
                    self.staged().len() == g0.area(),
                    forall|i: int|
                        0 <= i < g0.area() && g0.before(i, row as int, col as int)
                            ==> #[trigger] self.staged()[i] == g0.diffused_temp(
                            g0.row_of(i),
                            g0.col_of(i),
                        ),
                decreases width - col,
            {
                let idx = self.get_index(row, col);
                let t = self.diffused_temp(row, col);
                self.stage_temp(idx, t);
                proof {
                    lemma_at_row_col(g0.width, row as int, col as int);
                    assert forall|i: int|
                        0 <= i < g0.area() && g0.before(
                            i,
                            row as int,
                            col + 1,
                        ) implies #[trigger] self.staged()[i] == g0.diffused_temp(
                        g0.row_of(i),
                        g0.col_of(i),
                    ) by {
                        lemma_row_col(g0.width, g0.height, i);
                    }
                }
                col += 1;
            }
            proof {
                assert forall|i: int|
                    0 <= i < g0.area() && g0.before(
                        i,
                        row + 1,
                        0,
                    ) implies #[trigger] self.staged()[i] == g0.diffused_temp(
                    g0.row_of(i),
                    g0.col_of(i),
                ) by {
                    lemma_row_col(g0.width, g0.height, i);
                }
            }
            row += 1;
        }
        proof {
            assert forall|i: int| 0 <= i < g0.area() implies #[trigger] self.staged()[i]
                == g0.diffused_temp(g0.row_of(i), g0.col_of(i)) by {
                lemma_row_col(g0.width, g0.height, i);
            }
        }
        self.commit_temps();
        assert(self@.temps =~= g0.diffused().temps);
    }
}

} // verus!
