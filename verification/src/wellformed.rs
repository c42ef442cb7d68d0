//! Well-formedness of the state: every rule, and so every tick, takes
//! well-formed grids to well-formed grids of the same dimensions.

use crate::grid::{lemma_at_in_range, Grid};
use crate::material::Cell;
use crate::reaction::{side_col, side_row};
use vstd::prelude::*;

verus! {

impl Grid {
    /// Whether `next` is a well-formed state of the same dimensions and
    /// generation as this one.
    pub open spec fn kept_by(self, next: Grid) -> bool {
        next.wf() && next.same_frame(self)
    }

    /// The state after `n` ticks.
    pub open spec fn ticks(self, n: nat) -> Grid
        decreases n,
    {
        if n == 0 {
            self
        } else {
            self.ticked().ticks((n - 1) as nat)
        }
    }

    /// Changing the material of one cell keeps the invariant.
    pub proof fn lemma_put_kept(self, i: int, m: Cell)
        requires
            self.wf(),
            0 <= i < self.area(),
        ensures
            self.kept_by(self.put(i, m)),
            self.kept_by(self.put_keeping_heat(i, m)),
    {
    }

    /// Exchanging two cells keeps the invariant.
    pub proof fn lemma_swapped_kept(self, i: int, j: int)
        requires
            self.wf(),
            0 <= i < self.area(),
            0 <= j < self.area(),
        ensures
            self.kept_by(self.swapped(i, j)),
    {
    }

    /// The rules of temperature and age keep the invariant.
    pub proof fn lemma_thermal_kept(self, i: int)
        requires
            self.wf(),
            0 <= i < self.area(),
        ensures
            self.kept_by(self.thermal(i).0),
    {
        let g = self.drawn();
        g.lemma_put_kept(i, Cell::Steam);
        g.lemma_put_kept(i, Cell::Ice);
        g.lemma_put_kept(i, Cell::Water);
        g.lemma_put_kept(i, Cell::Stone);
        g.lemma_put_kept(i, Cell::Glass);
        g.lemma_put_kept(i, Cell::Empty);
        g.drawn().lemma_put_kept(i, Cell::Smoke);
        g.drawn().lemma_put_kept(i, Cell::Empty);
    }

    /// A stroke of the brush keeps the invariant.
    pub proof fn lemma_painted_kept(self, row: int, col: int, m: Cell, radius: int)
        requires
            self.wf(),
        ensures
            self.kept_by(self.painted(row, col, m, radius)),
    {
    }

    /// A spark keeps the invariant.
    pub proof fn lemma_spark_kept(self, row: int, col: int)
        requires
            self.wf(),
        ensures
            self.kept_by(self.spark(row, col)),
    {
        let r = row + (self.roll() % 11) - 5;
        let g1 = self.drawn();
        let c = col + (g1.roll() % 11) - 5;
        let g2 = g1.drawn();
        if g2.in_bounds(r, c) {
            lemma_at_in_range(self.width, self.height, r, c);
            g2.drawn().lemma_put_kept(g2.at(r, c), Cell::Fire);
            g2.drawn().lemma_put_kept(g2.at(r, c), Cell::Smoke);
        }
    }

    /// Any number of sparks keeps the invariant.
    pub proof fn lemma_scattered_kept(self, row: int, col: int, n: nat)
        requires
            self.wf(),
        ensures
            self.kept_by(self.scattered(row, col, n)),
        decreases n,
    {
        if n > 0 {
            self.lemma_spark_kept(row, col);
            self.spark(row, col).lemma_scattered_kept(row, col, (n - 1) as nat);
        }
    }

    /// An explosion keeps the invariant.
    pub proof fn lemma_exploded_kept(self, row: int, col: int)
        requires
            self.wf(),
        ensures
            self.kept_by(self.exploded(row, col)),
    {
        self.lemma_painted_kept(row, col, Cell::Fire, crate::reaction::BLAST_RADIUS as int);
        self.painted(
            row,
            col,
            Cell::Fire,
            crate::reaction::BLAST_RADIUS as int,
        ).lemma_scattered_kept(row, col, crate::reaction::SPARKS as nat);
    }

    /// The rules that fire on touch keep the invariant.
    pub proof fn lemma_adjacent_kept(self, row: int, col: int)
        requires
            self.wf(),
            self.in_bounds(row, col),
        ensures
            self.kept_by(self.adjacent(row, col).0),
    {
        let i = self.at(row, col);
        lemma_at_in_range(self.width, self.height, row, col);
        self.lemma_exploded_kept(row, col);
        let k = self.lava_side(row, col);
        if k < 4 {
            let (r, c) = (row + side_row(k), col + side_col(k));
            lemma_at_in_range(self.width, self.height, r, c);
            self.lemma_put_kept(i, Cell::Steam);
            self.put(i, Cell::Steam).lemma_put_kept(self.at(r, c), Cell::Obsidian);
        }
    }

    /// A meeting of two cells keeps the invariant.
    pub proof fn lemma_meet_kept(self, i: int, j: int)
        requires
            self.wf(),
            0 <= i < self.area(),
            0 <= j < self.area(),
        ensures
            self.kept_by(self.meet(i, j).0),
    {
        let d = self.drawn();
        self.lemma_put_kept(i, Cell::Fire);
        self.put(i, Cell::Fire).lemma_put_kept(j, Cell::Steam);
        d.lemma_put_kept(j, Cell::Sand);
        d.put(j, Cell::Sand).drawn().lemma_put_kept(i, Cell::Empty);
        d.lemma_put_kept(j, Cell::Smoke);
        d.put(j, Cell::Smoke).lemma_put_kept(i, Cell::Empty);
        self.lemma_put_kept(i, Cell::Obsidian);
        self.put(i, Cell::Obsidian).lemma_put_kept(j, Cell::Steam);
        self.lemma_put_kept(j, Cell::Fire);
        d.lemma_put_kept(i, Cell::Plant);
        d.lemma_put_kept(i, Cell::Fire);
    }

    /// The rules that sample a neighbour keep the invariant.
    pub proof fn lemma_sampled_kept(self, row: int, col: int)
        requires
            self.wf(),
            self.in_bounds(row, col),
        ensures
            self.kept_by(self.sampled(row, col).0),
    {
        let g1 = self.drawn();
        let k = (g1.roll() % 4) as int;
        let g = g1.drawn();
        let (r, c) = (row + side_row(k), col + side_col(k));
        lemma_at_in_range(self.width, self.height, row, col);
        if g.in_bounds(r, c) {
            lemma_at_in_range(self.width, self.height, r, c);
            g.lemma_meet_kept(g.at(row, col), g.at(r, c));
        }
    }

    /// The reaction resolver keeps the invariant.
    pub proof fn lemma_react_kept(self, row: int, col: int)
        requires
            self.wf(),
            self.in_bounds(row, col),
        ensures
            self.kept_by(self.react(row, col).0),
    {
        lemma_at_in_range(self.width, self.height, row, col);
        self.lemma_thermal_kept(self.at(row, col));
        let first = self.thermal(self.at(row, col));
        first.0.lemma_adjacent_kept(row, col);
        let second = first.0.adjacent(row, col);
        second.0.lemma_sampled_kept(row, col);
    }

    /// An exchange with a cell of the grid, if `cond` allows it, keeps the
    /// invariant.
    proof fn lemma_move_kept(self, i: int, row: int, col: int)
        requires
            self.wf(),
            0 <= i < self.area(),
            self.in_bounds(row, col),
        ensures
            self.kept_by(self.swapped(i, self.at(row, col))),
    {
        lemma_at_in_range(self.width, self.height, row, col);
        self.lemma_swapped_kept(i, self.at(row, col));
    }

    /// Gravity keeps the invariant.
    pub proof fn lemma_fall_kept(self, row: int, col: int)
        requires
            self.wf(),
            self.in_bounds(row, col),
        ensures
            self.kept_by(self.fall(row, col)),
    {
        let i = self.at(row, col);
        lemma_at_in_range(self.width, self.height, row, col);
        let d = crate::motion::first_side(self.heads());
        let g = self.drawn();
        if self.in_bounds(row + 1, col) {
            self.lemma_move_kept(i, row + 1, col);
        }
        if g.in_bounds(row + 1, col + d) {
            g.lemma_move_kept(i, row + 1, col + d);
        }
        if g.in_bounds(row + 1, col - d) {
            g.lemma_move_kept(i, row + 1, col - d);
        }
        if g.in_bounds(row, col + d) {
            g.lemma_move_kept(i, row, col + d);
        }
        if g.in_bounds(row, col - d) {
            g.lemma_move_kept(i, row, col - d);
        }
        if g.in_bounds(row, col + 2 * d) {
            g.lemma_move_kept(i, row, col + 2 * d);
        }
        if g.in_bounds(row, col - 2 * d) {
            g.lemma_move_kept(i, row, col - 2 * d);
        }
    }

    /// Buoyancy keeps the invariant.
    pub proof fn lemma_rise_kept(self, row: int, col: int)
        requires
            self.wf(),
            self.in_bounds(row, col),
        ensures
            self.kept_by(self.rise(row, col)),
    {
        let i = self.at(row, col);
        lemma_at_in_range(self.width, self.height, row, col);
        let d = crate::motion::first_side(self.heads());
        let g = self.drawn();
        if self.in_bounds(row - 1, col) {
            self.lemma_move_kept(i, row - 1, col);
        }
        if g.in_bounds(row - 1, col + d) {
            g.lemma_move_kept(i, row - 1, col + d);
        }
        if g.in_bounds(row - 1, col - d) {
            g.lemma_move_kept(i, row - 1, col - d);
        }
        if g.in_bounds(row, col + d) {
            g.lemma_move_kept(i, row, col + d);
        }
        if g.in_bounds(row, col - d) {
            g.lemma_move_kept(i, row, col - d);
        }
    }

    /// A visit to a cell keeps the invariant.
    pub proof fn lemma_step_kept(self, row: int, col: int)
        requires
            self.wf(),
            self.in_bounds(row, col),
        ensures
            self.kept_by(self.step(row, col)),
    {
        self.lemma_react_kept(row, col);
        let g = self.react(row, col).0;
        g.lemma_rise_kept(row, col);
        g.lemma_fall_kept(row, col);
    }

    /// Visiting a run of cells of one row keeps the invariant.
    pub proof fn lemma_sweep_kept(self, row: int, col: int, dir: int, todo: nat)
        requires
            self.wf(),
            0 <= row < self.height,
            self.run_fits(col, dir, todo),
        ensures
            self.kept_by(self.sweep(row, col, dir, todo)),
        decreases todo,
    {
        if todo > 0 {
            self.lemma_step_kept(row, col);
            self.step(row, col).lemma_sweep_kept(row, col + dir, dir, (todo - 1) as nat);
        }
    }

    /// Visiting a row keeps the invariant.
    pub proof fn lemma_row_scanned_kept(self, row: int)
        requires
            self.wf(),
            0 <= row < self.height,
        ensures
            self.kept_by(self.row_scanned(row)),
    {
        self.lemma_sweep_kept(row, 0, 1, self.width);
        self.lemma_sweep_kept(row, self.width - 1, -1, self.width);
    }

    /// Visiting the lowest rows keeps the invariant.
    pub proof fn lemma_scanned_kept(self, rows: nat)
        requires
            self.wf(),
            rows <= self.height,
        ensures
            self.kept_by(self.scanned(rows)),
        decreases rows,
    {
        if rows > 0 {
            self.lemma_row_scanned_kept(rows - 1);
            self.row_scanned(rows - 1).lemma_scanned_kept((rows - 1) as nat);
        }
    }

    /// A tick takes a well-formed state to a well-formed state of the same
    /// dimensions: the buffers still cover the grid exactly and every cell
    /// byte still names a material.
    pub proof fn lemma_ticked_wf(self)
        requires
            self.wf(),
        ensures
            self.ticked().wf(),
            self.ticked().width == self.width,
            self.ticked().height == self.height,
    {
        let g = self.begun().diffused();
        g.lemma_scanned_kept(g.height);
    }

    /// After any number of ticks the state is well formed and of the same
    /// dimensions.
    pub proof fn lemma_ticks_wf(self, n: nat)
        requires
            self.wf(),
        ensures
            self.ticks(n).wf(),
            self.ticks(n).width == self.width,
            self.ticks(n).height == self.height,
        decreases n,
    {
        if n > 0 {
            self.lemma_ticked_wf();
            self.ticked().lemma_ticks_wf((n - 1) as nat);
        }
    }
}

} // verus!
