//! Laws of the simulation: what holds of every state and every run.

use crate::grid::{exchange, lemma_at_in_range, lemma_at_row_col, lemma_row_col, Grid};
use crate::material::{Cell, Phase, AMBIENT};
use crate::motion::first_side;
use crate::reaction::{BLAST_RADIUS, SPARKS};
use crate::universe::Universe;
use vstd::prelude::*;

verus! {

/// Exchanging two entries of a sequence changes neither which values it holds
/// nor how often it holds each.
pub proof fn lemma_exchange_keeps_multiset<A>(s: Seq<A>, i: int, j: int)
    requires
        0 <= i < s.len(),
        0 <= j < s.len(),
    ensures
        exchange(s, i, j).to_multiset() == s.to_multiset(),
{
    broadcast use vstd::multiset::group_multiset_axioms;

    let mid = s.update(i, s[j]);
    let end = mid.update(j, s[i]);
    assert(mid.len() == s.len());
    assert(mid[j] == s[j]);
    vstd::seq_lib::to_multiset_update(s, i, s[j]);
    vstd::seq_lib::to_multiset_update(mid, j, s[i]);
    s.to_multiset_ensures();
    assert(s.contains(s[i]));
    assert(s.contains(s[j]));
    let m0 = s.to_multiset();
    assert forall|v: A| end.to_multiset().count(v) == m0.count(v) by {
        assert(m0.count(s[i]) > 0);
        assert(m0.count(s[j]) > 0);
    }
    assert(end.to_multiset() =~= m0);
}

impl Grid {
    /// Whether `next` is this state after a move of the cell at `i`: either
    /// no cell has changed, or the cell at `i` and one other cell have
    /// exchanged material and temperature and both are marked as moved. The
    /// random stream may have advanced.
    pub open spec fn moved_to(self, next: Grid, i: int) -> bool {
        &&& next.same_frame(self)
        &&& {
            ||| (next.cells == self.cells && next.temps == self.temps && next.moved == self.moved)
            ||| exists|j: int|
                0 <= j < self.area() && #[trigger] self.swapped(i, j).cells == next.cells
                    && self.swapped(i, j).temps == next.temps && self.swapped(i, j).moved
                    == next.moved
        }
    }

    /// An exchange with the cell at (`row`, `col`), the random stream
    /// advanced or not, is a move of the cell at `i`.
    proof fn lemma_swap_is_move(self, g: Grid, i: int, row: int, col: int)
        requires
            self.wf(),
            g == self || g == self.drawn(),
            self.in_bounds(row, col),
        ensures
            self.moved_to(g.swapped(i, self.at(row, col)), i),
    {
        lemma_at_in_range(self.width, self.height, row, col);
        let j = self.at(row, col);
        assert(self.swapped(i, j).cells == g.swapped(i, j).cells);
    }

    /// Gravity moves a cell by exchange only: after it acts, either nothing
    /// has changed place or the cell and one other have exchanged places.
    pub proof fn lemma_fall_is_exchange(self, row: int, col: int)
        requires
            self.wf(),
            self.in_bounds(row, col),
        ensures
            self.moved_to(self.fall(row, col), self.at(row, col)),
    {
        let i = self.at(row, col);
        let d = first_side(self.heads());
        let g = self.drawn();
        if self.in_bounds(row + 1, col) {
            self.lemma_swap_is_move(self, i, row + 1, col);
        }
        if g.in_bounds(row + 1, col + d) {
            self.lemma_swap_is_move(g, i, row + 1, col + d);
        }
        if g.in_bounds(row + 1, col - d) {
            self.lemma_swap_is_move(g, i, row + 1, col - d);
        }
        if g.in_bounds(row, col + d) {
            self.lemma_swap_is_move(g, i, row, col + d);
        }
        if g.in_bounds(row, col - d) {
            self.lemma_swap_is_move(g, i, row, col - d);
        }
        if g.in_bounds(row, col + 2 * d) {
            self.lemma_swap_is_move(g, i, row, col + 2 * d);
        }
        if g.in_bounds(row, col - 2 * d) {
            self.lemma_swap_is_move(g, i, row, col - 2 * d);
        }
    }

    /// Buoyancy moves a cell by exchange only.
    pub proof fn lemma_rise_is_exchange(self, row: int, col: int)
        requires
            self.wf(),
            self.in_bounds(row, col),
        ensures
            self.moved_to(self.rise(row, col), self.at(row, col)),
    {
        let i = self.at(row, col);
        let d = first_side(self.heads());
        let g = self.drawn();
        if self.in_bounds(row - 1, col) {
            self.lemma_swap_is_move(self, i, row - 1, col);
        }
        if g.in_bounds(row - 1, col + d) {
            self.lemma_swap_is_move(g, i, row - 1, col + d);
        }
        if g.in_bounds(row - 1, col - d) {
            self.lemma_swap_is_move(g, i, row - 1, col - d);
        }
        if g.in_bounds(row, col + d) {
            self.lemma_swap_is_move(g, i, row, col + d);
        }
        if g.in_bounds(row, col - d) {
            self.lemma_swap_is_move(g, i, row, col - d);
        }
    }

    /// Static cells never move: when gravity or buoyancy has acted on the
    /// cell at (`row`, `col`), every static cell elsewhere holds the material
    /// and the temperature it held before, and under gravity a static cell
    /// stays even if it is itself the one acted on.
    pub proof fn lemma_static_cells_stay(self, row: int, col: int, k: int)
        requires
            self.wf(),
            self.in_bounds(row, col),
            0 <= k < self.area(),
            self.cell(k).phase_of() == Phase::Static,
        ensures
            self.fall(row, col).cells[k] == self.cells[k],
            self.fall(row, col).temps[k] == self.temps[k],
            k != self.at(row, col) ==> self.rise(row, col).cells[k] == self.cells[k]
                && self.rise(row, col).temps[k] == self.temps[k],
    {
        let i = self.at(row, col);
        lemma_at_in_range(self.width, self.height, row, col);
        let d = first_side(self.heads());
        if self.in_bounds(row + 1, col) {
            lemma_at_in_range(self.width, self.height, row + 1, col);
        }
        if self.in_bounds(row - 1, col) {
            lemma_at_in_range(self.width, self.height, row - 1, col);
        }
        if self.in_bounds(row + 1, col + d) {
            lemma_at_in_range(self.width, self.height, row + 1, col + d);
        }
        if self.in_bounds(row + 1, col - d) {
            lemma_at_in_range(self.width, self.height, row + 1, col - d);
        }
        if self.in_bounds(row - 1, col + d) {
            lemma_at_in_range(self.width, self.height, row - 1, col + d);
        }
        if self.in_bounds(row - 1, col - d) {
            lemma_at_in_range(self.width, self.height, row - 1, col - d);
        }
        if self.in_bounds(row, col + d) {
            lemma_at_in_range(self.width, self.height, row, col + d);
        }
        if self.in_bounds(row, col - d) {
            lemma_at_in_range(self.width, self.height, row, col - d);
        }
        if self.in_bounds(row, col + 2 * d) {
            lemma_at_in_range(self.width, self.height, row, col + 2 * d);
        }
        if self.in_bounds(row, col - 2 * d) {
            lemma_at_in_range(self.width, self.height, row, col - 2 * d);
        }
    }

    /// A move loses and duplicates nothing: the grid holds the same
    /// materials, each as often as before, and the same temperatures.
    pub proof fn lemma_move_keeps_mass(self, next: Grid, i: int)
        requires
            self.wf(),
            0 <= i < self.area(),
            self.moved_to(next, i),
        ensures
            next.cells.to_multiset() == self.cells.to_multiset(),
            next.temps.to_multiset() == self.temps.to_multiset(),
    {
        if !(next.cells == self.cells && next.temps == self.temps && next.moved == self.moved) {
            let j = choose|j: int|
                0 <= j < self.area() && #[trigger] self.swapped(i, j).cells == next.cells
                    && self.swapped(i, j).temps == next.temps && self.swapped(i, j).moved
                    == next.moved;
            lemma_exchange_keeps_multiset(self.cells, i, j);
            lemma_exchange_keeps_multiset(self.temps, i, j);
        }
    }

    /// Movement alone conserves mass: when gravity or buoyancy has acted on a
    /// cell, no material and no temperature has appeared or vanished.
    pub proof fn lemma_movement_keeps_mass(self, row: int, col: int)
        requires
            self.wf(),
            self.in_bounds(row, col),
        ensures
            self.fall(row, col).cells.to_multiset() == self.cells.to_multiset(),
            self.fall(row, col).temps.to_multiset() == self.temps.to_multiset(),
            self.rise(row, col).cells.to_multiset() == self.cells.to_multiset(),
            self.rise(row, col).temps.to_multiset() == self.temps.to_multiset(),
    {
        lemma_at_in_range(self.width, self.height, row, col);
        self.lemma_fall_is_exchange(row, col);
        self.lemma_rise_is_exchange(row, col);
        self.lemma_move_keeps_mass(self.fall(row, col), self.at(row, col));
        self.lemma_move_keeps_mass(self.rise(row, col), self.at(row, col));
    }

    /// A brush of radius zero paints the one cell it is centred on and
    /// touches no other; centred outside the grid it paints nothing.
    pub proof fn lemma_paint_point(self, row: int, col: int, m: Cell)
        requires
            self.wf(),
            0 <= row,
            0 <= col,
        ensures
            self.in_bounds(row, col) ==> self.painted(row, col, m, 0) == self.put(
                self.at(row, col),
                m,
            ),
            !self.in_bounds(row, col) ==> self.painted(row, col, m, 0) == self,
    {
        let p = self.painted(row, col, m, 0);
        assert forall|i: int| 0 <= i < self.area() implies (self.covered(row, col, 0, i) <==> (
        self.in_bounds(row, col) && i == self.at(row, col))) by {
            lemma_row_col(self.width, self.height, i);
            let dr = self.row_of(i) - row;
            let dc = self.col_of(i) - col;
            assert(dr * dr + dc * dc <= 0 <==> (dr == 0 && dc == 0)) by (nonlinear_arith);
            if self.in_bounds(row, col) {
                lemma_at_row_col(self.width, row, col);
            }
        }
        if self.in_bounds(row, col) {
            lemma_at_in_range(self.width, self.height, row, col);
            let q = self.put(self.at(row, col), m);
            assert(p.cells =~= q.cells);
            assert(p.temps =~= q.temps);
        } else {
            assert(p.cells =~= self.cells);
            assert(p.temps =~= self.temps);
        }
    }

    /// Sparks leave fire and smoke burning: a cell that is fire or smoke is
    /// still fire or smoke after any number of sparks.
    pub proof fn lemma_sparks_keep_burning(self, row: int, col: int, n: nat, i: int)
        requires
            self.wf(),
            0 <= i < self.area(),
            self.cell(i) == Cell::Fire || self.cell(i) == Cell::Smoke,
        ensures
            self.scattered(row, col, n).cell(i) == Cell::Fire || self.scattered(row, col, n).cell(
                i,
            ) == Cell::Smoke,
        decreases n,
    {
        if n > 0 {
            let next = self.spark(row, col);
            self.lemma_spark_kept(row, col);
            let r = row + (self.roll() % 11) - 5;
            let c = col + (self.drawn().roll() % 11) - 5;
            let g = self.drawn().drawn();
            if g.in_bounds(r, c) {
                lemma_at_in_range(self.width, self.height, r, c);
                let j = g.at(r, c);
                assert(g.drawn().put(j, Cell::Fire).cell(j) == Cell::Fire);
                assert(g.drawn().put(j, Cell::Smoke).cell(j) == Cell::Smoke);
            }
            assert(next.cell(i) == Cell::Fire || next.cell(i) == Cell::Smoke);
            next.lemma_sparks_keep_burning(row, col, (n - 1) as nat, i);
        }
    }

    /// Gunpowder goes off at once: when an unmoved cell of gunpowder with a
    /// neighbour of fire or lava is visited, the visit is the explosion, and
    /// it leaves fire or smoke where the gunpowder was.
    pub proof fn lemma_gunpowder_explodes(self, row: int, col: int)
        requires
            self.wf(),
            self.in_bounds(row, col),
            self.cell(self.at(row, col)) == Cell::Gunpowder,
            !self.moved[self.at(row, col)],
            self.touches_flame(row, col),
        ensures
            self.step(row, col) == self.exploded(row, col),
            self.step(row, col).cell(self.at(row, col)) == Cell::Fire || self.step(row, col).cell(
                self.at(row, col),
            ) == Cell::Smoke,
    {
        let i = self.at(row, col);
        lemma_at_in_range(self.width, self.height, row, col);
        lemma_at_row_col(self.width, row, col);
        let lit = self.painted(row, col, Cell::Fire, BLAST_RADIUS as int);
        assert(self.covered(row, col, BLAST_RADIUS as int, i));
        assert(lit.cell(i) == Cell::Fire);
        self.lemma_painted_kept(row, col, Cell::Fire, BLAST_RADIUS as int);
        lit.lemma_sparks_keep_burning(row, col, SPARKS as nat, i);
    }

    /// Lava is quenched by water: when a cell of lava meets a neighbour of
    /// water, the lava becomes obsidian and the water steam, each at its base
    /// temperature, and nothing else changes.
    pub proof fn lemma_lava_meets_water(self, i: int, j: int)
        requires
            self.wf(),
            0 <= i < self.area(),
            0 <= j < self.area(),
            self.cell(i) == Cell::Lava,
            self.cell(j) == Cell::Water,
        ensures
            self.meet(i, j).1,
            self.meet(i, j).0 == self.put(i, Cell::Obsidian).put(j, Cell::Steam),
            self.meet(i, j).0.cell(i) == Cell::Obsidian,
            self.meet(i, j).0.cell(j) == Cell::Steam,
            self.meet(i, j).0.temps[i] == 20,
            self.meet(i, j).0.temps[j] == 300,
            forall|k: int|
                0 <= k < self.area() && k != i && k != j ==> self.meet(i, j).0.cells[k]
                    == self.cells[k] && self.meet(i, j).0.temps[k] == self.temps[k],
    {
    }

    /// Clearing forgets the cells: whatever the grid held, afterwards every
    /// cell is empty, at ambient temperature and unmoved.
    pub proof fn lemma_cleared_is_blank(self)
        requires
            self.wf(),
        ensures
            self.cleared().wf(),
            self.cleared().same_frame(self),
            self.cleared().rng == self.rng,
            forall|i: int|
                0 <= i < self.area() ==> self.cleared().cell(i) == Cell::Empty
                    && self.cleared().temps[i] == AMBIENT && !self.cleared().moved[i],
            self.cleared() == (Grid {
                rng: self.rng,
                generation: self.generation,
                ..Grid::blank(self.width, self.height, 0)
            }),
    {
        let b = Grid::blank(self.width, self.height, 0);
        assert(self.cleared().cells =~= b.cells);
        assert(self.cleared().temps =~= b.temps);
        assert(self.cleared().moved =~= b.moved);
    }
}

/// The simulation is deterministic: two universes in the same state are in
/// the same state again after the same call, be it a tick, a stroke of the
/// brush or a clearing. Nothing outside the state, such as the contents of
/// the scratch buffer, has any influence.
pub proof fn lemma_same_state_same_future(
    a: &Universe,
    b: &Universe,
    row: u32,
    col: u32,
    color_val: u8,
    radius: i32,
)
    requires
        a.wf(),
        b.wf(),
        a@ == b@,
    ensures
        a@.ticked() == b@.ticked(),
        a@.painted(row as int, col as int, Cell::decode(color_val), radius as int) == b@.painted(
            row as int,
            col as int,
            Cell::decode(color_val),
            radius as int,
        ),
        a@.cleared() == b@.cleared(),
        forall|n: nat| a@.ticks(n) == b@.ticks(n),
{
}

} // verus!
