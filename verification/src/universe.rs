//! The universe: the executable grid with its buffers, and the primitive
//! operations on which the rules are built.

use crate::grid::{lemma_at_in_range, Grid};
use crate::material::{Cell, AMBIENT};
use crate::random::{next_random, SEED};
use vstd::prelude::*;

verus! {

/// A rectangular world of material cells with a temperature field.
pub struct Universe {
    width: u32,
    height: u32,
    cells: Vec<u8>,
    temps: Vec<i16>,
    temps_back: Vec<i16>,
    moved: Vec<bool>,
    rng: u32,
    generation: u8,
}

impl View for Universe {
    type V = Grid;

    closed spec fn view(&self) -> Grid {
        Grid {
            width: self.width as nat,
            height: self.height as nat,
            cells: self.cells@,
            temps: self.temps@,
            moved: self.moved@,
            rng: self.rng,
            generation: self.generation,
        }
    }
}

impl Universe {
    /// The invariant of the type: the state is well formed and the scratch
    /// buffer is as long as the others.
    pub closed spec fn wf(&self) -> bool {
        &&& self@.wf()
        &&& self.temps_back@.len() == self@.area()
    }

    /// The temperatures written so far into the scratch buffer.
    pub closed spec fn staged(&self) -> Seq<i16> {
        self.temps_back@
    }

    /// A well-formed universe has a well-formed state, within 32-bit
    /// dimensions, and a scratch buffer of the grid's size.
    pub proof fn lemma_wf(&self)
        requires
            self.wf(),
        ensures
            self@.wf(),
            self@.width <= u32::MAX,
            self@.height <= u32::MAX,
            self.staged().len() == self@.area(),
    {
    }

    /// A universe of the given size, every cell empty and at ambient
    /// temperature, with a chosen seed for its random stream.
    pub fn with_seed(width: u32, height: u32, seed: u32) -> (u: Universe)
        requires
            width * height <= u32::MAX,
        ensures
            u.wf(),
            u@.wf(),
            u@ == Grid::blank(width as nat, height as nat, seed),
    {
        let n: usize = (width as usize) * (height as usize);
        let u = Universe {
            width,
            height,
            cells: vec![0u8; n],
            temps: vec![AMBIENT; n],
            temps_back: vec![AMBIENT; n],
            moved: vec![false; n],
            rng: seed,
            generation: 0,
        };
        assert(u@.cells =~= Grid::blank(width as nat, height as nat, seed).cells);
        assert(u@.temps =~= Grid::blank(width as nat, height as nat, seed).temps);
        assert(u@.moved =~= Grid::blank(width as nat, height as nat, seed).moved);
        u
    }

    /// A universe of the given size, every cell empty and at ambient
    /// temperature.
    pub fn new(width: u32, height: u32) -> (u: Universe)
        requires
            width * height <= u32::MAX,
        ensures
            u.wf(),
            u@.wf(),
            u@ == Grid::blank(width as nat, height as nat, SEED),
    {
        Universe::with_seed(width, height, SEED)
    }

    /// Number of columns.
    pub fn width(&self) -> (w: u32)
        ensures
            w == self@.width,
    {
        self.width
    }

    /// Number of rows.
    pub fn height(&self) -> (h: u32)
        ensures
            h == self@.height,
    {
        self.height
    }

    /// The generation counter.
    pub(crate) fn generation(&self) -> (g: u8)
        ensures
            g == self@.generation,
    {
        self.generation
    }

    /// The cell buffer: one material byte per cell, row by row.
    pub fn cells(&self) -> (buf: &Vec<u8>)
        ensures
            buf@ == self@.cells,
    {
        &self.cells
    }

    /// The temperature buffer, laid out as the cell buffer.
    pub fn temps(&self) -> (buf: &Vec<i16>)
        ensures
            buf@ == self@.temps,
    {
        &self.temps
    }

    /// Position of a cell in the buffers.
    pub(crate) fn get_index(&self, row: u32, col: u32) -> (idx: usize)
        requires
            self.wf(),
            self@.in_bounds(row as int, col as int),
        ensures
            idx == self@.at(row as int, col as int),
            idx < self@.area(),
    {
        proof {
            lemma_at_in_range(self@.width, self@.height, row as int, col as int);
        }
        (row as usize) * (self.width as usize) + (col as usize)
    }

    /// Position of (`row`, `col`) if that cell lies inside the grid.
    pub(crate) fn locate(&self, row: i64, col: i64) -> (at: Option<usize>)
        requires
            self.wf(),
        ensures
            at.is_some() == self@.in_bounds(row as int, col as int),
            at.is_some() ==> at.unwrap() == self@.at(row as int, col as int) && at.unwrap()
                < self@.area(),
    {
        if row < 0 || row >= self.height as i64 || col < 0 || col >= self.width as i64 {
            None
        } else {
            Some(self.get_index(row as u32, col as u32))
        }
    }

    /// Draws the next value of the random stream.
    pub(crate) fn rand(&mut self) -> (x: u32)
        requires
            old(self).wf(),
        ensures
            final(self).wf(),
            x == old(self)@.roll(),
            final(self)@ == old(self)@.drawn(),
            final(self).staged() == old(self).staged(),
    {
        self.rng = next_random(self.rng);
        self.rng
    }

    /// Draws a coin: heads or tails with equal odds.
    pub(crate) fn toss_coin(&mut self) -> (heads: bool)
        requires
            old(self).wf(),
        ensures
            final(self).wf(),
            heads == old(self)@.heads(),
            final(self)@ == old(self)@.drawn(),
            final(self).staged() == old(self).staged(),
    {
        self.rand() & 1 == 0
    }

    /// Draws once and reports a hit at odds of one in `n`.
    pub(crate) fn chance(&mut self, n: u32) -> (hit: bool)
        requires
            old(self).wf(),
            n > 0,
        ensures
            final(self).wf(),
            hit == old(self)@.hit(n),
            final(self)@ == old(self)@.drawn(),
            final(self).staged() == old(self).staged(),
    {
        self.rand() % n == 0
    }

    /// The material at a position of the buffers.
    pub(crate) fn cell_at(&self, idx: usize) -> (cell: Cell)
        requires
            self.wf(),
            idx < self@.area(),
        ensures
            cell == self@.cell(idx as int),
    {
        Cell::from_code(self.cells[idx])
    }

    /// The temperature at a position of the buffers.
    pub(crate) fn temp_at(&self, idx: usize) -> (t: i16)
        requires
            self.wf(),
            idx < self@.area(),
        ensures
            t == self@.temps[idx as int],
    {
        self.temps[idx]
    }

    /// Whether the cell at a position has changed place during this tick.
    pub(crate) fn has_moved(&self, idx: usize) -> (m: bool)
        requires
            self.wf(),
            idx < self@.area(),
        ensures
            m == self@.moved[idx as int],
    {
        self.moved[idx]
    }

    /// Makes one cell the given material, at its base temperature unless the
    /// material is `Empty`.
    pub(crate) fn set_cell(&mut self, idx: usize, m: Cell)
        requires
            old(self).wf(),
            idx < old(self)@.area(),
        ensures
            final(self).wf(),
            final(self)@ == old(self)@.put(idx as int, m),
            final(self).staged() == old(self).staged(),
    {
        self.cells.set(idx, m.code());
        if m != Cell::Empty {
            self.temps.set(idx, m.base_temp());
        }
    }

    /// Makes one cell the given material without touching its temperature.
    pub(crate) fn set_cell_keeping_heat(&mut self, idx: usize, m: Cell)
        requires
            old(self).wf(),
            idx < old(self)@.area(),
        ensures
            final(self).wf(),
            final(self)@ == old(self)@.put_keeping_heat(idx as int, m),
            final(self).staged() == old(self).staged(),
    {
        self.cells.set(idx, m.code());
    }

    /// Writes one temperature into the scratch buffer.
    pub(crate) fn stage_temp(&mut self, idx: usize, t: i16)
        requires
            old(self).wf(),
            idx < old(self)@.area(),
        ensures
            final(self).wf(),
            final(self)@ == old(self)@,
            final(self).staged() == old(self).staged().update(idx as int, t),
    {
        self.temps_back.set(idx, t);
    }

    /// Makes the scratch buffer the temperature field.
    pub(crate) fn commit_temps(&mut self)
        requires
            old(self).wf(),
        ensures
            final(self).wf(),
            final(self)@ == (Grid { temps: old(self).staged(), ..old(self)@ }),
    {
        core::mem::swap(&mut self.temps, &mut self.temps_back);
    }

    /// Opens a tick: advances the generation and clears the moved flags.
    pub(crate) fn begin_tick(&mut self)
        requires
            old(self).wf(),
        ensures
            final(self).wf(),
            final(self)@ == old(self)@.begun(),
    {
        self.generation = self.generation.wrapping_add(1);
        let n = self.moved.len();
        self.moved = vec![false; n];
        assert(self@.moved =~= old(self)@.begun().moved);
    }

    /// Empties every cell, returns every temperature to ambient and clears
    /// the moved flags.
    pub fn clear(&mut self)
        requires
            old(self).wf(),
        ensures
            final(self).wf(),
            final(self)@.wf(),
            final(self)@ == old(self)@.cleared(),
    {
        let n = self.cells.len();
        self.cells = vec![0u8; n];
        self.temps = vec![AMBIENT; n];
        self.moved = vec![false; n];
        assert(self@.cells =~= old(self)@.cleared().cells);
        assert(self@.temps =~= old(self)@.cleared().temps);
        assert(self@.moved =~= old(self)@.cleared().moved);
    }

    /// Exchanges the contents of two cells and marks both as moved.
    pub(crate) fn swap_cells(&mut self, i: usize, j: usize)
        requires
            old(self).wf(),
            i < old(self)@.area(),
            j < old(self)@.area(),
        ensures
            final(self).wf(),
            final(self)@ == old(self)@.swapped(i as int, j as int),
            final(self).staged() == old(self).staged(),
    {
        let ci = self.cells[i];
        let cj = self.cells[j];
        self.cells.set(i, cj);
        self.cells.set(j, ci);
        let ti = self.temps[i];
        let tj = self.temps[j];
        self.temps.set(i, tj);
        self.temps.set(j, ti);
        self.moved.set(i, true);
        self.moved.set(j, true);
    }
}

} // verus!
