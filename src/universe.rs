use vstd::prelude::*;

use crate::grid::{alive_count, lemma_index_in_bounds, next_cell, wrapped, Cell, Grid};

verus! {

/// A toroidal board of cells, stored row by row.
pub struct Universe {
    width: u32,
    height: u32,
    cells: Vec<Cell>,
}

impl View for Universe {
    type V = Grid;

    closed spec fn view(&self) -> Grid {
        Grid { width: self.width as nat, height: self.height as nat, cells: self.cells@ }
    }
}

/// The side of the board that `Universe::new` makes.
pub const DEFAULT_SIDE: u32 = 150;

impl Universe {
    /// A `width` by `height` board with every cell dead.
    pub fn with_size(width: u32, height: u32) -> (u: Universe)
        requires
            width > 0,
            height > 0,
            width as nat * height as nat <= usize::MAX,
        ensures
            u.wf(),
            u@ == Grid::dead(width as nat, height as nat),
    {
        let n = width as usize * height as usize;
        let mut cells: Vec<Cell> = Vec::with_capacity(n);
        let mut i: usize = 0;
        while i < n
            invariant
                i <= n,
                cells@.len() == i,
                forall|j: int| 0 <= j < i ==> cells@[j] == Cell::Dead,
            decreases n - i,
        {
            cells.push(Cell::Dead);
            i += 1;
        }
        let u = Universe { width, height, cells };
        assert(u@.cells =~= Grid::dead(width as nat, height as nat).cells);
        u
    }

    /// The default board: 150 by 150 cells, all dead.
    pub fn new() -> (u: Universe)
        ensures
            u.wf(),
            u@ == Grid::dead(DEFAULT_SIDE as nat, DEFAULT_SIDE as nat),
    {
        Universe::with_size(DEFAULT_SIDE, DEFAULT_SIDE)
    }

    pub fn width(&self) -> (r: u32)
        ensures
            r == self@.width,
    {
        self.width
    }

    pub fn height(&self) -> (r: u32)
        ensures
            r == self@.height,
    {
        self.height
    }

    /// The cells in row-major order.
    pub fn cells(&self) -> (r: &[Cell])
        ensures
            r@ == self@.cells,
    {
        self.cells.as_slice()
    }

    /// The cell at (row, column).
    pub fn get(&self, row: u32, column: u32) -> (r: Cell)
        requires
            self.wf(),
            self@.in_bounds(row as int, column as int),
        ensures
            r == self@.cell(row as int, column as int),
    {
        let idx = self.get_index(row, column);
        self.cells[idx]
    }

    /// Overwrites the cell at (row, column) with `value`.
    pub fn set(&mut self, row: u32, column: u32, value: Cell)
        requires
            old(self).wf(),
            old(self)@.in_bounds(row as int, column as int),
        ensures
            final(self).wf(),
            final(self)@ == old(self)@.set(row as int, column as int, value),
    {
        let idx = self.get_index(row, column);
        self.cells.set(idx, value);
    }

    /// Flips the cell at (row, column) between alive and dead.
    pub fn toggle_cell(&mut self, row: u32, column: u32)
        requires
            old(self).wf(),
            old(self)@.in_bounds(row as int, column as int),
        ensures
            final(self).wf(),
            final(self)@ == old(self)@.toggle(row as int, column as int),
    {
        let idx = self.get_index(row, column);
        let flip = match self.cells[idx] {
            Cell::Alive => Cell::Dead,
            Cell::Dead => Cell::Alive,
        };
        self.cells.set(idx, flip);
    }

    /// The board's size is positive and its buffer holds one cell per position.
    pub open spec fn wf(&self) -> bool {
        self@.wf()
    }

    /// Where the cell at (row, column) lives in the buffer.
    pub fn get_index(&self, row: u32, column: u32) -> (r: usize)
        requires
            self.wf(),
            self@.in_bounds(row as int, column as int),
        ensures
            r == self@.index(row as int, column as int),
            r < self@.cells.len(),
    {
        proof {
            lemma_index_in_bounds(self@, row as int, column as int);
        }
        let n = self.cells.len();
        let w = self.width as usize;
        let r = row as usize;
        assert(r * w + column as usize == self@.index(row as int, column as int));
        assert(r * w < n);
        r * w + column as usize
    }

    /// 1 if the cell at (row, column) is alive, else 0.
    fn alive_at(&self, row: u32, column: u32) -> (r: u8)
        requires
            self.wf(),
            self@.in_bounds(row as int, column as int),
        ensures
            r == alive_count(self@.cell(row as int, column as int)),
    {
        let idx = self.get_index(row, column);
        match self.cells[idx] {
            Cell::Alive => 1,
            Cell::Dead => 0,
        }
    }

    /// How many of the eight neighbours of (row, column) are alive; rows and
    /// columns wrap around the edges, so on a board one cell wide or high a
    /// cell can be its own neighbour.
    pub fn live_neighbour_count(&self, row: u32, column: u32) -> (r: u8)
        requires
            self.wf(),
            self@.in_bounds(row as int, column as int),
        ensures
            r == self@.live_neighbours(row as int, column as int),
            r <= 8,
    {
        let h = self.height as u64;
        let w = self.width as u64;
        let up = ((row as u64 + h - 1) % h) as u32;
        let down = ((row as u64 + h + 1) % h) as u32;
        let left = ((column as u64 + w - 1) % w) as u32;
        let right = ((column as u64 + w + 1) % w) as u32;
        proof {
            let (ri, hi, ci, wi) = (row as int, h as int, column as int, w as int);
            vstd::arithmetic::div_mod::lemma_fundamental_div_mod_converse(ri + hi, hi, 1, ri);
            vstd::arithmetic::div_mod::lemma_fundamental_div_mod_converse(ci + wi, wi, 1, ci);
            assert(wrapped(ri, hi, 1) == ri);
            assert(wrapped(ci, wi, 1) == ci);
        }
        let count = self.alive_at(up, left) + self.alive_at(up, column) + self.alive_at(up, right)
            + self.alive_at(row, left) + self.alive_at(row, right) + self.alive_at(down, left)
            + self.alive_at(down, column) + self.alive_at(down, right);
        count
    }

    /// Advances the board by one generation. Every neighbour count is read
    /// from the board as it was before the call, and the size never changes.
    pub fn tick(&mut self)
        requires
            old(self).wf(),
        ensures
            final(self).wf(),
            final(self)@ == old(self)@.next_generation(),
            final(self)@.width == old(self)@.width,
            final(self)@.height == old(self)@.height,
    {
        let ghost g = self@;
        let ghost after = g.next_generation();
        let mut next: Vec<Cell> = Vec::with_capacity(self.cells.len());
        let mut row: u32 = 0;
        while row < self.height
            invariant
                self@ == g,
                g.wf(),
                after == g.next_generation(),
                row <= g.height,
                next@.len() == row * g.width,
                forall|i: int| 0 <= i < next@.len() ==> next@[i] == after.cells[i],
            decreases self.height - row,
        {
            let mut col: u32 = 0;
            while col < self.width
                invariant
                    self@ == g,
                    g.wf(),
                    after == g.next_generation(),
                    row < g.height,
                    col <= g.width,
                    next@.len() == row * g.width + col,
                    forall|i: int| 0 <= i < next@.len() ==> next@[i] == after.cells[i],
                decreases self.width - col,
            {
                let idx = self.get_index(row, col);
                let n = self.live_neighbour_count(row, col);
                proof {
                    lemma_index_in_bounds(g, row as int, col as int);
                }
                next.push(next_cell(self.cells[idx], n));
                col += 1;
            }
            assert(row * g.width + g.width == (row + 1) * g.width) by (nonlinear_arith);
            row += 1;
        }
        assert(next@.len() == g.cells.len()) by (nonlinear_arith)
            requires
                next@.len() == g.height * g.width,
                g.cells.len() == g.width * g.height,
        ;
        assert(next@ =~= after.cells);
        self.cells = next;
    }
}

} // verus!
