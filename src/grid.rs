use vstd::prelude::*;

verus! {

/// The state of one cell of the board.
#[derive(Clone, Copy, Debug, PartialEq, Eq, Structural)]
pub enum Cell {
    Dead,
    Alive,
}

/// 1 for a live cell, 0 for a dead one.
pub open spec fn alive_count(c: Cell) -> nat {
    match c {
        Cell::Alive => 1,
        Cell::Dead => 0,
    }
}

/// The opposite state.
pub open spec fn flipped(c: Cell) -> Cell {
    match c {
        Cell::Alive => Cell::Dead,
        Cell::Dead => Cell::Alive,
    }
}

/// Conway's rule: the next state of a cell in state `c` with `n` live neighbours.
pub open spec fn next_state(c: Cell, n: nat) -> Cell {
    match c {
        Cell::Alive => if n == 2 || n == 3 {
            Cell::Alive
        } else {
            Cell::Dead
        },
        Cell::Dead => if n == 3 {
            Cell::Alive
        } else {
            Cell::Dead
        },
    }
}

/// Conway's rule on a concrete cell and neighbour count: a live cell survives
/// with two or three live neighbours, a dead cell is born with exactly three,
/// every other cell is dead in the next generation.
pub fn next_cell(cell: Cell, live_neighbours: u8) -> (r: Cell)
    ensures
        r == next_state(cell, live_neighbours as nat),
{
    match cell {
        Cell::Alive => if live_neighbours < 2 || live_neighbours > 3 {
            Cell::Dead
        } else {
            Cell::Alive
        },
        Cell::Dead => if live_neighbours == 3 {
            Cell::Alive
        } else {
            Cell::Dead
        },
    }
}

/// The position `d - 1` steps away from `x` on a ring of `n` positions,
/// for `d` in 0, 1, 2: `(x + n - 1 + d) mod n`.
pub open spec fn wrapped(x: int, n: int, d: int) -> int {
    (x + n - 1 + d) % n
}

/// The mathematical board: its size and its cells in row-major order.
pub struct Grid {
    pub width: nat,
    pub height: nat,
    pub cells: Seq<Cell>,
}

impl Grid {
    /// Positive size, and exactly one cell per position.
    pub open spec fn wf(self) -> bool {
        &&& self.width > 0
        &&& self.height > 0
        &&& self.cells.len() == self.width * self.height
    }

    pub open spec fn in_bounds(self, row: int, col: int) -> bool {
        0 <= row < self.height && 0 <= col < self.width
    }

    /// Where the cell at (row, col) lives in the row-major buffer.
    pub open spec fn index(self, row: int, col: int) -> int {
        row * self.width + col
    }

    pub open spec fn cell(self, row: int, col: int) -> Cell {
        self.cells[self.index(row, col)]
    }

    /// 1 if the cell `dr - 1` rows and `dc - 1` columns away from (row, col),
    /// around the torus, is alive.
    pub open spec fn alive_at_offset(self, row: int, col: int, dr: int, dc: int) -> nat {
        alive_count(
            self.cell(
                wrapped(row, self.height as int, dr),
                wrapped(col, self.width as int, dc),
            ),
        )
    }

    /// How many of the eight toroidally wrapped neighbours of (row, col) are alive.
    pub open spec fn live_neighbours(self, row: int, col: int) -> nat {
        self.alive_at_offset(row, col, 0, 0) + self.alive_at_offset(row, col, 0, 1)
            + self.alive_at_offset(row, col, 0, 2) + self.alive_at_offset(row, col, 1, 0)
            + self.alive_at_offset(row, col, 1, 2) + self.alive_at_offset(row, col, 2, 0)
            + self.alive_at_offset(row, col, 2, 1) + self.alive_at_offset(row, col, 2, 2)
    }

    /// The board after one generation: every cell follows the rule, with every
    /// neighbour count taken from this board.
    pub open spec fn next_generation(self) -> Grid {
        Grid {
            width: self.width,
            height: self.height,
            cells: Seq::new(
                self.cells.len(),
                |i: int| next_state(self.cells[i], self.live_neighbours(i / self.width as int, i % self.width as int)),
            ),
        }
    }

    /// The same board with the cell at (row, col) set to `value`.
    pub open spec fn set(self, row: int, col: int, value: Cell) -> Grid {
        Grid { cells: self.cells.update(self.index(row, col), value), ..self }
    }

    /// The same board with the cell at (row, col) flipped.
    pub open spec fn toggle(self, row: int, col: int) -> Grid {
        self.set(row, col, flipped(self.cell(row, col)))
    }

    pub open spec fn all_dead(self) -> bool {
        forall|i: int| 0 <= i < self.cells.len() ==> self.cells[i] == Cell::Dead
    }

    /// A board of the given size with every cell dead.
    pub open spec fn dead(width: nat, height: nat) -> Grid {
        Grid { width, height, cells: Seq::new(width * height, |i: int| Cell::Dead) }
    }
}

/// The index of (row, col) lies in the buffer, and dividing it by the width
/// gives back the row and the column.
pub proof fn lemma_index_in_bounds(g: Grid, row: int, col: int)
    requires
        g.wf(),
        g.in_bounds(row, col),
    ensures
        0 <= g.index(row, col) < g.cells.len(),
        g.index(row, col) / g.width as int == row,
        g.index(row, col) % g.width as int == col,
{
    let w = g.width as int;
    let h = g.height as int;
    assert(0 <= row * w + col < h * w) by (nonlinear_arith)
        requires
            0 <= row < h,
            0 <= col < w,
    ;
    vstd::arithmetic::div_mod::lemma_fundamental_div_mod_converse(row * w + col, w, row, col);
}

/// The flat index `i` of a well-formed board names the position
/// (i / width, i % width), which is on the board.
pub proof fn lemma_position_of_index(g: Grid, i: int)
    requires
        g.wf(),
        0 <= i < g.cells.len(),
    ensures
        g.in_bounds(i / g.width as int, i % g.width as int),
        g.index(i / g.width as int, i % g.width as int) == i,
{
    let w = g.width as int;
    let h = g.height as int;
    vstd::arithmetic::div_mod::lemma_fundamental_div_mod(i, w);
    vstd::arithmetic::div_mod::lemma_mod_pos_bound(i, w);
    vstd::arithmetic::div_mod::lemma_div_pos_is_pos(i, w);
    let q = i / w;
    assert(q < h) by (nonlinear_arith)
        requires
            i == w * q + i % w,
            0 <= i % w,
            i < w * h,
            w > 0,
    ;
    assert(g.index(q, i % w) == q * w + i % w);
    assert(q * w == w * q) by (nonlinear_arith);
}

/// The three positions around `x` on a ring of `n`: the one before, `x`
/// itself, and the one after, wrapping at both ends.
pub proof fn lemma_wrapped_values(x: int, n: int)
    requires
        0 <= x < n,
    ensures
        wrapped(x, n, 0) == if x == 0 { n - 1 } else { x - 1 },
        wrapped(x, n, 1) == x,
        wrapped(x, n, 2) == if x == n - 1 { 0 } else { x + 1 },
{
    vstd::arithmetic::div_mod::lemma_fundamental_div_mod_converse(x + n, n, 1, x);
    if x == 0 {
        vstd::arithmetic::div_mod::lemma_fundamental_div_mod_converse(n - 1, n, 0, n - 1);
    } else {
        vstd::arithmetic::div_mod::lemma_fundamental_div_mod_converse(x + n - 1, n, 1, x - 1);
    }
    if x == n - 1 {
        vstd::arithmetic::div_mod::lemma_fundamental_div_mod_converse(x + n + 1, n, 2, 0);
    } else {
        vstd::arithmetic::div_mod::lemma_fundamental_div_mod_converse(x + n + 1, n, 1, x + 1);
    }
}

/// Every neighbour position of a cell on the board is itself on the board.
pub proof fn lemma_neighbours_in_bounds(g: Grid, row: int, col: int)
    requires
        g.wf(),
        g.in_bounds(row, col),
    ensures
        forall|dr: int, dc: int|
            0 <= dr < 3 && 0 <= dc < 3 ==> #[trigger] g.in_bounds(
                wrapped(row, g.height as int, dr),
                wrapped(col, g.width as int, dc),
            ),
{
    lemma_wrapped_values(row, g.height as int);
    lemma_wrapped_values(col, g.width as int);
    assert forall|dr: int, dc: int| 0 <= dr < 3 && 0 <= dc < 3 implies #[trigger] g.in_bounds(
        wrapped(row, g.height as int, dr),
        wrapped(col, g.width as int, dc),
    ) by {
        assert(dr == 0 || dr == 1 || dr == 2);
        assert(dc == 0 || dc == 1 || dc == 2);
    }
}

/// The next generation has the size of the board it came from, and is well
/// formed when that board is.
pub proof fn lemma_next_generation_keeps_size(g: Grid)
    ensures
        g.next_generation().width == g.width,
        g.next_generation().height == g.height,
        g.next_generation().cells.len() == g.cells.len(),
        g.wf() ==> g.next_generation().wf(),
{
}

/// On a board where every cell is dead, no cell is born: the next generation
/// is all dead too.
pub proof fn lemma_dead_board_stays_dead(g: Grid)
    requires
        g.wf(),
        g.all_dead(),
    ensures
        g.next_generation().all_dead(),
{
    let w = g.width as int;
    let h = g.height as int;
    assert forall|i: int| 0 <= i < g.next_generation().cells.len() implies g.next_generation().cells[i]
        == Cell::Dead by {
        let (r, c) = (i / w, i % w);
        lemma_position_of_index(g, i);
        lemma_neighbours_in_bounds(g, r, c);
        assert forall|dr: int, dc: int| 0 <= dr < 3 && 0 <= dc < 3 implies g.alive_at_offset(
            r,
            c,
            dr,
            dc,
        ) == 0 by {
            assert(g.in_bounds(wrapped(r, h, dr), wrapped(c, w, dc)));
            lemma_index_in_bounds(g, wrapped(r, h, dr), wrapped(c, w, dc));
        }
        assert(g.live_neighbours(r, c) == 0);
    }
}

/// A live cell none of whose neighbours is alive dies of isolation. On a board
/// at least two cells wide and high, no cell is its own neighbour, so this is
/// the fate of a live cell that is alone on the board.
pub proof fn lemma_lone_cell_dies(g: Grid, row: int, col: int)
    requires
        g.wf(),
        g.width >= 2,
        g.height >= 2,
        g.in_bounds(row, col),
        g.cell(row, col) == Cell::Alive,
        forall|r: int, c: int|
            g.in_bounds(r, c) && (r != row || c != col) ==> #[trigger] g.cell(r, c) == Cell::Dead,
    ensures
        g.next_generation().cell(row, col) == Cell::Dead,
{
    let w = g.width as int;
    let h = g.height as int;
    lemma_index_in_bounds(g, row, col);
    lemma_wrapped_values(row, h);
    lemma_wrapped_values(col, w);
    lemma_neighbours_in_bounds(g, row, col);
    assert forall|dr: int, dc: int|
        0 <= dr < 3 && 0 <= dc < 3 && (dr != 1 || dc != 1) implies g.alive_at_offset(
        row,
        col,
        dr,
        dc,
    ) == 0 by {
        assert(g.in_bounds(wrapped(row, h, dr), wrapped(col, w, dc)));
        assert(g.cell(wrapped(row, h, dr), wrapped(col, w, dc)) == Cell::Dead);
    }
    assert(g.live_neighbours(row, col) == 0);
}

/// Neighbours wrap along a single row: the left neighbour of the first column
/// is the last column, and the right neighbour of the last column is the first.
pub proof fn lemma_single_row_wraps(g: Grid)
    requires
        g.wf(),
        g.height == 1,
    ensures
        g.alive_at_offset(0, 0, 1, 0) == alive_count(g.cell(0, g.width - 1)),
        g.alive_at_offset(0, g.width - 1, 1, 2) == alive_count(g.cell(0, 0)),
{
    lemma_wrapped_values(0, 1);
    lemma_wrapped_values(0, g.width as int);
    lemma_wrapped_values(g.width - 1, g.width as int);
}

/// On a board of one cell, all eight neighbour positions are that cell.
pub proof fn lemma_single_cell_counts_itself(g: Grid)
    requires
        g.wf(),
        g.width == 1,
        g.height == 1,
    ensures
        g.live_neighbours(0, 0) == 8 * alive_count(g.cell(0, 0)),
{
    lemma_wrapped_values(0, 1);
}

/// Setting a cell twice to the same value is the same as setting it once, and
/// the cell then holds that value.
pub proof fn lemma_set_idempotent(g: Grid, row: int, col: int, value: Cell)
    requires
        g.wf(),
        g.in_bounds(row, col),
    ensures
        g.set(row, col, value).set(row, col, value) == g.set(row, col, value),
        g.set(row, col, value).cell(row, col) == value,
        g.set(row, col, value).wf(),
{
    lemma_index_in_bounds(g, row, col);
    assert(g.set(row, col, value).set(row, col, value).cells =~= g.set(row, col, value).cells);
}

/// Toggling flips a cell (a dead cell comes alive, a live one dies), and
/// toggling the same cell twice gives back the board.
pub proof fn lemma_toggle_involution(g: Grid, row: int, col: int)
    requires
        g.wf(),
        g.in_bounds(row, col),
    ensures
        g.toggle(row, col).cell(row, col) == flipped(g.cell(row, col)),
        g.cell(row, col) == Cell::Dead ==> g.toggle(row, col).cell(row, col) == Cell::Alive,
        g.cell(row, col) == Cell::Alive ==> g.toggle(row, col).cell(row, col) == Cell::Dead,
        g.toggle(row, col).toggle(row, col) == g,
{
    lemma_index_in_bounds(g, row, col);
    assert(g.toggle(row, col).toggle(row, col).cells =~= g.cells);
}

} // verus!
