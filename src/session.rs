use vstd::prelude::*;

use crate::grid::{lemma_set_idempotent, Cell, Grid};
use crate::universe::Universe;

verus! {

/// The pointer button that paints dead cells (the secondary button).
pub const ERASE_BUTTON: i16 = 2;

/// The value a pointer press paints: dead for the secondary button, alive for
/// any other.
pub open spec fn paint_value(button: int) -> Cell {
    if button == ERASE_BUTTON as int {
        Cell::Dead
    } else {
        Cell::Alive
    }
}

/// The board position under the canvas point (x, y), in device pixels, when
/// cells are `cell_size` pixels wide: row floor(y / cell_size) and column
/// floor(x / cell_size), if that is on a `width` by `height` board.
pub open spec fn point_to_cell(x: int, y: int, cell_size: int, width: int, height: int) -> Option<
    (int, int),
> {
    let row = y / cell_size;
    let col = x / cell_size;
    if 0 <= row < height && 0 <= col < width {
        Some((row, col))
    } else {
        None
    }
}

/// The board with the cell under (x, y) set to `value`, or the board itself
/// when the point is off the board.
pub open spec fn paint_at(g: Grid, x: int, y: int, cell_size: int, value: Cell) -> Grid {
    match point_to_cell(x, y, cell_size, g.width as int, g.height as int) {
        Some((row, col)) => g.set(row, col, value),
        None => g,
    }
}

/// The text of the run/pause control: what pressing it would do next.
pub open spec fn label_for(running: bool) -> Seq<char> {
    if running {
        "Pause"@
    } else {
        "Play"@
    }
}

/// The mathematical state of an interactive session.
pub struct SessionState {
    /// The board.
    pub grid: Grid,
    /// The value being painted while a pointer button is held, or `None`.
    pub paint: Option<Cell>,
    /// Whether the board advances on its own.
    pub running: bool,
    /// Frames seen so far, modulo 2^64.
    pub frame: nat,
    /// The board advances on every `throttle`-th frame.
    pub throttle: nat,
    /// The side of a cell in device pixels.
    pub cell_size: nat,
}

impl SessionState {
    pub open spec fn wf(self) -> bool {
        &&& self.grid.wf()
        &&& self.throttle > 0
        &&& self.cell_size > 0
        &&& self.frame <= u64::MAX
    }

    /// A press of `button` at (x, y): painting starts with the button's value
    /// and the cell under the point takes it.
    pub open spec fn pointer_down(self, button: int, x: int, y: int) -> SessionState {
        let value = paint_value(button);
        SessionState {
            grid: paint_at(self.grid, x, y, self.cell_size as int, value),
            paint: Some(value),
            ..self
        }
    }

    /// The pointer moves to (x, y): while painting, the cell under it takes the
    /// paint value; otherwise nothing happens.
    pub open spec fn pointer_move(self, x: int, y: int) -> SessionState {
        match self.paint {
            Some(value) => SessionState {
                grid: paint_at(self.grid, x, y, self.cell_size as int, value),
                ..self
            },
            None => self,
        }
    }

    /// The button is released or the pointer leaves the canvas: painting stops.
    pub open spec fn pointer_release(self) -> SessionState {
        SessionState { paint: None, ..self }
    }

    /// The run/pause control is pressed.
    pub open spec fn toggle_run(self) -> SessionState {
        SessionState { running: !self.running, ..self }
    }

    /// Whether the frame after this one advances the board.
    pub open spec fn advances_on_next_frame(self) -> bool {
        self.running && ((self.frame + 1) % 0x1_0000_0000_0000_0000) % self.throttle == 0
    }

    /// One animation frame: the frame counter moves on, and on every
    /// `throttle`-th frame of a running session the board advances a generation.
    pub open spec fn frame_step(self) -> SessionState {
        SessionState {
            frame: ((self.frame + 1) % 0x1_0000_0000_0000_0000) as nat,
            grid: if self.advances_on_next_frame() {
                self.grid.next_generation()
            } else {
                self.grid
            },
            ..self
        }
    }

    /// The state after `n` animation frames.
    pub open spec fn frames(self, n: nat) -> SessionState
        decreases n,
    {
        if n == 0 {
            self
        } else {
            self.frames((n - 1) as nat).frame_step()
        }
    }
}

/// A negative number divided by a positive one is negative.
proof fn lemma_negative_div(x: int, d: int)
    requires
        x < 0,
        d > 0,
    ensures
        x / d < 0,
{
    vstd::arithmetic::div_mod::lemma_fundamental_div_mod(x, d);
    vstd::arithmetic::div_mod::lemma_mod_bound(x, d);
    let q = x / d;
    if q >= 0 {
        assert(d * q >= 0) by (nonlinear_arith)
            requires
                d > 0,
                q >= 0,
        ;
    }
}

/// The cell under the canvas point (x, y), as (row, column), if it is on a
/// `width` by `height` board of `cell_size`-pixel cells.
pub fn grid_position(x: i64, y: i64, cell_size: u32, width: u32, height: u32) -> (r: Option<
    (u32, u32),
>)
    requires
        cell_size > 0,
    ensures
        r matches Some((row, col)) ==> point_to_cell(
            x as int,
            y as int,
            cell_size as int,
            width as int,
            height as int,
        ) == Some((row as int, col as int)),
        r is None ==> point_to_cell(x as int, y as int, cell_size as int, width as int, height as int)
            is None,
{
    if x < 0 || y < 0 {
        proof {
            if x < 0 {
                lemma_negative_div(x as int, cell_size as int);
            } else {
                lemma_negative_div(y as int, cell_size as int);
            }
        }
        return None;
    }
    let cs = cell_size as i64;
    let row = y / cs;
    let col = x / cs;
    if row < height as i64 && col < width as i64 {
        Some((row as u32, col as u32))
    } else {
        None
    }
}

/// The text of the run/pause control for a session that is `running`.
pub fn run_label(running: bool) -> (r: &'static str)
    ensures
        r@ == label_for(running),
{
    if running {
        "Pause"
    } else {
        "Play"
    }
}

/// An interactive session: the board, the painting state of the pointer, the
/// run flag and the frame counter of the animation loop. Each event of the
/// host page goes to one method.
pub struct Session {
    universe: Universe,
    paint: Option<Cell>,
    running: bool,
    frame_count: u64,
    throttle: u64,
    cell_size: u32,
}

impl View for Session {
    type V = SessionState;

    closed spec fn view(&self) -> SessionState {
        SessionState {
            grid: self.universe@,
            paint: self.paint,
            running: self.running,
            frame: self.frame_count as nat,
            throttle: self.throttle as nat,
            cell_size: self.cell_size as nat,
        }
    }
}

impl Session {
    pub open spec fn wf(&self) -> bool {
        self@.wf()
    }

    /// A running session on `universe`, with no pointer button held and the
    /// frame counter at zero. The board advances every `throttle` frames and
    /// each cell is `cell_size` device pixels wide.
    pub fn with_universe(universe: Universe, cell_size: u32, throttle: u64) -> (s: Session)
        requires
            universe.wf(),
            cell_size > 0,
            throttle > 0,
        ensures
            s.wf(),
            s@ == (SessionState {
                grid: universe@,
                paint: None,
                running: true,
                frame: 0,
                throttle: throttle as nat,
                cell_size: cell_size as nat,
            }),
    {
        Session { universe, paint: None, running: true, frame_count: 0, throttle, cell_size }
    }

    /// A running session on a `width` by `height` board of dead cells.
    pub fn new(width: u32, height: u32, cell_size: u32, throttle: u64) -> (s: Session)
        requires
            width > 0,
            height > 0,
            width as nat * height as nat <= usize::MAX,
            cell_size > 0,
            throttle > 0,
        ensures
            s.wf(),
            s@ == (SessionState {
                grid: Grid::dead(width as nat, height as nat),
                paint: None,
                running: true,
                frame: 0,
                throttle: throttle as nat,
                cell_size: cell_size as nat,
            }),
    {
        Session::with_universe(Universe::with_size(width, height), cell_size, throttle)
    }

    pub fn universe(&self) -> (r: &Universe)
        ensures
            r@ == self@.grid,
            self.wf() ==> r.wf(),
    {
        &self.universe
    }

    pub fn is_running(&self) -> (r: bool)
        ensures
            r == self@.running,
    {
        self.running
    }

    /// The value being painted, or `None` when no pointer button is held.
    pub fn paint_value(&self) -> (r: Option<Cell>)
        ensures
            r == self@.paint,
    {
        self.paint
    }

    pub fn frame_count(&self) -> (r: u64)
        ensures
            r == self@.frame,
    {
        self.frame_count
    }

    pub fn cell_size(&self) -> (r: u32)
        ensures
            r == self@.cell_size,
    {
        self.cell_size
    }

    /// Sets the cell under the canvas point (x, y) to `value`; a point off
    /// the board is ignored.
    fn paint_point(&mut self, x: i64, y: i64, value: Cell)
        requires
            old(self).wf(),
        ensures
            final(self).wf(),
            final(self)@ == (SessionState {
                grid: paint_at(old(self)@.grid, x as int, y as int, old(self)@.cell_size as int, value),
                ..old(self)@
            }),
    {
        let pos = grid_position(x, y, self.cell_size, self.universe.width(), self.universe.height());
        match pos {
            Some((row, col)) => self.universe.set(row, col, value),
            None => {},
        }
    }

    /// A pointer button goes down at the canvas point (x, y): painting starts,
    /// with dead cells for the secondary button and live ones for any other,
    /// and the cell under the point is painted at once.
    pub fn on_pointer_down(&mut self, button: i16, x: i64, y: i64)
        requires
            old(self).wf(),
        ensures
            final(self).wf(),
            final(self)@ == old(self)@.pointer_down(button as int, x as int, y as int),
    {
        let value = if button == ERASE_BUTTON {
            Cell::Dead
        } else {
            Cell::Alive
        };
        self.paint = Some(value);
        self.paint_point(x, y, value);
    }

    /// The pointer moves to the canvas point (x, y): while a button is held
    /// the cell under it is painted; otherwise nothing changes.
    pub fn on_pointer_move(&mut self, x: i64, y: i64)
        requires
            old(self).wf(),
        ensures
            final(self).wf(),
            final(self)@ == old(self)@.pointer_move(x as int, y as int),
    {
        match self.paint {
            Some(value) => self.paint_point(x, y, value),
            None => {},
        }
    }

    /// The pointer button is released: painting stops.
    pub fn on_pointer_up(&mut self)
        requires
            old(self).wf(),
        ensures
            final(self).wf(),
            final(self)@ == old(self)@.pointer_release(),
    {
        self.paint = None;
    }

    /// The pointer leaves the canvas: painting stops.
    pub fn on_pointer_leave(&mut self)
        requires
            old(self).wf(),
        ensures
            final(self).wf(),
            final(self)@ == old(self)@.pointer_release(),
    {
        self.paint = None;
    }

    /// The run/pause control is pressed: the run flag flips, and the new text
    /// of the control is returned.
    pub fn on_toggle_run_pause(&mut self) -> (label: &'static str)
        requires
            old(self).wf(),
        ensures
            final(self).wf(),
            final(self)@ == old(self)@.toggle_run(),
            label@ == label_for(final(self)@.running),
    {
        self.running = !self.running;
        run_label(self.running)
    }

    /// One animation frame: the frame counter moves on (wrapping at 2^64), and
    /// when the session is running and the new count is a multiple of the
    /// throttle, the board advances a generation. Returns whether it did. The
    /// board is to be drawn after every frame, whether or not it advanced.
    pub fn on_animation_frame(&mut self) -> (advanced: bool)
        requires
            old(self).wf(),
        ensures
            final(self).wf(),
            final(self)@ == old(self)@.frame_step(),
            advanced == old(self)@.advances_on_next_frame(),
    {
        self.frame_count = self.frame_count.wrapping_add(1);
        let advanced = self.running && self.frame_count % self.throttle == 0;
        if advanced {
            self.universe.tick();
        }
        advanced
    }
}

/// Pressing the run/pause control twice gives back the state it started from.
pub proof fn lemma_toggle_run_twice(s: SessionState)
    ensures
        s.toggle_run().toggle_run() == s,
        s.toggle_run().running == !s.running,
{
}

/// While a session is paused, no number of animation frames changes the board
/// or the run flag.
pub proof fn lemma_paused_frames_keep_grid(s: SessionState, n: nat)
    requires
        !s.running,
    ensures
        s.frames(n).grid == s.grid,
        !s.frames(n).running,
    decreases n,
{
    if n > 0 {
        lemma_paused_frames_keep_grid(s, (n - 1) as nat);
    }
}

/// A press at canvas point (0, 0) paints the top-left cell with the button's
/// value.
pub proof fn lemma_press_at_origin(s: SessionState, button: int)
    requires
        s.wf(),
    ensures
        s.pointer_down(button, 0, 0).grid == s.grid.set(0, 0, paint_value(button)),
        s.pointer_down(button, 0, 0).grid.cell(0, 0) == paint_value(button),
{
    lemma_set_idempotent(s.grid, 0, 0, paint_value(button));
}

/// A press right of the last column, or below the last row, is ignored: the
/// board is left as it was.
pub proof fn lemma_press_off_board_ignored(s: SessionState, button: int, x: int, y: int)
    requires
        s.wf(),
        x >= s.grid.width * s.cell_size || y >= s.grid.height * s.cell_size,
    ensures
        s.pointer_down(button, x, y).grid == s.grid,
{
    let cs = s.cell_size as int;
    if x >= s.grid.width * cs {
        vstd::arithmetic::div_mod::lemma_div_is_ordered(s.grid.width * cs, x, cs);
        vstd::arithmetic::div_mod::lemma_div_multiples_vanish(s.grid.width as int, cs);
    } else {
        vstd::arithmetic::div_mod::lemma_div_is_ordered(s.grid.height * cs, y, cs);
        vstd::arithmetic::div_mod::lemma_div_multiples_vanish(s.grid.height as int, cs);
    }
}

} // verus!
