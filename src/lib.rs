//! Conway's Game of Life on a toroidal board, with the pointer-painting and
//! run/pause logic of an interactive canvas session.

pub mod grid;
pub mod session;
pub mod universe;

pub use grid::{Cell, Grid};
pub use session::{Session, SessionState};
pub use universe::Universe;
