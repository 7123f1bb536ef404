//! Conway's Game of Life on a torus: a grid of cells whose edges wrap around,
//! advanced one generation at a time.
//!
//! `grid` holds the mathematical model and `laws` what is proved of it;
//! `universe` is the executable grid, `layout` the size of the grid that
//! fills a window, `driver` the decisions of the loop that shows it.

pub mod bitset;
pub mod driver;
pub mod grid;
pub mod laws;
pub mod layout;
pub mod universe;

pub use driver::{Driver, FrameAction};
pub use layout::WindowInfo;
pub use universe::{GridError, Universe};
