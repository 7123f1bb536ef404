//! How large a grid a window takes, and where on the canvas its lines and
//! cells stand.

use vstd::prelude::*;

verus! {

/// The side of the square in which a cell is drawn.
pub const CELL_SIZE: usize = 3;

/// The width of the line between two cells, and around the grid.
pub const BORDER_SIZE: usize = 1;

/// The extent taken for a window that does not tell its own.
pub const FALLBACK_EXTENT: usize = 400;

/// The inner size of the window in which the grid is shown.
pub struct WindowInfo {
    pub inner_width: usize,
    pub inner_height: usize,
}

/// How many cells fit side by side in `extent`: after the border at the
/// start, each cell takes its own size and the border behind it.
pub open spec fn cells_across(extent: int) -> int {
    if extent < BORDER_SIZE {
        0
    } else {
        (extent - BORDER_SIZE) / (CELL_SIZE + BORDER_SIZE)
    }
}

/// Where the line before the cell of the given index starts, along either
/// axis: each cell before it has taken its own size and one border.
pub open spec fn line_position(index: int) -> int {
    index * (CELL_SIZE + BORDER_SIZE)
}

/// Where the cell of the given index starts, along either axis: behind the
/// line before it.
pub open spec fn cell_position(index: int) -> int {
    line_position(index) + BORDER_SIZE
}

/// The extent that a grid of `cells` cells takes, along either axis: its
/// cells, the lines between them and the line on each side.
pub open spec fn grid_extent(cells: int) -> int {
    line_position(cells) + BORDER_SIZE
}

/// The extent to go by: the one that was measured, or the fallback.
pub open spec fn extent_or_fallback(measured: Option<usize>) -> usize {
    match measured {
        Some(extent) => extent,
        None => FALLBACK_EXTENT,
    }
}

impl WindowInfo {
    /// The size of a window from what could be measured of it. A side that
    /// could not be measured takes the fallback extent.
    pub fn new(inner_width: Option<usize>, inner_height: Option<usize>) -> (info: WindowInfo)
        ensures
            info.inner_width == extent_or_fallback(inner_width),
            info.inner_height == extent_or_fallback(inner_height),
    {
        let width = match inner_width {
            Some(width) => width,
            None => FALLBACK_EXTENT,
        };
        let height = match inner_height {
            Some(height) => height,
            None => FALLBACK_EXTENT,
        };
        WindowInfo { inner_width: width, inner_height: height }
    }

    /// The number of columns of the grid that fills the window.
    pub fn grid_width(&self) -> (columns: usize)
        ensures
            columns == cells_across(self.inner_width as int),
    {
        cells_in(self.inner_width)
    }

    /// The number of rows of the grid that fills the window.
    pub fn grid_height(&self) -> (rows: usize)
        ensures
            rows == cells_across(self.inner_height as int),
    {
        cells_in(self.inner_height)
    }
}

/// Where the line before the cell of the given index starts, or `None` if
/// that is beyond `usize`.
pub fn line_start(index: usize) -> (position: Option<usize>)
    ensures
        position == if line_position(index as int) <= usize::MAX {
            Some(line_position(index as int) as usize)
        } else {
            None
        },
{
    index.checked_mul(CELL_SIZE + BORDER_SIZE)
}

/// Where the cell of the given index starts, or `None` if that is beyond
/// `usize`.
pub fn cell_start(index: usize) -> (position: Option<usize>)
    ensures
        position == if cell_position(index as int) <= usize::MAX {
            Some(cell_position(index as int) as usize)
        } else {
            None
        },
{
    match line_start(index) {
        Some(line) => line.checked_add(BORDER_SIZE),
        None => None,
    }
}

/// The extent that a grid of `cells` cells takes, or `None` if that is
/// beyond `usize`.
pub fn extent_of(cells: usize) -> (extent: Option<usize>)
    ensures
        extent == if grid_extent(cells as int) <= usize::MAX {
            Some(grid_extent(cells as int) as usize)
        } else {
            None
        },
{
    match line_start(cells) {
        Some(line) => line.checked_add(BORDER_SIZE),
        None => None,
    }
}

/// The grid that fills a window is the largest that the window holds: it
/// fits, and with one cell more it would not.
pub proof fn lemma_grid_fills_window(extent: int)
    requires
        extent >= BORDER_SIZE,
    ensures
        cells_across(extent) >= 0,
        grid_extent(cells_across(extent)) <= extent,
        grid_extent(cells_across(extent) + 1) > extent,
{
}

/// A window too small for one cell and the border on each side of it holds
/// no cell.
pub proof fn lemma_no_room(extent: int)
    requires
        extent < CELL_SIZE + 2 * BORDER_SIZE,
    ensures
        cells_across(extent) == 0,
{
}

fn cells_in(extent: usize) -> (count: usize)
    ensures
        count == cells_across(extent as int),
{
    if extent < BORDER_SIZE {
        0
    } else {
        (extent - BORDER_SIZE) / (CELL_SIZE + BORDER_SIZE)
    }
}

} // verus!
