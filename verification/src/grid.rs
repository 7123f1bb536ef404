//! The mathematical model: a grid of cells on a torus and the rule that takes
//! it from one generation to the next.

use vstd::prelude::*;

verus! {

/// A grid as a value: its dimensions and the state of each cell, row by row
/// (`true` is alive).
pub struct Grid {
    pub width: nat,
    pub height: nat,
    pub cells: Seq<bool>,
}

/// The rule of the game: what a cell is in the next generation, given what
/// it is now and how many of its eight neighbours are alive.
pub open spec fn next_cell(alive: bool, live_neighbors: int) -> bool {
    if alive {
        if live_neighbors < 2 {
            false
        } else if live_neighbors <= 3 {
            true
        } else {
            false
        }
    } else {
        live_neighbors == 3
    }
}

/// The character that stands for a cell in the text of a grid: a black
/// square for a live cell, a white square for a dead one.
pub open spec fn glyph(alive: bool) -> char {
    if alive {
        '\u{25FC}'
    } else {
        '\u{25FB}'
    }
}

/// The sample that stands for one half. A sample is a `u64` read as a binary
/// fraction: `s` stands for `s / 2^64`, a number from 0 up to, but not
/// including, 1.
pub const SAMPLE_HALF: u64 = 0x8000_0000_0000_0000;

/// Whether a cell seeded with `sample` starts alive: it does if the sample is
/// more than one half, and is dead if the sample is one half or less.
pub open spec fn sample_alive(sample: u64) -> bool {
    sample > SAMPLE_HALF
}

impl Grid {
    /// Both dimensions are positive and there is one cell per coordinate.
    pub open spec fn wf(self) -> bool {
        &&& self.width >= 1
        &&& self.height >= 1
        &&& self.cells.len() == self.width * self.height
    }

    /// The grid of the given dimensions in which every cell is dead.
    pub open spec fn blank(width: nat, height: nat) -> Grid {
        Grid { width, height, cells: Seq::new(width * height, |i: int| false) }
    }

    /// The grid of the given dimensions seeded with one sample per cell, row
    /// by row.
    pub open spec fn seeded(width: nat, height: nat, samples: Seq<u64>) -> Grid {
        Grid {
            width,
            height,
            cells: Seq::new(samples.len(), |i: int| sample_alive(samples[i])),
        }
    }

    /// Where the cell at (`row`, `col`) stands in `cells`.
    pub open spec fn index(self, row: int, col: int) -> int {
        row * self.width + col
    }

    /// Whether the cell at (`row`, `col`) is alive. The coordinates may be
    /// any integers: they wrap around the edges of the grid.
    pub open spec fn alive(self, row: int, col: int) -> bool {
        self.cells[self.index(row % (self.height as int), col % (self.width as int))]
    }

    /// 1 if the cell at (`row`, `col`) is alive, 0 if it is dead.
    pub open spec fn population(self, row: int, col: int) -> int {
        if self.alive(row, col) {
            1
        } else {
            0
        }
    }

    /// How many of the eight cells around (`row`, `col`) are alive. On a grid
    /// one or two cells wide or high, one cell stands at several of the eight
    /// places and counts once for each.
    pub open spec fn live_neighbors(self, row: int, col: int) -> int {
        self.population(row - 1, col - 1) + self.population(row - 1, col) + self.population(
            row - 1,
            col + 1,
        ) + self.population(row, col - 1) + self.population(row, col + 1) + self.population(
            row + 1,
            col - 1,
        ) + self.population(row + 1, col) + self.population(row + 1, col + 1)
    }

    /// The next generation: every cell follows the rule, all of them reading
    /// the present generation.
    pub open spec fn step(self) -> Grid {
        Grid {
            width: self.width,
            height: self.height,
            cells: Seq::new(
                self.cells.len(),
                |i: int|
                    next_cell(
                        self.cells[i],
                        self.live_neighbors(i / (self.width as int), i % (self.width as int)),
                    ),
            ),
        }
    }

    /// The grid `n` generations later.
    pub open spec fn step_n(self, n: nat) -> Grid
        decreases n,
    {
        if n == 0 {
            self
        } else {
            self.step().step_n((n - 1) as nat)
        }
    }

    /// One row as text: the glyph of each of its cells, then a line feed.
    pub open spec fn line(self, row: int) -> Seq<char> {
        Seq::new(self.width, |col: int| glyph(self.cells[self.index(row, col)])).push('\n')
    }

    /// The first `rows` rows as text, one after the other.
    pub open spec fn lines(self, rows: nat) -> Seq<char>
        decreases rows,
    {
        if rows == 0 {
            Seq::empty()
        } else {
            self.lines((rows - 1) as nat) + self.line(rows - 1)
        }
    }

    /// The whole grid as text: one line per row, from the top.
    pub open spec fn text(self) -> Seq<char> {
        self.lines(self.height)
    }

    /// Whether one of the given (row, column) pairs is the cell that stands
    /// at `i` in `cells`.
    pub open spec fn names(self, coords: Seq<(usize, usize)>, i: int) -> bool {
        exists|k: int|
            0 <= k < coords.len() && self.index(
                (#[trigger] coords[k]).0 as int,
                coords[k].1 as int,
            ) == i
    }

    /// The grid with the cell at each of the given (row, column) pairs alive,
    /// and the other cells as they were.
    pub open spec fn with_alive(self, coords: Seq<(usize, usize)>) -> Grid {
        Grid {
            width: self.width,
            height: self.height,
            cells: Seq::new(self.cells.len(), |i: int| self.cells[i] || self.names(coords, i)),
        }
    }
}

} // verus!
