//! The executable grid: cells packed in a bit set, one bit per cell.

use crate::bitset::{bits, bitset_clone, bitset_get, bitset_set, bitset_with_capacity};
use crate::grid::{glyph, next_cell, sample_alive, Grid, SAMPLE_HALF};
use crate::laws::{
    lemma_index_in_range, lemma_with_alive, lemma_with_alive_push, lemma_wrapping_offsets,
};
use crate::layout::{cells_across, WindowInfo};
use fixedbitset::FixedBitSet;
use vstd::arithmetic::div_mod::*;
use vstd::arithmetic::mul::*;
use vstd::prelude::*;

verus! {

/// Why a grid could not be made.
#[derive(Clone, Copy, Debug, PartialEq, Eq, Structural)]
pub enum GridError {
    /// The width or the height is zero.
    ZeroDimension,
    /// The number of cells does not fit in `usize`.
    TooLarge,
    /// The number of samples is not the number of cells.
    SampleCount,
}

/// What stands in the way of a grid of the given dimensions, if anything.
pub open spec fn dimension_error(width: usize, height: usize) -> Option<GridError> {
    if width == 0 || height == 0 {
        Some(GridError::ZeroDimension)
    } else if width * height > usize::MAX {
        Some(GridError::TooLarge)
    } else {
        None
    }
}

/// What stands in the way of seeding a grid of the given dimensions with
/// `samples` samples, if anything.
pub open spec fn seeding_error(width: usize, height: usize, samples: nat) -> Option<GridError> {
    match dimension_error(width, height) {
        Some(e) => Some(e),
        None => if samples != width * height {
            Some(GridError::SampleCount)
        } else {
            None
        },
    }
}

/// A grid of cells whose edges wrap around. Its dimensions are fixed when it
/// is made; `tick` replaces the cells by the next generation.
#[derive(Debug)]
pub struct Universe {
    width: usize,
    height: usize,
    cells: FixedBitSet,
}

impl View for Universe {
    type V = Grid;

    closed spec fn view(&self) -> Grid {
        Grid { width: self.width as nat, height: self.height as nat, cells: bits(self.cells) }
    }
}

impl Clone for Universe {
    fn clone(&self) -> (copy: Universe)
        ensures
            copy@ == self@,
    {
        proof {
            use_type_invariant(self);
        }
        Universe { width: self.width, height: self.height, cells: bitset_clone(&self.cells) }
    }
}

impl Universe {
    #[verifier::type_invariant]
    spec fn inv(self) -> bool {
        &&& self.width >= 1
        &&& self.height >= 1
        &&& self.width * self.height <= usize::MAX
        &&& bits(self.cells).len() == self.width * self.height
    }

    /// A grid of the given dimensions with every cell dead, or the reason
    /// why there is no such grid.
    pub fn new(width: usize, height: usize) -> (made: Result<Universe, GridError>)
        ensures
            match dimension_error(width, height) {
                Some(e) => made == Err::<Universe, GridError>(e),
                None => made is Ok && made->Ok_0@ == Grid::blank(width as nat, height as nat),
            },
            made matches Ok(u) ==> u@.wf(),
    {
        match cell_count(width, height) {
            Err(e) => Err(e),
            Ok(count) => {
                let cells = bitset_with_capacity(count);
                Ok(Universe { width, height, cells })
            },
        }
    }

    /// A grid of the given dimensions seeded with one sample per cell, row by
    /// row: a cell starts alive where its sample is more than one half. Fails
    /// if there is no grid of these dimensions, or if the samples are not as
    /// many as the cells.
    pub fn new_random(width: usize, height: usize, samples: &[u64]) -> (made: Result<
        Universe,
        GridError,
    >)
        ensures
            match seeding_error(width, height, samples@.len()) {
                Some(e) => made == Err::<Universe, GridError>(e),
                None => made is Ok && made->Ok_0@ == Grid::seeded(
                    width as nat,
                    height as nat,
                    samples@,
                ),
            },
            made matches Ok(u) ==> u@.wf(),
    {
        let count = match cell_count(width, height) {
            Err(e) => {
                return Err(e);
            },
            Ok(count) => count,
        };
        if samples.len() != count {
            return Err(GridError::SampleCount);
        }
        let mut cells = bitset_with_capacity(count);
        let mut i: usize = 0;
        while i < count
            invariant
                i <= count,
                count == samples@.len(),
                bits(cells).len() == count,
                forall|k: int| 0 <= k < i ==> bits(cells)[k] == sample_alive(samples@[k]),
                forall|k: int| i <= k < count ==> !bits(cells)[k],
            decreases count - i,
        {
            if samples[i] > SAMPLE_HALF {
                bitset_set(&mut cells, i, true);
            }
            i += 1;
        }
        proof {
            assert(bits(cells) =~= Grid::seeded(width as nat, height as nat, samples@).cells);
        }
        Ok(Universe { width, height, cells })
    }

    /// The grid that fills the window, seeded with one sample per cell as
    /// `new_random` does.
    pub fn new_by_window_info(window_info: &WindowInfo, samples: &[u64]) -> (made: Result<
        Universe,
        GridError,
    >)
        ensures
            match seeding_error(
                cells_across(window_info.inner_width as int) as usize,
                cells_across(window_info.inner_height as int) as usize,
                samples@.len(),
            ) {
                Some(e) => made == Err::<Universe, GridError>(e),
                None => made is Ok && made->Ok_0@ == Grid::seeded(
                    cells_across(window_info.inner_width as int) as nat,
                    cells_across(window_info.inner_height as int) as nat,
                    samples@,
                ),
            },
            made matches Ok(u) ==> u@.wf(),
    {
        let width = window_info.grid_width();
        let height = window_info.grid_height();
        Universe::new_random(width, height, samples)
    }

    /// Brings the cell at each of the given (row, column) pairs to life and
    /// leaves the other cells as they are.
    pub fn set_cells(&mut self, cells: &[(usize, usize)])
        requires
            forall|k: int|
                0 <= k < cells@.len() ==> (#[trigger] cells@[k]).0 < old(self)@.height
                    && cells@[k].1 < old(self)@.width,
        ensures
            final(self)@ == old(self)@.with_alive(cells@),
            final(self)@.wf(),
    {
        proof {
            use_type_invariant(&*self);
            lemma_with_alive(self@, cells@.take(0));
        }
        let ghost g = self@;
        let mut next = bitset_clone(&self.cells);
        let mut k: usize = 0;
        while k < cells.len()
            invariant
                self.inv(),
                g == self@,
                k <= cells@.len(),
                forall|j: int|
                    0 <= j < cells@.len() ==> (#[trigger] cells@[j]).0 < g.height && cells@[j].1
                        < g.width,
                bits(next) == g.with_alive(cells@.take(k as int)).cells,
            decreases cells@.len() - k,
        {
            let (row, column) = cells[k];
            let index = self.get_index(row, column);
            proof {
                lemma_with_alive_push(g, cells@.take(k as int), cells@[k as int]);
                assert(cells@.take(k + 1) =~= cells@.take(k as int).push(cells@[k as int]));
            }
            bitset_set(&mut next, index, true);
            k += 1;
        }
        proof {
            assert(cells@.take(cells@.len() as int) =~= cells@);
        }
        self.cells = next;
    }

    /// Whether the cell at (`row`, `column`) is alive.
    pub fn cell_at(&self, row: usize, column: usize) -> (alive: bool)
        requires
            row < self@.height,
            column < self@.width,
        ensures
            alive == self@.cells[self@.index(row as int, column as int)],
            alive == self@.alive(row as int, column as int),
    {
        proof {
            use_type_invariant(self);
            lemma_small_mod(row as nat, self.height as nat);
            lemma_small_mod(column as nat, self.width as nat);
        }
        let index = self.get_index(row, column);
        bitset_get(&self.cells, index)
    }

    /// The cells as they are stored: one bit per cell, row by row.
    pub fn cells(&self) -> (stored: &FixedBitSet)
        ensures
            bits(*stored) == self@.cells,
            bits(*stored).len() == self@.width * self@.height,
    {
        proof {
            use_type_invariant(self);
        }
        &self.cells
    }

    /// The number of columns.
    pub fn width(&self) -> (w: usize)
        ensures
            w == self@.width,
            self@.wf(),
    {
        proof {
            use_type_invariant(self);
        }
        self.width
    }

    /// The number of rows.
    pub fn height(&self) -> (h: usize)
        ensures
            h == self@.height,
            self@.wf(),
    {
        proof {
            use_type_invariant(self);
        }
        self.height
    }

    /// Where the cell at (`row`, `column`) stands in the row-major order of
    /// the cells.
    pub fn get_index(&self, row: usize, column: usize) -> (index: usize)
        requires
            row < self@.height,
            column < self@.width,
        ensures
            index == row * self@.width + column,
            index == self@.index(row as int, column as int),
            index < self@.cells.len(),
    {
        proof {
            use_type_invariant(self);
            lemma_index_in_range(self@, row as int, column as int);
        }
        row * self.width + column
    }

    /// How many of the eight neighbours of the cell at (`row`, `column`) are
    /// alive, the grid wrapping around at its edges.
    pub fn live_neighbor_count(&self, row: usize, column: usize) -> (count: u8)
        requires
            row < self@.height,
            column < self@.width,
        ensures
            count == self@.live_neighbors(row as int, column as int),
            count <= 8,
    {
        proof {
            use_type_invariant(self);
        }
        let row_offsets: [usize; 3] = [self.height - 1, 0, 1];
        let column_offsets: [usize; 3] = [self.width - 1, 0, 1];
        let ghost g = self@;
        let mut count: u8 = 0;
        let mut i: usize = 0;
        while i < 3
            invariant
                self.inv(),
                g == self@,
                row < self.height,
                column < self.width,
                row_offsets@ == seq![(self.height - 1) as usize, 0usize, 1usize],
                column_offsets@ == seq![(self.width - 1) as usize, 0usize, 1usize],
                i <= 3,
                count == block_sum(g, row as int, column as int, 3 * i),
                count <= 3 * i,
            decreases 3 - i,
        {
            let mut j: usize = 0;
            while j < 3
                invariant
                    self.inv(),
                    g == self@,
                    row < self.height,
                    column < self.width,
                    row_offsets@ == seq![(self.height - 1) as usize, 0usize, 1usize],
                    column_offsets@ == seq![(self.width - 1) as usize, 0usize, 1usize],
                    i < 3,
                    j <= 3,
                    count == block_sum(g, row as int, column as int, 3 * i + j),
                    count <= 3 * i + j,
                decreases 3 - j,
            {
                if !(i == 1 && j == 1) {
                    let neighbor_row = wrapping_offset(row, row_offsets[i], self.height);
                    let neighbor_column = wrapping_offset(column, column_offsets[j], self.width);
                    proof {
                        lemma_wrapping_offsets(row as int, self.height as int);
                        lemma_wrapping_offsets(column as int, self.width as int);
                        lemma_small_mod(row as nat, self.height as nat);
                        lemma_small_mod(column as nat, self.width as nat);
                        assert(neighbor_row == (row + i - 1) % (self.height as int));
                        assert(neighbor_column == (column + j - 1) % (self.width as int));
                    }
                    let index = self.get_index(neighbor_row, neighbor_column);
                    if bitset_get(&self.cells, index) {
                        count += 1;
                    }
                }
                proof {
                    let k = 3 * i + j;
                    assert(k / 3 == i && k % 3 == j);
                    assert(block_sum(g, row as int, column as int, k + 1) == block_sum(
                        g,
                        row as int,
                        column as int,
                        k as int,
                    ) + block_term(g, row as int, column as int, k as int));
                }
                j += 1;
            }
            i += 1;
        }
        proof {
            lemma_block_sum_all(g, row as int, column as int);
        }
        count
    }

    /// Advances the grid by one generation. Every cell is computed from the
    /// generation before; the dimensions stay.
    pub fn tick(&mut self)
        ensures
            final(self)@ == old(self)@.step(),
            final(self)@.wf(),
            final(self)@.width == old(self)@.width,
            final(self)@.height == old(self)@.height,
    {
        proof {
            use_type_invariant(&*self);
        }
        let ghost g = self@;
        let mut next = bitset_clone(&self.cells);
        let mut row: usize = 0;
        while row < self.height
            invariant
                self.inv(),
                g == self@,
                row <= self.height,
                bits(next).len() == g.cells.len(),
                forall|i: int| 0 <= i < row * self.width ==> bits(next)[i] == g.step().cells[i],
            decreases self.height - row,
        {
            let mut column: usize = 0;
            while column < self.width
                invariant
                    self.inv(),
                    g == self@,
                    row < self.height,
                    column <= self.width,
                    bits(next).len() == g.cells.len(),
                    forall|i: int|
                        0 <= i < row * self.width + column ==> bits(next)[i] == g.step().cells[i],
                decreases self.width - column,
            {
                let index = self.get_index(row, column);
                let cell = bitset_get(&self.cells, index);
                let live_neighbors = self.live_neighbor_count(row, column);
                let state = next_state(cell, live_neighbors);
                proof {
                    lemma_index_in_range(g, row as int, column as int);
                    assert(state == g.step().cells[index as int]);
                }
                bitset_set(&mut next, index, state);
                column += 1;
            }
            proof {
                assert((row + 1) * self.width == row * self.width + self.width) by {
                    lemma_mul_is_distributive_add_other_way(self.width as int, row as int, 1);
                }
            }
            row += 1;
        }
        proof {
            assert(self.height * self.width == self.width * self.height) by {
                lemma_mul_is_commutative(self.height as int, self.width as int);
            }
            assert(bits(next) =~= g.step().cells);
        }
        self.cells = next;
    }

    /// The grid as text: one line per row, a black square for each live cell
    /// and a white square for each dead one, a line feed after each row.
    pub fn render(&self) -> (text: String)
        ensures
            text@ == self@.text(),
    {
        proof {
            use_type_invariant(self);
            reveal_strlit("\u{25FC}");
            reveal_strlit("\u{25FB}");
            reveal_strlit("\n");
        }
        let ghost g = self@;
        let mut text = String::new();
        let mut row: usize = 0;
        while row < self.height
            invariant
                self.inv(),
                g == self@,
                row <= self.height,
                text@ == g.lines(row as nat),
                "\u{25FC}"@ == seq!['\u{25FC}'],
                "\u{25FB}"@ == seq!['\u{25FB}'],
                "\n"@ == seq!['\n'],
            decreases self.height - row,
        {
            let ghost before = text@;
            let mut column: usize = 0;
            while column < self.width
                invariant
                    self.inv(),
                    g == self@,
                    row < self.height,
                    column <= self.width,
                    text@ == before + Seq::new(
                        column as nat,
                        |col: int| glyph(g.cells[g.index(row as int, col)]),
                    ),
                    "\u{25FC}"@ == seq!['\u{25FC}'],
                    "\u{25FB}"@ == seq!['\u{25FB}'],
                decreases self.width - column,
            {
                let index = self.get_index(row, column);
                if bitset_get(&self.cells, index) {
                    text.append("\u{25FC}");
                } else {
                    text.append("\u{25FB}");
                }
                column += 1;
            }
            text.append("\n");
            assert(text@ == before + g.line(row as int));
            row += 1;
        }
        text
    }
}

/// The rule of the game: what a cell is in the next generation.
pub fn next_state(alive: bool, live_neighbors: u8) -> (next: bool)
    ensures
        next == next_cell(alive, live_neighbors as int),
{
    if alive {
        if live_neighbors < 2 {
            // too few neighbours: the cell dies
            false
        } else if live_neighbors == 2 || live_neighbors == 3 {
            // the cell lives on
            true
        } else {
            // too many neighbours: the cell dies
            false
        }
    } else {
        // a dead cell with exactly three live neighbours comes to life
        live_neighbors == 3
    }
}

/// The number of cells of a grid of the given dimensions.
fn cell_count(width: usize, height: usize) -> (count: Result<usize, GridError>)
    ensures
        match dimension_error(width, height) {
            Some(e) => count == Err::<usize, GridError>(e),
            None => count == Ok::<usize, GridError>((width * height) as usize),
        },
{
    if width == 0 || height == 0 {
        return Err(GridError::ZeroDimension);
    }
    match width.checked_mul(height) {
        None => Err(GridError::TooLarge),
        Some(count) => Ok(count),
    }
}

/// What the `k`-th place of the three-by-three block around (`row`, `col`)
/// adds to the count of live neighbours. The places are numbered row by row
/// from the upper left; place 4 is the cell itself and adds nothing.
spec fn block_term(g: Grid, row: int, col: int, k: int) -> int {
    if k == 4 {
        0
    } else {
        g.population(row + k / 3 - 1, col + k % 3 - 1)
    }
}

/// What the first `k` places of the block add together.
spec fn block_sum(g: Grid, row: int, col: int, k: int) -> int
    decreases k,
{
    if k <= 0 {
        0
    } else {
        block_sum(g, row, col, k - 1) + block_term(g, row, col, k - 1)
    }
}

proof fn lemma_block_sum_all(g: Grid, row: int, col: int)
    ensures
        block_sum(g, row, col, 9) == g.live_neighbors(row, col),
{
    reveal_with_fuel(block_sum, 10);
}

/// `position` moved by `offset` around a ring of `extent` places.
fn wrapping_offset(position: usize, offset: usize, extent: usize) -> (wrapped: usize)
    requires
        position < extent,
        offset <= extent,
    ensures
        wrapped == (position + offset) % (extent as int),
        wrapped < extent,
{
    if position >= extent - offset {
        proof {
            lemma_mod_sub_multiples_vanish((position + offset) as int, extent as int);
            lemma_small_mod((position + offset - extent) as nat, extent as nat);
        }
        position - (extent - offset)
    } else {
        proof {
            lemma_small_mod((position + offset) as nat, extent as nat);
        }
        position + offset
    }
}

} // verus!
