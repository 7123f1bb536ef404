//! What holds of every grid: laws of the model, each proved.

use crate::grid::{glyph, next_cell, sample_alive, Grid};
use vstd::arithmetic::div_mod::*;
use vstd::arithmetic::mul::*;
use vstd::prelude::*;

verus! {

/// Around a ring of `extent` places, the offsets `extent - 1`, `0` and `1`
/// lead where `-1`, `0` and `1` lead, and so does each of these with a whole
/// turn added. This holds on a ring of one place too, where every offset
/// leads back to the place itself.
pub proof fn lemma_wrapping_offsets(position: int, extent: int)
    requires
        extent >= 1,
    ensures
        (position + (extent - 1)) % extent == (position - 1) % extent,
        (position - 1 + extent) % extent == (position - 1) % extent,
        (position + 0 + extent) % extent == (position + 0) % extent,
        (position + 1 + extent) % extent == (position + 1) % extent,
        0 <= (position - 1) % extent < extent,
        0 <= (position + 0) % extent < extent,
        0 <= (position + 1) % extent < extent,
        extent == 1 ==> (position - 1) % extent == 0 && (position + 0) % extent == 0 && (position
            + 1) % extent == 0,
{
    lemma_mod_add_multiples_vanish(position - 1, extent);
    lemma_mod_add_multiples_vanish(position, extent);
    lemma_mod_add_multiples_vanish(position + 1, extent);
    lemma_mod_bound(position - 1, extent);
    lemma_mod_bound(position, extent);
    lemma_mod_bound(position + 1, extent);
}

/// A cell inside the grid has its index inside `cells`, and the index gives
/// the row and the column back.
pub proof fn lemma_index_in_range(g: Grid, row: int, col: int)
    requires
        g.wf(),
        0 <= row < g.height,
        0 <= col < g.width,
    ensures
        0 <= g.index(row, col) < g.cells.len(),
        g.index(row, col) / (g.width as int) == row,
        g.index(row, col) % (g.width as int) == col,
{
    let w = g.width as int;
    let h = g.height as int;
    assert(0 <= row * w) by {
        lemma_mul_nonnegative(row, w);
    }
    assert((row + 1) * w <= h * w) by {
        lemma_mul_inequality(row + 1, h, w);
    }
    assert((row + 1) * w == row * w + w) by {
        lemma_mul_is_distributive_add_other_way(w, row, 1);
    }
    assert(h * w == w * h) by {
        lemma_mul_is_commutative(h, w);
    }
    lemma_fundamental_div_mod_converse(row * w + col, w, row, col);
}

/// The rule in short: a cell is alive in the next generation if it has three
/// live neighbours, or if it is alive and has two.
pub proof fn lemma_rule(alive: bool, live_neighbors: int)
    ensures
        next_cell(alive, live_neighbors) == (live_neighbors == 3 || (alive && live_neighbors
            == 2)),
{
}

/// A blank grid of positive dimensions is well formed and all its cells are
/// dead.
pub proof fn lemma_blank(width: nat, height: nat)
    requires
        width >= 1,
        height >= 1,
    ensures
        Grid::blank(width, height).wf(),
        forall|i: int| 0 <= i < width * height ==> !Grid::blank(width, height).cells[i],
{
}

/// A grid seeded with one sample per cell is well formed, and each cell is
/// alive exactly if its sample is more than one half.
pub proof fn lemma_seeded(width: nat, height: nat, samples: Seq<u64>)
    requires
        width >= 1,
        height >= 1,
        samples.len() == width * height,
    ensures
        Grid::seeded(width, height, samples).wf(),
        forall|i: int|
            0 <= i < samples.len() ==> Grid::seeded(width, height, samples).cells[i]
                == sample_alive(samples[i]),
{
}

/// A generation keeps the dimensions and the number of cells: the next
/// generation of a well-formed grid is well formed.
pub proof fn lemma_step_keeps_shape(g: Grid)
    requires
        g.wf(),
    ensures
        g.step().wf(),
        g.step().width == g.width,
        g.step().height == g.height,
        g.step().cells.len() == g.width * g.height,
{
}

/// Any number of generations keeps the dimensions and the number of cells.
pub proof fn lemma_step_n_keeps_shape(g: Grid, n: nat)
    requires
        g.wf(),
    ensures
        g.step_n(n).wf(),
        g.step_n(n).width == g.width,
        g.step_n(n).height == g.height,
        g.step_n(n).cells.len() == g.width * g.height,
    decreases n,
{
    if n > 0 {
        lemma_step_keeps_shape(g);
        lemma_step_n_keeps_shape(g.step(), (n - 1) as nat);
    }
}

/// A cell of the next generation follows the rule from the cell and its
/// neighbours in this generation.
pub proof fn lemma_step_cell(g: Grid, row: int, col: int)
    requires
        g.wf(),
        0 <= row < g.height,
        0 <= col < g.width,
    ensures
        g.step().cells[g.index(row, col)] == next_cell(
            g.cells[g.index(row, col)],
            g.live_neighbors(row, col),
        ),
{
    lemma_index_in_range(g, row, col);
}

/// A cell has from none to eight live neighbours.
pub proof fn lemma_live_neighbors_bounds(g: Grid, row: int, col: int)
    ensures
        0 <= g.live_neighbors(row, col) <= 8,
{
}

/// The grid is a torus: a whole turn around it, along the rows or along the
/// columns, leads back to the same cell with the same neighbours.
pub proof fn lemma_torus(g: Grid, row: int, col: int)
    requires
        g.wf(),
    ensures
        g.alive(row + g.height, col) == g.alive(row, col),
        g.alive(row, col + g.width) == g.alive(row, col),
        g.live_neighbors(row + g.height, col) == g.live_neighbors(row, col),
        g.live_neighbors(row, col + g.width) == g.live_neighbors(row, col),
{
    let h = g.height as int;
    let w = g.width as int;
    lemma_mod_add_multiples_vanish(row - 1, h);
    lemma_mod_add_multiples_vanish(row, h);
    lemma_mod_add_multiples_vanish(row + 1, h);
    lemma_mod_add_multiples_vanish(col - 1, w);
    lemma_mod_add_multiples_vanish(col, w);
    lemma_mod_add_multiples_vanish(col + 1, w);
}

/// The corners of the grid touch: a live cell in the corner (0, 0) is a live
/// neighbour of the cell in each of the three other corners.
pub proof fn lemma_corners_touch(g: Grid)
    requires
        g.wf(),
        g.cells[0],
    ensures
        g.live_neighbors(g.height - 1, g.width - 1) >= 1,
        g.live_neighbors(g.height - 1, 0) >= 1,
        g.live_neighbors(0, g.width - 1) >= 1,
{
    let h = g.height as int;
    let w = g.width as int;
    lemma_mod_self_0(h);
    lemma_mod_self_0(w);
    lemma_small_mod(0, g.height);
    lemma_small_mod(0, g.width);
    assert(0 * w == 0);
    assert(g.alive(h, w));
    assert(g.alive(h, 0));
    assert(g.alive(0, w));
}

/// In a grid whose only live cell is the corner (0, 0), a place is alive
/// exactly if it is that corner, whichever way it wraps around.
pub proof fn lemma_lone_corner_alive(g: Grid, row: int, col: int)
    requires
        g.wf(),
        g.cells[0],
        forall|i: int| 1 <= i < g.cells.len() ==> !g.cells[i],
    ensures
        g.alive(row, col) == (row % (g.height as int) == 0 && col % (g.width as int) == 0),
{
    let h = g.height as int;
    let w = g.width as int;
    lemma_mod_bound(row, h);
    lemma_mod_bound(col, w);
    let r = row % h;
    let c = col % w;
    lemma_index_in_range(g, r, c);
    if r == 0 {
        assert(0 * w == 0);
    } else {
        assert(r * w >= w) by {
            lemma_mul_inequality(1, r, w);
        }
    }
}

/// In a grid of at least three rows and three columns whose only live cell
/// is the corner (0, 0), the cell in each of the three other corners has
/// exactly one live neighbour, and the live cell itself has none.
pub proof fn lemma_lone_corner(g: Grid)
    requires
        g.wf(),
        g.height >= 3,
        g.width >= 3,
        g.cells[0],
        forall|i: int| 1 <= i < g.cells.len() ==> !g.cells[i],
    ensures
        g.live_neighbors(g.height - 1, g.width - 1) == 1,
        g.live_neighbors(g.height - 1, 0) == 1,
        g.live_neighbors(0, g.width - 1) == 1,
        g.live_neighbors(0, 0) == 0,
{
    let h = g.height as int;
    let w = g.width as int;
    lemma_mod_self_0(h);
    lemma_mod_self_0(w);
    lemma_small_mod(0, g.height);
    lemma_small_mod(0, g.width);
    lemma_small_mod(1, g.height);
    lemma_small_mod(1, g.width);
    lemma_small_mod((h - 1) as nat, g.height);
    lemma_small_mod((w - 1) as nat, g.width);
    lemma_small_mod((h - 2) as nat, g.height);
    lemma_small_mod((w - 2) as nat, g.width);
    lemma_wrapping_offsets(0, h);
    lemma_wrapping_offsets(0, w);
    assert forall|row: int, col: int|
        g.alive(row, col) == (row % h == 0 && col % w == 0) by {
        lemma_lone_corner_alive(g, row, col);
    }
}

/// The text of a grid has one character per cell and one line feed per row.
pub proof fn lemma_text_len(g: Grid)
    ensures
        g.text().len() == g.height * (g.width + 1),
{
    lemma_lines_len(g, g.height);
}

/// The text of the first `rows` rows has one character per cell and one
/// line feed per row.
pub proof fn lemma_lines_len(g: Grid, rows: nat)
    ensures
        g.lines(rows).len() == rows * (g.width + 1),
    decreases rows,
{
    if rows > 0 {
        lemma_lines_len(g, (rows - 1) as nat);
        assert(rows * (g.width + 1) == (rows - 1) * (g.width + 1) + (g.width + 1)) by {
            lemma_mul_is_distributive_add_other_way((g.width + 1) as int, rows - 1, 1);
        }
    } else {
        assert(0 * (g.width + 1) == 0);
    }
}

/// In the text of a grid, the character of the cell at (`row`, `col`) is its
/// glyph, and each row ends in a line feed.
pub proof fn lemma_text_char(g: Grid, row: int, col: int)
    requires
        0 <= row < g.height,
        0 <= col <= g.width,
    ensures
        0 <= row * (g.width + 1) + col < g.text().len(),
        g.text()[row * (g.width + 1) + col] == if col == g.width {
            '\n'
        } else {
            glyph(g.cells[g.index(row, col)])
        },
{
    lemma_lines_char(g, g.height, row, col);
}

/// The same for the text of the first `rows` rows.
pub proof fn lemma_lines_char(g: Grid, rows: nat, row: int, col: int)
    requires
        0 <= row < rows,
        0 <= col <= g.width,
    ensures
        0 <= row * (g.width + 1) + col < g.lines(rows).len(),
        g.lines(rows)[row * (g.width + 1) + col] == if col == g.width {
            '\n'
        } else {
            glyph(g.cells[g.index(row, col)])
        },
    decreases rows,
{
    let pitch = (g.width + 1) as int;
    lemma_lines_len(g, rows);
    lemma_lines_len(g, (rows - 1) as nat);
    assert(rows * pitch == (rows - 1) * pitch + pitch) by {
        lemma_mul_is_distributive_add_other_way(pitch, rows - 1, 1);
    }
    assert(0 <= row * pitch) by {
        lemma_mul_nonnegative(row, pitch);
    }
    if row == rows - 1 {
    } else {
        lemma_lines_char(g, (rows - 1) as nat, row, col);
    }
}

/// Bringing cells to life keeps the grid well formed, and bringing no cell
/// to life changes nothing.
pub proof fn lemma_with_alive(g: Grid, coords: Seq<(usize, usize)>)
    requires
        g.wf(),
    ensures
        g.with_alive(coords).wf(),
        coords.len() == 0 ==> g.with_alive(coords) == g,
{
    if coords.len() == 0 {
        assert(g.with_alive(coords).cells =~= g.cells);
    }
}

/// Cells can be brought to life one after the other: one pair more makes
/// the cell that it names alive and changes nothing else.
pub proof fn lemma_with_alive_push(g: Grid, coords: Seq<(usize, usize)>, next: (usize, usize))
    requires
        g.wf(),
        next.0 < g.height,
        next.1 < g.width,
    ensures
        0 <= g.index(next.0 as int, next.1 as int) < g.cells.len(),
        g.with_alive(coords.push(next)).cells == g.with_alive(coords).cells.update(
            g.index(next.0 as int, next.1 as int),
            true,
        ),
{
    let more = coords.push(next);
    let at = g.index(next.0 as int, next.1 as int);
    lemma_index_in_range(g, next.0 as int, next.1 as int);
    assert forall|i: int| 0 <= i < g.cells.len() implies g.names(more, i) == (g.names(coords, i)
        || i == at) by {
        if g.names(coords, i) {
            let k = choose|k: int|
                0 <= k < coords.len() && g.index(
                    (#[trigger] coords[k]).0 as int,
                    coords[k].1 as int,
                ) == i;
            assert(more[k] == coords[k]);
        } else if i == at {
            assert(more[coords.len() as int] == next);
        } else if g.names(more, i) {
            let k = choose|k: int|
                0 <= k < more.len() && g.index((#[trigger] more[k]).0 as int, more[k].1 as int)
                    == i;
            if k < coords.len() {
                assert(coords[k] == more[k]);
            }
        }
    }
    assert(g.with_alive(more).cells =~= g.with_alive(coords).cells.update(at, true));
}

} // verus!
