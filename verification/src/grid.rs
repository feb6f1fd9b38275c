//! The grid model: a rectangular matrix of boolean cells, the neighbor
//! count, the transition rule, and the cell toggle.

use vstd::prelude::*;

verus! {

/// The glyph drawn for a live cell.
pub const FILLED: char = '\u{2588}';

/// The glyph drawn for a dead cell.
pub const EMPTY: char = ' ';

/// The number of columns of a grid: every row of a well-formed grid has
/// this length.
pub open spec fn grid_cols(g: Seq<Seq<bool>>) -> nat {
    if g.len() == 0 {
        0
    } else {
        g[0].len()
    }
}

/// A grid is well formed when it is rectangular: all rows share one width.
pub open spec fn grid_wf(g: Seq<Seq<bool>>) -> bool {
    forall|r: int| 0 <= r < g.len() ==> (#[trigger] g[r]).len() == grid_cols(g)
}

/// Whether (r, c) lies inside the grid.
pub open spec fn in_bounds(g: Seq<Seq<bool>>, r: int, c: int) -> bool {
    0 <= r < g.len() && 0 <= c < grid_cols(g)
}

/// The cell at (r, c), where every out-of-bounds position reads as dead:
/// the grid has no wraparound, and a neighbor outside the grid never
/// contributes to a count.
pub open spec fn cell_at(g: Seq<Seq<bool>>, r: int, c: int) -> bool {
    in_bounds(g, r, c) && g[r][c]
}

pub open spec fn count_cell(b: bool) -> nat {
    if b {
        1
    } else {
        0
    }
}

/// The number of live cells among the 8 neighbors of (r, c) that lie
/// within the grid. Out-of-bounds positions read as dead via `cell_at`,
/// so they never contribute.
pub open spec fn live_neighbors(g: Seq<Seq<bool>>, r: int, c: int) -> nat {
    count_cell(cell_at(g, r - 1, c - 1)) + count_cell(cell_at(g, r - 1, c))
        + count_cell(cell_at(g, r - 1, c + 1)) + count_cell(cell_at(g, r, c - 1))
        + count_cell(cell_at(g, r, c + 1)) + count_cell(cell_at(g, r + 1, c - 1))
        + count_cell(cell_at(g, r + 1, c)) + count_cell(cell_at(g, r + 1, c + 1))
}

/// The number of neighbor positions of (r, c) that lie inside the grid:
/// 8 for an interior cell, fewer on an edge or in a corner.
pub open spec fn in_bounds_neighbors(g: Seq<Seq<bool>>, r: int, c: int) -> nat {
    count_cell(in_bounds(g, r - 1, c - 1)) + count_cell(in_bounds(g, r - 1, c))
        + count_cell(in_bounds(g, r - 1, c + 1)) + count_cell(in_bounds(g, r, c - 1))
        + count_cell(in_bounds(g, r, c + 1)) + count_cell(in_bounds(g, r + 1, c - 1))
        + count_cell(in_bounds(g, r + 1, c)) + count_cell(in_bounds(g, r + 1, c + 1))
}

/// The transition rule: a live cell survives iff it has 2 or 3 live
/// neighbors; a dead cell becomes alive iff it has exactly 3; every other
/// case is dead.
pub open spec fn next_cell(g: Seq<Seq<bool>>, r: int, c: int) -> bool {
    if cell_at(g, r, c) {
        live_neighbors(g, r, c) == 2 || live_neighbors(g, r, c) == 3
    } else {
        live_neighbors(g, r, c) == 3
    }
}

/// One full generation: every cell of the result is `next_cell` of the
/// argument, read entirely from the old generation.
pub open spec fn step_spec(g: Seq<Seq<bool>>) -> Seq<Seq<bool>> {
    Seq::new(g.len(), |r: int| Seq::new(grid_cols(g), |c: int| next_cell(g, r, c)))
}

/// Relates the two levels of view of a `Vec<Vec<bool>>`: the deep view's
/// rows are exactly the views of the vector's rows.
pub proof fn lemma_deep_view_row(table: &Vec<Vec<bool>>, i: int)
    requires
        0 <= i < table@.len(),
    ensures
        table.deep_view().len() == table@.len(),
        table.deep_view()[i] == table@[i]@,
{
    assert(table.deep_view()[i] =~= table@[i]@);
}

/// Counts the live cells among the 8 neighbors of (r, c). Only in-bounds
/// positions are ever read, and only in-bounds positions can contribute.
pub fn count_live_neighbors(table: &Vec<Vec<bool>>, r: usize, c: usize) -> (n: u8)
    requires
        grid_wf(table.deep_view()),
        r < table.len(),
        c < grid_cols(table.deep_view()),
    ensures
        n == live_neighbors(table.deep_view(), r as int, c as int),
{
    let ghost g = table.deep_view();
    proof {
        lemma_deep_view_row(table, 0);
        lemma_deep_view_row(table, r as int);
    }
    let rows = table.len();
    let cols = table[0].len();
    assert(cols == grid_cols(g));
    assert(table@[r as int]@ == g[r as int] && table@[r as int]@.len() == cols);
    let mut n: u8 = 0;
    if r > 0 {
        proof {
            lemma_deep_view_row(table, r - 1);
        }
        assert(table@[r - 1]@ == g[r - 1] && table@[r - 1]@.len() == cols);
        if c > 0 && table[r - 1][c - 1] {
            n = n + 1;
        }
        if table[r - 1][c] {
            n = n + 1;
        }
        if c + 1 < cols && table[r - 1][c + 1] {
            n = n + 1;
        }
    }
    if c > 0 && table[r][c - 1] {
        n = n + 1;
    }
    if c + 1 < cols && table[r][c + 1] {
        n = n + 1;
    }
    if r + 1 < rows {
        proof {
            lemma_deep_view_row(table, r + 1);
        }
        assert(table@[r + 1]@ == g[r + 1] && table@[r + 1]@.len() == cols);
        if c > 0 && table[r + 1][c - 1] {
            n = n + 1;
        }
        if table[r + 1][c] {
            n = n + 1;
        }
        if c + 1 < cols && table[r + 1][c + 1] {
            n = n + 1;
        }
    }
    n
}

/// The grid a toggle leaves behind: the cell at (r, c) flipped when the
/// coordinate is in bounds, the grid unchanged otherwise.
pub open spec fn toggle_spec(g: Seq<Seq<bool>>, r: int, c: int) -> Seq<Seq<bool>> {
    if in_bounds(g, r, c) {
        g.update(r, g[r].update(c, !g[r][c]))
    } else {
        g
    }
}

/// Builds an all-dead grid of the given dimensions.
pub fn new_table(rows: usize, cols: usize) -> (table: Vec<Vec<bool>>)
    ensures
        table.deep_view().len() == rows,
        grid_cols(table.deep_view()) == if rows == 0 { 0nat } else { cols as nat },
        grid_wf(table.deep_view()),
        forall|i: int, j: int|
            0 <= i < rows && 0 <= j < cols ==> !(#[trigger] table.deep_view()[i][j]),
{
    let mut table: Vec<Vec<bool>> = Vec::new();
    let mut r: usize = 0;
    while r < rows
        invariant
            r <= rows,
            table@.len() == r,
            forall|i: int| 0 <= i < r ==> (#[trigger] table@[i])@.len() == cols,
            forall|i: int, j: int| 0 <= i < r && 0 <= j < cols ==> !(#[trigger] table@[i]@[j]),
        decreases rows - r,
    {
        let mut row: Vec<bool> = Vec::new();
        let mut c: usize = 0;
        while c < cols
            invariant
                c <= cols,
                row@.len() == c,
                forall|j: int| 0 <= j < c ==> !(#[trigger] row@[j]),
            decreases cols - c,
        {
            row.push(false);
            c = c + 1;
        }
        table.push(row);
        r = r + 1;
    }
    proof {
        assert forall|i: int| 0 <= i < rows implies #[trigger] table.deep_view()[i]
            == table@[i]@ by {
            lemma_deep_view_row(&table, i);
        }
    }
    table
}

/// Advances the grid by one full generation. The next generation is
/// computed entirely from the old one into a fresh buffer, so no cell
/// ever observes a partially updated neighborhood, and only then does the
/// new buffer replace the old.
pub fn update_table(table: &mut Vec<Vec<bool>>)
    requires
        grid_wf(old(table).deep_view()),
    ensures
        final(table).deep_view() == step_spec(old(table).deep_view()),
{
    let ghost g = table.deep_view();
    let rows = table.len();
    let cols: usize = if rows == 0 {
        0
    } else {
        proof {
            lemma_deep_view_row(table, 0);
        }
        table[0].len()
    };
    assert(cols == grid_cols(g));
    let mut next: Vec<Vec<bool>> = Vec::new();
    let mut r: usize = 0;
    while r < rows
        invariant
            grid_wf(g),
            g == table.deep_view(),
            rows == table@.len(),
            cols == grid_cols(g),
            r <= rows,
            next@.len() == r,
            forall|i: int| 0 <= i < r ==> (#[trigger] next@[i])@.len() == cols,
            forall|i: int, j: int|
                0 <= i < r && 0 <= j < cols ==> #[trigger] next@[i]@[j] == next_cell(g, i, j),
        decreases rows - r,
    {
        let mut row: Vec<bool> = Vec::new();
        let mut c: usize = 0;
        while c < cols
            invariant
                grid_wf(g),
                g == table.deep_view(),
                rows == table@.len(),
                cols == grid_cols(g),
                r < rows,
                c <= cols,
                row@.len() == c,
                forall|j: int| 0 <= j < c ==> #[trigger] row@[j] == next_cell(g, r as int, j),
            decreases cols - c,
        {
            let n = count_live_neighbors(table, r, c);
            proof {
                lemma_deep_view_row(table, r as int);
            }
            let alive = table[r][c];
            let lives = if alive {
                n == 2 || n == 3
            } else {
                n == 3
            };
            row.push(lives);
            c = c + 1;
        }
        next.push(row);
        r = r + 1;
    }
    proof {
        assert forall|i: int| 0 <= i < rows implies next.deep_view()[i] =~= step_spec(g)[i] by {
            lemma_deep_view_row(&next, i);
            assert(next@[i]@.len() == cols);
            assert(forall|j: int| 0 <= j < cols ==> #[trigger] next@[i]@[j] == next_cell(g, i, j));
        }
        assert(next.deep_view() =~~= step_spec(g));
    }
    *table = next;
}

/// Flips the cell at (row, col) of the current grid. An out-of-bounds
/// coordinate is ignored: the grid is left exactly as it was.
pub fn toggle(table: &mut Vec<Vec<bool>>, row: usize, col: usize)
    requires
        grid_wf(old(table).deep_view()),
    ensures
        final(table).deep_view() == toggle_spec(
            old(table).deep_view(),
            row as int,
            col as int,
        ),
{
    let ghost g = table.deep_view();
    if row < table.len() {
        proof {
            lemma_deep_view_row(table, 0);
            lemma_deep_view_row(table, row as int);
        }
        if col < table[0].len() {
            let cur = table[row][col];
            table[row][col] = !cur;
            proof {
                assert forall|i: int|
                    0 <= i < g.len() implies table.deep_view()[i] =~= toggle_spec(
                    g,
                    row as int,
                    col as int,
                )[i] by {
                    lemma_deep_view_row(table, i);
                    lemma_deep_view_row(old(table), i);
                }
                assert(table.deep_view() =~~= toggle_spec(g, row as int, col as int));
            }
        }
    }
}

/// A grid with no live cell anywhere (every position reads as dead, in
/// bounds or not).
pub open spec fn all_dead(g: Seq<Seq<bool>>) -> bool {
    forall|r: int, c: int| !#[trigger] cell_at(g, r, c)
}

/// Law: stepping keeps the grid's dimensions and its rectangular shape.
pub proof fn lemma_step_shape(g: Seq<Seq<bool>>)
    ensures
        step_spec(g).len() == g.len(),
        grid_cols(step_spec(g)) == if g.len() == 0 {
            0nat
        } else {
            grid_cols(g)
        },
        grid_wf(step_spec(g)),
{
}

/// Law: the all-dead grid is a fixed point of the transition rule — one
/// generation of an all-dead grid is again all dead.
pub proof fn lemma_step_all_dead(g: Seq<Seq<bool>>)
    requires
        all_dead(g),
    ensures
        all_dead(step_spec(g)),
{
    assert forall|r: int, c: int| !#[trigger] cell_at(step_spec(g), r, c) by {
        if in_bounds(step_spec(g), r, c) {
            assert(live_neighbors(g, r, c) == 0);
            assert(step_spec(g)[r][c] == next_cell(g, r, c));
        }
    }
}

/// Law: a live cell survives the step if and only if it has exactly 2 or
/// 3 live neighbors; with fewer than 2 or more than 3 it dies.
pub proof fn lemma_live_cell_rule(g: Seq<Seq<bool>>, r: int, c: int)
    requires
        cell_at(g, r, c),
    ensures
        next_cell(g, r, c) <==> (live_neighbors(g, r, c) == 2 || live_neighbors(g, r, c) == 3),
{
}

/// Law: a dead cell becomes alive after the step if and only if it has
/// exactly 3 live neighbors; any other count leaves it dead.
pub proof fn lemma_dead_cell_rule(g: Seq<Seq<bool>>, r: int, c: int)
    requires
        !cell_at(g, r, c),
    ensures
        next_cell(g, r, c) <==> live_neighbors(g, r, c) == 3,
{
}

/// Law: the neighbor count only ever counts in-bounds positions, so it is
/// bounded by the number of neighbor positions inside the grid — at most
/// 8, at most 5 for a cell on an edge, and at most 3 in a corner.
pub proof fn lemma_neighbor_count_in_bounds(g: Seq<Seq<bool>>, r: int, c: int)
    ensures
        live_neighbors(g, r, c) <= in_bounds_neighbors(g, r, c),
        in_bounds_neighbors(g, r, c) <= 8,
        (r == 0 || r == g.len() - 1 || c == 0 || c == grid_cols(g) - 1) ==> in_bounds_neighbors(
            g,
            r,
            c,
        ) <= 5,
        ((r == 0 || r == g.len() - 1) && (c == 0 || c == grid_cols(g) - 1))
            ==> in_bounds_neighbors(g, r, c) <= 3,
{
}

/// Law: a live cell with no live neighbor dies after one step, wherever
/// it stands — in the interior, on an edge, or in a corner.
pub proof fn lemma_isolated_cell_dies(g: Seq<Seq<bool>>, r: int, c: int)
    requires
        live_neighbors(g, r, c) == 0,
    ensures
        !next_cell(g, r, c),
{
}

/// Law: toggling keeps the grid's dimensions and shape, flips exactly the
/// addressed cell when it is in bounds, and leaves every other cell alone.
pub proof fn lemma_toggle_shape(g: Seq<Seq<bool>>, r: int, c: int)
    requires
        grid_wf(g),
    ensures
        toggle_spec(g, r, c).len() == g.len(),
        grid_cols(toggle_spec(g, r, c)) == grid_cols(g),
        grid_wf(toggle_spec(g, r, c)),
        in_bounds(g, r, c) ==> cell_at(toggle_spec(g, r, c), r, c) == !cell_at(g, r, c),
        forall|i: int, j: int|
            (i != r || j != c) ==> #[trigger] cell_at(toggle_spec(g, r, c), i, j) == cell_at(
                g,
                i,
                j,
            ),
{
    if in_bounds(g, r, c) {
        assert(toggle_spec(g, r, c)[0].len() == grid_cols(g));
    }
}

/// Law: toggling the same in-bounds coordinate twice restores the grid
/// exactly (the toggle is an involution); out of bounds, both toggles are
/// no-ops.
pub proof fn lemma_toggle_involution(g: Seq<Seq<bool>>, r: int, c: int)
    requires
        grid_wf(g),
    ensures
        toggle_spec(toggle_spec(g, r, c), r, c) == g,
{
    let g1 = toggle_spec(g, r, c);
    if in_bounds(g, r, c) {
        lemma_toggle_shape(g, r, c);
        assert(in_bounds(g1, r, c));
        assert forall|i: int| 0 <= i < g.len() implies toggle_spec(g1, r, c)[i] =~= g[i] by {
            if i == r {
                assert(g1[r][c] == !g[r][c]);
            }
        }
        assert(toggle_spec(g1, r, c) =~~= g);
    }
}

/// The glyph a cell is drawn as: a filled block when alive, a space when
/// dead.
pub open spec fn glyph(b: bool) -> char {
    if b {
        FILLED
    } else {
        EMPTY
    }
}

/// The glyph for one cell.
pub fn fill(filled: bool) -> (c: char)
    ensures
        c == glyph(filled),
{
    if filled {
        FILLED
    } else {
        EMPTY
    }
}

/// Renders one full frame: one glyph per cell, row-major, exactly the
/// grid's dimensions. The rows are handed back as plain characters; the
/// caller writes them out and flushes once per frame.
pub fn render_frame(table: &Vec<Vec<bool>>) -> (out: Vec<Vec<char>>)
    ensures
        out@.len() == table@.len(),
        forall|i: int| 0 <= i < table@.len() ==> (#[trigger] out@[i])@.len() == table@[i]@.len(),
        forall|i: int, j: int|
            0 <= i < table@.len() && 0 <= j < table@[i]@.len() ==> #[trigger] out@[i]@[j] == glyph(
                table@[i]@[j],
            ),
{
    let mut out: Vec<Vec<char>> = Vec::new();
    let mut r: usize = 0;
    while r < table.len()
        invariant
            r <= table@.len(),
            out@.len() == r,
            forall|i: int| 0 <= i < r ==> (#[trigger] out@[i])@.len() == table@[i]@.len(),
            forall|i: int, j: int|
                0 <= i < r && 0 <= j < table@[i]@.len() ==> #[trigger] out@[i]@[j] == glyph(
                    table@[i]@[j],
                ),
        decreases table@.len() - r,
    {
        let row = &table[r];
        let mut line: Vec<char> = Vec::new();
        let mut c: usize = 0;
        while c < row.len()
            invariant
                c <= row@.len(),
                line@.len() == c,
                row@ == table@[r as int]@,
                r < table@.len(),
                forall|j: int| 0 <= j < c ==> #[trigger] line@[j] == glyph(row@[j]),
            decreases row@.len() - c,
        {
            line.push(fill(row[c]));
            c = c + 1;
        }
        out.push(line);
        r = r + 1;
    }
    out
}

} // verus!
