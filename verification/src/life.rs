//! The generation engine: one step of the automaton under the B3/S23 rule
//! with a Moore 8-neighborhood, under either a wrapping or a hard-edged
//! boundary, together with the all-dead-row-window shortcut and its proof
//! of equivalence with the plain scan.

use vstd::prelude::*;
use vstd::arithmetic::div_mod::{
    lemma_mod_add_multiples_vanish, lemma_mod_division_less_than_divisor, lemma_mod_multiples_basic,
    lemma_small_mod,
};

verus! {

/// How the edge of the board is treated when a neighbor index leaves it.
#[derive(Clone, Copy, Debug, PartialEq, Eq, Structural)]
pub enum BoundaryPolicy {
    /// The grid wraps: the neighbor of the last row or column is the first.
    Toroidal,
    /// The grid has a hard edge: off-board neighbors count as dead, and
    /// every cell of the outermost ring is forced dead in each new
    /// generation, so anything reaching the border is erased.
    Bounded,
}

/// Why a step was refused.
#[derive(Clone, Copy, Debug, PartialEq, Eq, Structural)]
pub enum GridError {
    /// The grid has zero rows, zero columns, or rows of unequal length.
    InvalidGrid,
}

/// The grid as mathematics: a sequence of rows of cell states.
pub open spec fn grid_view(g: Vec<Vec<bool>>) -> Seq<Seq<bool>> {
    g@.map_values(|row: Vec<bool>| row@)
}

/// A well-formed grid: at least one row, at least one column, and every
/// row of the same length.
pub open spec fn grid_ok(g: Seq<Seq<bool>>) -> bool {
    &&& g.len() > 0
    &&& g[0].len() > 0
    &&& forall|i: int| 0 <= i < g.len() ==> #[trigger] g[i].len() == g[0].len()
}

/// The state of the neighbor of (r, c) at offset (dr, dc), resolved by the
/// boundary policy: wrapped indices for `Toroidal`, dead when off the board
/// for `Bounded`.
pub open spec fn neighbor_at(
    g: Seq<Seq<bool>>,
    r: int,
    c: int,
    dr: int,
    dc: int,
    p: BoundaryPolicy,
) -> bool {
    let rows = g.len() as int;
    let cols = g[0].len() as int;
    match p {
        BoundaryPolicy::Toroidal => g[(r + rows + dr) % rows][(c + cols + dc) % cols],
        BoundaryPolicy::Bounded => if 0 <= r + dr < rows && 0 <= c + dc < cols {
            g[r + dr][c + dc]
        } else {
            false
        },
    }
}

/// 1 for a live cell, 0 for a dead one.
pub open spec fn b2i(b: bool) -> int {
    if b {
        1
    } else {
        0
    }
}

/// Count of live cells among the 8 Moore neighbors of (r, c).
pub open spec fn live_neighbors(g: Seq<Seq<bool>>, r: int, c: int, p: BoundaryPolicy) -> int {
    b2i(neighbor_at(g, r, c, -1, -1, p)) + b2i(neighbor_at(g, r, c, -1, 0, p)) + b2i(
        neighbor_at(g, r, c, -1, 1, p),
    ) + b2i(neighbor_at(g, r, c, 0, -1, p)) + b2i(neighbor_at(g, r, c, 0, 1, p)) + b2i(
        neighbor_at(g, r, c, 1, -1, p),
    ) + b2i(neighbor_at(g, r, c, 1, 0, p)) + b2i(neighbor_at(g, r, c, 1, 1, p))
}

/// The B3/S23 rule: a live cell survives with 2 or 3 live neighbors; a
/// dead cell is born with exactly 3.
pub open spec fn life_rule(alive: bool, n: int) -> bool {
    if alive {
        2 <= n <= 3
    } else {
        n == 3
    }
}

/// Whether (r, c) lies on the outermost ring of the grid.
pub open spec fn on_border(g: Seq<Seq<bool>>, r: int, c: int) -> bool {
    r == 0 || r == g.len() - 1 || c == 0 || c == g[0].len() - 1
}

/// The state of cell (r, c) in the next generation.  Under `Bounded` the
/// border ring is forced dead whatever the rule would say.
pub open spec fn next_cell(g: Seq<Seq<bool>>, r: int, c: int, p: BoundaryPolicy) -> bool {
    if p == BoundaryPolicy::Bounded && on_border(g, r, c) {
        false
    } else {
        life_rule(g[r][c], live_neighbors(g, r, c, p))
    }
}

/// The whole next generation as a pure mapping of the current one.
pub open spec fn step_spec(g: Seq<Seq<bool>>, p: BoundaryPolicy) -> Seq<Seq<bool>> {
    Seq::new(g.len(), |r: int| Seq::new(g[0].len(), |c: int| next_cell(g, r, c, p)))
}

/// Count of live cells among the 8 outer entries of a 3-by-3 window.
pub open spec fn window_count(w: Seq<Seq<bool>>) -> int {
    b2i(w[0][0]) + b2i(w[0][1]) + b2i(w[0][2]) + b2i(w[1][0]) + b2i(w[1][2]) + b2i(w[2][0]) + b2i(
        w[2][1],
    ) + b2i(w[2][2])
}

/// Apply the Life rule to the center cell of a 3-by-3 window of states.
pub fn apply_rules(cells: &Vec<Vec<bool>>) -> (r: bool)
    requires
        cells@.len() == 3,
        forall|i: int| 0 <= i < 3 ==> #[trigger] cells@[i]@.len() == 3,
    ensures
        r == life_rule(grid_view(*cells)[1][1], window_count(grid_view(*cells))),
{
    // count number of adjacent cells that are alive
    let mut count: u8 = 0;
    if cells[0][0] {
        count = count + 1;
    }
    if cells[0][1] {
        count = count + 1;
    }
    if cells[0][2] {
        count = count + 1;
    }
    if cells[1][0] {
        count = count + 1;
    }
    if cells[1][2] {
        count = count + 1;
    }
    if cells[2][0] {
        count = count + 1;
    }
    if cells[2][1] {
        count = count + 1;
    }
    if cells[2][2] {
        count = count + 1;
    }
    if cells[1][1] {
        // rule of underpopulation
        if count < 2 {
            false
            // rule of overpopulation
        } else if count > 3 {
            false
            // otherwise lives
        } else {
            true
        }
    } else {
        // rule of reproduction
        if count == 3 {
            true
            // otherwise stays dead
        } else {
            false
        }
    }
}

/// Adding a full wrap to an in-range index and reducing changes nothing.
proof fn lemma_wrap_id(x: int, n: int)
    requires
        n > 0,
        0 <= x < n,
    ensures
        (x + n) % n == x,
{
    lemma_mod_add_multiples_vanish(x, n);
    lemma_small_mod(x as nat, n as nat);
}

/// The wrapped index of a neighbor offset stays on the board.
proof fn lemma_wrap_offset(i: int, d: int, n: int)
    requires
        n > 0,
        0 <= i < n,
        -1 <= d <= 1,
    ensures
        0 <= (i + n + d) % n < n,
        0 <= i + d < n ==> (i + n + d) % n == i + d,
        i + d == -1 ==> (i + n + d) % n == n - 1,
        i + d == n ==> (i + n + d) % n == 0,
{
    lemma_mod_division_less_than_divisor(i + n + d, n);
    if 0 <= i + d < n {
        lemma_wrap_id(i + d, n);
    } else if i + d == -1 {
        lemma_small_mod((n - 1) as nat, n as nat);
    } else {
        assert(i + n + d == 2 * n);
        lemma_mod_multiples_basic(2, n);
    }
}

/// Step from index `i` to the neighboring index at offset `di - 1`,
/// wrapping around a board of `n` rows or columns.
fn wrap_offset(i: usize, di: usize, n: usize) -> (r: usize)
    requires
        n > 0,
        i < n,
        di < 3,
    ensures
        r < n,
        r as int == (i as int + n as int + (di as int - 1)) % (n as int),
{
    proof {
        lemma_wrap_offset(i as int, di as int - 1, n as int);
    }
    if di == 0 {
        if i == 0 {
            n - 1
        } else {
            i - 1
        }
    } else if di == 1 {
        i
    } else {
        if i == n - 1 {
            0
        } else {
            i + 1
        }
    }
}

/// Whether every cell of row `i` is dead.
pub open spec fn row_all_dead(g: Seq<Seq<bool>>, i: int) -> bool {
    forall|c: int| 0 <= c < g[i].len() ==> !(#[trigger] g[i][c])
}

/// Whether every cell of rows `lo` through `hi` inclusive is dead.
pub open spec fn rows_all_dead(g: Seq<Seq<bool>>, lo: int, hi: int) -> bool {
    forall|i: int| lo <= i <= hi ==> #[trigger] row_all_dead(g, i)
}

/// Decide whether a grid is well formed.
fn check_grid(cells: &Vec<Vec<bool>>) -> (r: bool)
    ensures
        r == grid_ok(grid_view(*cells)),
{
    let rows = cells.len();
    if rows == 0 {
        return false;
    }
    let cols = cells[0].len();
    if cols == 0 {
        return false;
    }
    let mut k: usize = 1;
    while k < rows
        invariant
            1 <= k <= rows,
            rows == cells@.len(),
            cols == cells@[0]@.len(),
            forall|i: int| 0 <= i < k ==> #[trigger] cells@[i]@.len() == cols,
        decreases rows - k,
    {
        if cells[k].len() != cols {
            assert(grid_view(*cells)[k as int].len() != grid_view(*cells)[0].len());
            return false;
        }
        k = k + 1;
    }
    true
}

/// A row of `cols` dead cells.
fn dead_row(cols: usize) -> (r: Vec<bool>)
    ensures
        r@ == Seq::new(cols as nat, |c: int| false),
{
    let mut r: Vec<bool> = Vec::new();
    let mut j: usize = 0;
    while j < cols
        invariant
            j <= cols,
            r@.len() == j,
            forall|c: int| 0 <= c < j ==> !(#[trigger] r@[c]),
        decreases cols - j,
    {
        r.push(false);
        j = j + 1;
    }
    proof {
        assert(r@ =~= Seq::new(cols as nat, |c: int| false));
    }
    r
}

/// Decide whether rows `lo` through `hi` inclusive are entirely dead.
fn all_rows_dead(cells: &Vec<Vec<bool>>, lo: usize, hi: usize) -> (r: bool)
    requires
        grid_ok(grid_view(*cells)),
        lo <= hi < cells@.len(),
    ensures
        r == rows_all_dead(grid_view(*cells), lo as int, hi as int),
{
    let ghost g = grid_view(*cells);
    let rows = cells.len();
    let mut i: usize = lo;
    while i <= hi
        invariant
            grid_ok(g),
            g == grid_view(*cells),
            lo <= i <= hi + 1,
            hi < rows,
            rows == cells@.len(),
            forall|k: int| lo <= k < i ==> #[trigger] row_all_dead(g, k),
        decreases hi + 1 - i,
    {
        let row_len = cells[i].len();
        let mut j: usize = 0;
        while j < row_len
            invariant
                grid_ok(g),
                g == grid_view(*cells),
                lo <= i <= hi,
                hi < cells@.len(),
                row_len == g[i as int].len(),
                j <= row_len,
                forall|c: int| 0 <= c < j ==> !(#[trigger] g[i as int][c]),
            decreases row_len - j,
        {
            if cells[i][j] {
                assert(!row_all_dead(g, i as int));
                return false;
            }
            j = j + 1;
        }
        assert(row_all_dead(g, i as int));
        i = i + 1;
    }
    true
}

/// Read the neighbor of (i, j) at offset (di - 1, dj - 1) under the policy.
fn neighbor_value(cells: &Vec<Vec<bool>>, i: usize, j: usize, di: usize, dj: usize, policy: BoundaryPolicy) -> (v: bool)
    requires
        grid_ok(grid_view(*cells)),
        i < cells@.len(),
        j < grid_view(*cells)[0].len(),
        di < 3,
        dj < 3,
        policy == BoundaryPolicy::Bounded ==> 0 < i < cells@.len() - 1 && 0 < j < grid_view(
            *cells,
        )[0].len() - 1,
    ensures
        v == neighbor_at(grid_view(*cells), i as int, j as int, di as int - 1, dj as int - 1, policy),
{
    let rows = cells.len();
    let cols = cells[0].len();
    match policy {
        BoundaryPolicy::Toroidal => {
            let ri = wrap_offset(i, di, rows);
            let ci = wrap_offset(j, dj, cols);
            proof {
                assert(grid_view(*cells)[ri as int] == cells@[ri as int]@);
                assert(grid_view(*cells)[ri as int].len() == grid_view(*cells)[0].len());
            }
            cells[ri][ci]
        },
        BoundaryPolicy::Bounded => {
            let ri = i + di - 1;
            let ci = j + dj - 1;
            proof {
                assert(grid_view(*cells)[ri as int] == cells@[ri as int]@);
                assert(grid_view(*cells)[ri as int].len() == grid_view(*cells)[0].len());
            }
            cells[ri][ci]
        },
    }
}

/// Collect the 3-by-3 window of neighbor states around (i, j).
fn gather_window(cells: &Vec<Vec<bool>>, i: usize, j: usize, policy: BoundaryPolicy) -> (w: Vec<
    Vec<bool>,
>)
    requires
        grid_ok(grid_view(*cells)),
        i < cells@.len(),
        j < grid_view(*cells)[0].len(),
        policy == BoundaryPolicy::Bounded ==> 0 < i < cells@.len() - 1 && 0 < j < grid_view(
            *cells,
        )[0].len() - 1,
    ensures
        w@.len() == 3,
        forall|di: int| 0 <= di < 3 ==> #[trigger] w@[di]@.len() == 3,
        forall|di: int, dj: int|
            0 <= di < 3 && 0 <= dj < 3 ==> #[trigger] w@[di]@[dj] == neighbor_at(
                grid_view(*cells),
                i as int,
                j as int,
                di - 1,
                dj - 1,
                policy,
            ),
{
    let ghost g = grid_view(*cells);
    let mut w: Vec<Vec<bool>> = Vec::new();
    let mut di: usize = 0;
    while di < 3
        invariant
            grid_ok(g),
            g == grid_view(*cells),
            i < cells@.len(),
            j < g[0].len(),
            policy == BoundaryPolicy::Bounded ==> 0 < i < cells@.len() - 1 && 0 < j < g[0].len()
                - 1,
            di <= 3,
            w@.len() == di,
            forall|a: int| 0 <= a < di ==> #[trigger] w@[a]@.len() == 3,
            forall|a: int, b: int|
                0 <= a < di && 0 <= b < 3 ==> #[trigger] w@[a]@[b] == neighbor_at(
                    g,
                    i as int,
                    j as int,
                    a - 1,
                    b - 1,
                    policy,
                ),
        decreases 3 - di,
    {
        let mut wrow: Vec<bool> = Vec::new();
        let mut dj: usize = 0;
        while dj < 3
            invariant
                grid_ok(g),
                g == grid_view(*cells),
                i < cells@.len(),
                j < g[0].len(),
                di < 3,
                policy == BoundaryPolicy::Bounded ==> 0 < i < cells@.len() - 1 && 0 < j < g[0].len()
                    - 1,
                dj <= 3,
                wrow@.len() == dj,
                forall|b: int|
                    0 <= b < dj ==> #[trigger] wrow@[b] == neighbor_at(
                        g,
                        i as int,
                        j as int,
                        di as int - 1,
                        b - 1,
                        policy,
                    ),
            decreases 3 - dj,
        {
            wrow.push(neighbor_value(cells, i, j, di, dj, policy));
            dj = dj + 1;
        }
        w.push(wrow);
        di = di + 1;
    }
    w
}

/// A 3-by-3 window gathered around (i, j) counts exactly the cell's live
/// neighbors, and its center is the cell itself.
proof fn lemma_window_count(g: Seq<Seq<bool>>, i: int, j: int, p: BoundaryPolicy, w: Seq<Seq<bool>>)
    requires
        grid_ok(g),
        0 <= i < g.len(),
        0 <= j < g[0].len(),
        w.len() == 3,
        forall|a: int| 0 <= a < 3 ==> #[trigger] w[a].len() == 3,
        forall|a: int, b: int|
            0 <= a < 3 && 0 <= b < 3 ==> #[trigger] w[a][b] == neighbor_at(g, i, j, a - 1, b - 1, p),
    ensures
        window_count(w) == live_neighbors(g, i, j, p),
        w[1][1] == g[i][j],
{
    assert(w[0][0] == neighbor_at(g, i, j, -1, -1, p));
    assert(w[0][1] == neighbor_at(g, i, j, -1, 0, p));
    assert(w[0][2] == neighbor_at(g, i, j, -1, 1, p));
    assert(w[1][0] == neighbor_at(g, i, j, 0, -1, p));
    assert(w[1][1] == neighbor_at(g, i, j, 0, 0, p));
    assert(w[1][2] == neighbor_at(g, i, j, 0, 1, p));
    assert(w[2][0] == neighbor_at(g, i, j, 1, -1, p));
    assert(w[2][1] == neighbor_at(g, i, j, 1, 0, p));
    assert(w[2][2] == neighbor_at(g, i, j, 1, 1, p));
    lemma_wrap_id(i, g.len() as int);
    lemma_wrap_id(j, g[0].len() as int);
    assert(neighbor_at(g, i, j, 0, 0, p) == g[i][j]);
}

/// Compute row `i` of the next generation by scanning each cell.
fn step_row(cells: &Vec<Vec<bool>>, i: usize, policy: BoundaryPolicy) -> (r: Vec<bool>)
    requires
        grid_ok(grid_view(*cells)),
        i < cells@.len(),
    ensures
        r@.len() == grid_view(*cells)[0].len(),
        forall|c: int|
            0 <= c < r@.len() ==> #[trigger] r@[c] == next_cell(
                grid_view(*cells),
                i as int,
                c,
                policy,
            ),
{
    let ghost g = grid_view(*cells);
    let rows = cells.len();
    let cols = cells[0].len();
    let mut r: Vec<bool> = Vec::new();
    let mut j: usize = 0;
    while j < cols
        invariant
            grid_ok(g),
            g == grid_view(*cells),
            i < rows,
            rows == cells@.len(),
            cols == g[0].len(),
            j <= cols,
            r@.len() == j,
            forall|c: int| 0 <= c < j ==> #[trigger] r@[c] == next_cell(g, i as int, c, policy),
        decreases cols - j,
    {
        let border = i == 0 || i == rows - 1 || j == 0 || j == cols - 1;
        if policy == BoundaryPolicy::Bounded && border {
            // make cells disappear after they go past the boundary
            r.push(false);
        } else {
            let w = gather_window(cells, i, j, policy);
            proof {
                lemma_window_count(g, i as int, j as int, policy, grid_view(w));
            }
            r.push(apply_rules(&w));
        }
        j = j + 1;
    }
    r
}

/// If a cell's own row and both neighboring rows (wrapped onto the board)
/// are entirely dead, the cell is dead in the next generation.
proof fn lemma_dead_rows_kill(g: Seq<Seq<bool>>, p: BoundaryPolicy, r: int, c: int)
    requires
        grid_ok(g),
        0 <= r < g.len(),
        0 <= c < g[0].len(),
        row_all_dead(g, (r + g.len() - 1) % (g.len() as int)),
        row_all_dead(g, r),
        row_all_dead(g, (r + g.len() + 1) % (g.len() as int)),
    ensures
        !next_cell(g, r, c, p),
{
    let rows = g.len() as int;
    let cols = g[0].len() as int;
    lemma_mod_division_less_than_divisor(r + rows - 1, rows);
    lemma_mod_division_less_than_divisor(r + rows + 1, rows);
    lemma_wrap_id(r, rows);
    if r >= 1 {
        lemma_wrap_id(r - 1, rows);
    }
    if r + 1 < rows {
        lemma_wrap_id(r + 1, rows);
    }
    lemma_mod_division_less_than_divisor(c + cols - 1, cols);
    lemma_mod_division_less_than_divisor(c + cols + 1, cols);
    lemma_wrap_id(c, cols);
    assert(!neighbor_at(g, r, c, -1, -1, p));
    assert(!neighbor_at(g, r, c, -1, 0, p));
    assert(!neighbor_at(g, r, c, -1, 1, p));
    assert(!neighbor_at(g, r, c, 0, -1, p));
    assert(!neighbor_at(g, r, c, 0, 1, p));
    assert(!neighbor_at(g, r, c, 1, -1, p));
    assert(!neighbor_at(g, r, c, 1, 0, p));
    assert(!neighbor_at(g, r, c, 1, 1, p));
    assert(live_neighbors(g, r, c, p) == 0);
    assert(!g[r][c]);
}

/// The shortcut's justification: when an interior row and both rows
/// beside it are entirely dead, the whole output row is dead.
proof fn lemma_quiescent_window(g: Seq<Seq<bool>>, p: BoundaryPolicy, i: int)
    requires
        grid_ok(g),
        0 < i < g.len() - 1,
        rows_all_dead(g, i - 1, i + 1),
    ensures
        forall|c: int| 0 <= c < g[0].len() ==> !(#[trigger] next_cell(g, i, c, p)),
{
    let rows = g.len() as int;
    assert(row_all_dead(g, i - 1));
    assert(row_all_dead(g, i));
    assert(row_all_dead(g, i + 1));
    assert forall|c: int| 0 <= c < g[0].len() implies !(#[trigger] next_cell(g, i, c, p)) by {
        lemma_wrap_id(i - 1, rows);
        lemma_wrap_id(i + 1, rows);
        lemma_dead_rows_kill(g, p, i, c);
    }
}

/// Advance the grid by one generation under the given boundary policy,
/// skipping the per-cell scan of any interior row whose three-row window
/// is entirely dead.  Returns `InvalidGrid` exactly on grids with zero
/// rows, zero columns, or rows of unequal length.
pub fn simulate(cells: Vec<Vec<bool>>, policy: BoundaryPolicy) -> (r: Result<
    Vec<Vec<bool>>,
    GridError,
>)
    ensures
        grid_ok(grid_view(cells)) ==> (r matches Ok(out) && grid_view(out) == step_spec(
            grid_view(cells),
            policy,
        )),
        !grid_ok(grid_view(cells)) ==> r == Result::<Vec<Vec<bool>>, GridError>::Err(
            GridError::InvalidGrid,
        ),
{
    if !check_grid(&cells) {
        return Err(GridError::InvalidGrid);
    }
    let ghost g = grid_view(cells);
    let rows = cells.len();
    let cols = cells[0].len();
    let mut ret: Vec<Vec<bool>> = Vec::new();
    let mut i: usize = 0;
    while i < rows
        invariant
            grid_ok(g),
            g == grid_view(cells),
            rows == cells@.len(),
            cols == g[0].len(),
            i <= rows,
            ret@.len() == i,
            forall|k: int| 0 <= k < i ==> #[trigger] ret@[k]@ == step_spec(g, policy)[k],
        decreases rows - i,
    {
        // if the previous row, this row, and the next row are all dead,
        // the output row is dead and the per-cell scan can be skipped
        if i > 0 && i + 1 < rows && all_rows_dead(&cells, i - 1, i + 1) {
            proof {
                lemma_quiescent_window(g, policy, i as int);
            }
            let rrow = dead_row(cols);
            proof {
                assert(rrow@ =~= step_spec(g, policy)[i as int]);
            }
            ret.push(rrow);
        } else {
            let rrow = step_row(&cells, i, policy);
            proof {
                assert(rrow@ =~= step_spec(g, policy)[i as int]);
            }
            ret.push(rrow);
        }
        i = i + 1;
    }
    proof {
        assert(grid_view(ret) =~~= step_spec(g, policy));
    }
    Ok(ret)
}

/// Advance the grid by one generation by the plain per-cell scan, with no
/// row-window shortcut.  The contract is identical to `simulate`'s, so the
/// shortcut cannot be observed in the result.
pub fn simulate_plain(cells: Vec<Vec<bool>>, policy: BoundaryPolicy) -> (r: Result<
    Vec<Vec<bool>>,
    GridError,
>)
    ensures
        grid_ok(grid_view(cells)) ==> (r matches Ok(out) && grid_view(out) == step_spec(
            grid_view(cells),
            policy,
        )),
        !grid_ok(grid_view(cells)) ==> r == Result::<Vec<Vec<bool>>, GridError>::Err(
            GridError::InvalidGrid,
        ),
{
    if !check_grid(&cells) {
        return Err(GridError::InvalidGrid);
    }
    let ghost g = grid_view(cells);
    let rows = cells.len();
    let mut ret: Vec<Vec<bool>> = Vec::new();
    let mut i: usize = 0;
    while i < rows
        invariant
            grid_ok(g),
            g == grid_view(cells),
            rows == cells@.len(),
            i <= rows,
            ret@.len() == i,
            forall|k: int| 0 <= k < i ==> #[trigger] ret@[k]@ == step_spec(g, policy)[k],
        decreases rows - i,
    {
        let rrow = step_row(&cells, i, policy);
        proof {
            assert(rrow@ =~= step_spec(g, policy)[i as int]);
        }
        ret.push(rrow);
        i = i + 1;
    }
    proof {
        assert(grid_view(ret) =~~= step_spec(g, policy));
    }
    Ok(ret)
}

/// The all-dead-row-window shortcut cannot change the result: the next
/// generation is a function of the input grid and the policy alone, so any
/// two values meeting the step contract — in particular the results of
/// `simulate` and of `simulate_plain` on the same arguments — are equal.
pub proof fn lemma_shortcut_equivalence(
    g: Seq<Seq<bool>>,
    p: BoundaryPolicy,
    a: Seq<Seq<bool>>,
    b: Seq<Seq<bool>>,
)
    requires
        a == step_spec(g, p),
        b == step_spec(g, p),
    ensures
        a == b,
{
}

/// Bounded erasure: after a step under `Bounded`, every cell of the
/// outermost ring is dead, whatever its neighbor count was.
pub proof fn lemma_bounded_border_dead(g: Seq<Seq<bool>>, r: int, c: int)
    requires
        grid_ok(g),
        0 <= r < g.len(),
        0 <= c < g[0].len(),
        on_border(g, r, c),
    ensures
        !step_spec(g, BoundaryPolicy::Bounded)[r][c],
{
}

/// Whether every cell of the grid is dead.
pub open spec fn all_dead(g: Seq<Seq<bool>>) -> bool {
    forall|i: int| 0 <= i < g.len() ==> #[trigger] row_all_dead(g, i)
}

/// Idempotent quiescence: an all-dead grid steps to itself under either
/// boundary policy.
pub proof fn lemma_quiescence(g: Seq<Seq<bool>>, p: BoundaryPolicy)
    requires
        grid_ok(g),
        all_dead(g),
    ensures
        step_spec(g, p) == g,
{
    let rows = g.len() as int;
    assert forall|r: int| 0 <= r < g.len() implies #[trigger] step_spec(g, p)[r] =~= g[r] by {
        lemma_mod_division_less_than_divisor(r + rows - 1, rows);
        lemma_mod_division_less_than_divisor(r + rows + 1, rows);
        assert(row_all_dead(g, (r + rows - 1) % rows));
        assert(row_all_dead(g, r));
        assert(row_all_dead(g, (r + rows + 1) % rows));
        assert forall|c: int| 0 <= c < g[0].len() implies !(#[trigger] next_cell(g, r, c, p)) by {
            lemma_dead_rows_kill(g, p, r, c);
        }
        assert(row_all_dead(g, r));
        assert(g[r].len() == g[0].len());
    }
    assert(step_spec(g, p) =~~= g);
}

} // verus!
