//! Grid/screen coordinate mapping: the affine transform between automaton
//! grid indices and pixel coordinates, and the corner points of one cell.

use vstd::prelude::*;
use vstd::arithmetic::div_mod::lemma_div_multiples_vanish_fancy;
use vstd::arithmetic::mul::{
    lemma_mul_inequality, lemma_mul_is_commutative, lemma_mul_nonnegative,
};

verus! {

/// Width in pixels of the fixed border kept free around the grid on all sides.
pub const BUFFER_SIZE: i32 = 60;

/// An integer 2-D coordinate; grid space or screen space depending on context.
#[derive(Clone, Copy, Debug, PartialEq, Eq, Structural)]
pub struct Vector2 {
    pub x: i32,
    pub y: i32,
}

/// Screen coordinate of the near edge of grid line `g` (a row or column
/// index) for a given cell size.
pub open spec fn screen_of(g: int, cell_size: int) -> int {
    BUFFER_SIZE + g * cell_size
}

impl Vector2 {
    pub fn new(x: i32, y: i32) -> (r: Vector2)
        ensures
            r.x == x,
            r.y == y,
    {
        Vector2 { x, y }
    }

    /// Convert grid coordinates (x = column, y = row) to the screen
    /// coordinates of the cell's top left corner.
    pub fn to_screen(&self, cell_size: i32) -> (r: Vector2)
        requires
            cell_size > 0,
            i32::MIN <= screen_of(self.x as int, cell_size as int) <= i32::MAX,
            i32::MIN <= screen_of(self.y as int, cell_size as int) <= i32::MAX,
        ensures
            r.x == screen_of(self.x as int, cell_size as int),
            r.y == screen_of(self.y as int, cell_size as int),
    {
        let x64: i64 = BUFFER_SIZE as i64 + self.x as i64 * cell_size as i64;
        let y64: i64 = BUFFER_SIZE as i64 + self.y as i64 * cell_size as i64;
        Vector2 { x: x64 as i32, y: y64 as i32 }
    }

    /// Convert screen coordinates to grid coordinates (x = column, y = row).
    /// Returns (-1, -1) if the screen point is outside the visible grid of
    /// `cell_rows` by `cell_cols` cells; the border line at the margin
    /// itself already counts as outside.
    pub fn to_grid(&self, cell_rows: i32, cell_cols: i32, cell_size: i32) -> (r: Vector2)
        requires
            cell_size > 0,
        ensures
            off_grid(*self, cell_rows as int, cell_cols as int, cell_size as int) ==> r == (Vector2 { x: -1i32, y: -1i32 }),
            !off_grid(*self, cell_rows as int, cell_cols as int, cell_size as int) ==> {
                &&& r.x == (self.x - BUFFER_SIZE) / (cell_size as int)
                &&& r.y == (self.y - BUFFER_SIZE) / (cell_size as int)
            },
    {
        proof {
            crate::arith::lemma_i32_mul_fits_i64(cell_cols as int, cell_size as int);
            crate::arith::lemma_i32_mul_fits_i64(cell_rows as int, cell_size as int);
        }
        let x64: i64 = self.x as i64;
        let y64: i64 = self.y as i64;
        let cs: i64 = cell_size as i64;
        let buf: i64 = BUFFER_SIZE as i64;

        // check if self.x is outside of grid
        if x64 <= buf || x64 >= cell_cols as i64 * cs + buf {
            return Vector2 { x: -1, y: -1 };
        }

        // check if self.y is outside of grid
        if y64 <= buf || y64 >= cell_rows as i64 * cs + buf {
            return Vector2 { x: -1, y: -1 };
        }

        // otherwise, calculate grid coordinates
        let x: i64 = (x64 - buf) / cs;
        let y: i64 = (y64 - buf) / cs;
        Vector2 { x: x as i32, y: y as i32 }
    }
}

/// A screen point misses the visible grid when either coordinate is on or
/// beyond the margin line on any side.
pub open spec fn off_grid(v: Vector2, cell_rows: int, cell_cols: int, cell_size: int) -> bool {
    ||| v.x <= BUFFER_SIZE
    ||| v.x >= cell_cols * cell_size + BUFFER_SIZE
    ||| v.y <= BUFFER_SIZE
    ||| v.y >= cell_rows * cell_size + BUFFER_SIZE
}

/// Round trip of the coordinate mapping: a pixel strictly inside the
/// square of cell (row r, column c) — offset (dx, dy) from the cell's top
/// left corner with 0 < dx < cell_size and 0 < dy < cell_size — is on the
/// visible grid, and dividing it back yields (c, r) again.
pub proof fn lemma_grid_round_trip(
    r: int,
    c: int,
    visible_rows: int,
    visible_cols: int,
    cell_size: int,
    dx: int,
    dy: int,
)
    requires
        cell_size > 0,
        0 <= r < visible_rows,
        0 <= c < visible_cols,
        0 < dx < cell_size,
        0 < dy < cell_size,
    ensures
        BUFFER_SIZE < screen_of(c, cell_size) + dx < visible_cols * cell_size + BUFFER_SIZE,
        BUFFER_SIZE < screen_of(r, cell_size) + dy < visible_rows * cell_size + BUFFER_SIZE,
        (screen_of(c, cell_size) + dx - BUFFER_SIZE) / cell_size == c,
        (screen_of(r, cell_size) + dy - BUFFER_SIZE) / cell_size == r,
{
    lemma_axis_round_trip(c, visible_cols, cell_size, dx);
    lemma_axis_round_trip(r, visible_rows, cell_size, dy);
}

/// The round trip along one axis.
proof fn lemma_axis_round_trip(g: int, visible: int, cs: int, d: int)
    requires
        cs > 0,
        0 <= g < visible,
        0 < d < cs,
    ensures
        BUFFER_SIZE < screen_of(g, cs) + d < visible * cs + BUFFER_SIZE,
        (screen_of(g, cs) + d - BUFFER_SIZE) / cs == g,
{
    lemma_mul_nonnegative(g, cs);
    assert(g * cs + d < visible * cs) by {
        lemma_mul_inequality(g + 1, visible, cs);
        assert((g + 1) * cs == g * cs + cs) by (nonlinear_arith);
    }
    assert((g * cs + d) / cs == g) by {
        lemma_div_multiples_vanish_fancy(g, d, cs);
        lemma_mul_is_commutative(g, cs);
    }
}

/// An axis-aligned rectangle on screen: top left corner, width and
/// height.  A point is inside when x <= px < x + w and y <= py < y + h,
/// which is the test every rectangular hit check uses.
#[derive(Clone, Copy, Debug, PartialEq, Eq, Structural)]
pub struct Rect {
    pub x: i32,
    pub y: i32,
    pub w: u32,
    pub h: u32,
}

/// Whether (px, py) lies inside the rectangle; the right and bottom
/// edges are outside.
pub open spec fn rect_contains(rc: Rect, px: int, py: int) -> bool {
    &&& rc.x <= px < rc.x + rc.w
    &&& rc.y <= py < rc.y + rc.h
}

impl Rect {
    pub fn new(x: i32, y: i32, w: u32, h: u32) -> (r: Rect)
        ensures
            r == (Rect { x, y, w, h }),
    {
        Rect { x, y, w, h }
    }

    /// Whether the point is inside the rectangle.
    pub fn contains_point(&self, px: i32, py: i32) -> (r: bool)
        ensures
            r == rect_contains(*self, px as int, py as int),
    {
        let x64: i64 = px as i64;
        let y64: i64 = py as i64;
        x64 >= self.x as i64 && x64 < self.x as i64 + self.w as i64 && y64 >= self.y as i64 && y64
            < self.y as i64 + self.h as i64
    }
}

/// The four corner points of one cell's square on screen.
pub struct Cell {
    pub top_left: Vector2,
    pub top_right: Vector2,
    pub bottom_left: Vector2,
    pub bottom_right: Vector2,
}

impl Cell {
    /// The cell whose square has the given top left corner.
    pub fn from_top_left(location: Vector2, cell_size: i32) -> (r: Cell)
        requires
            cell_size > 0,
            location.x + cell_size <= i32::MAX,
            location.y + cell_size <= i32::MAX,
        ensures
            r.top_left == location,
            r.top_right == (Vector2 { x: (location.x + cell_size) as i32, y: location.y }),
            r.bottom_left == (Vector2 { x: location.x, y: (location.y + cell_size) as i32 }),
            r.bottom_right == (Vector2 {
                x: (location.x + cell_size) as i32,
                y: (location.y + cell_size) as i32,
            }),
    {
        Cell {
            top_left: Vector2::new(location.x, location.y),
            top_right: Vector2::new(location.x + cell_size, location.y),
            bottom_left: Vector2::new(location.x, location.y + cell_size),
            bottom_right: Vector2::new(location.x + cell_size, location.y + cell_size),
        }
    }

    /// The cell at the given grid coordinates (x = column, y = row).
    pub fn from_grid(location: Vector2, cell_size: i32) -> (r: Cell)
        requires
            cell_size > 0,
            i32::MIN <= screen_of(location.x as int, cell_size as int),
            screen_of(location.x as int, cell_size as int) + cell_size <= i32::MAX,
            i32::MIN <= screen_of(location.y as int, cell_size as int),
            screen_of(location.y as int, cell_size as int) + cell_size <= i32::MAX,
        ensures
            r.top_left.x == screen_of(location.x as int, cell_size as int),
            r.top_left.y == screen_of(location.y as int, cell_size as int),
            r.top_right.x == r.top_left.x + cell_size,
            r.top_right.y == r.top_left.y,
            r.bottom_left.x == r.top_left.x,
            r.bottom_left.y == r.top_left.y + cell_size,
            r.bottom_right.x == r.top_left.x + cell_size,
            r.bottom_right.y == r.top_left.y + cell_size,
    {
        let screen_loc: Vector2 = location.to_screen(cell_size);
        Cell {
            top_left: Vector2::new(screen_loc.x, screen_loc.y),
            top_right: Vector2::new(screen_loc.x + cell_size, screen_loc.y),
            bottom_left: Vector2::new(screen_loc.x, screen_loc.y + cell_size),
            bottom_right: Vector2::new(screen_loc.x + cell_size, screen_loc.y + cell_size),
        }
    }
}

/// Padding kept between a cell's square and the filled block drawn in it.
pub const CELL_PADDING: i32 = 1;

/// The filled block to draw for a live cell: the cell's square shrunk by
/// the padding on each side.
pub fn cell_draw_rect(cell: &Cell, cell_size: i32) -> (r: Rect)
    requires
        cell_size >= 1,
        cell.top_left.x + CELL_PADDING <= i32::MAX,
        cell.top_left.y + CELL_PADDING <= i32::MAX,
    ensures
        r.x == cell.top_left.x + CELL_PADDING,
        r.y == cell.top_left.y + CELL_PADDING,
        r.w == cell_size - 2 * CELL_PADDING + 1,
        r.h == cell_size - 2 * CELL_PADDING + 1,
{
    let cell_start_x: i32 = cell.top_left.x + CELL_PADDING;
    let cell_start_y: i32 = cell.top_left.y + CELL_PADDING;
    let cell_dim: u32 = (cell_size - 2 * CELL_PADDING + 1) as u32;
    Rect::new(cell_start_x, cell_start_y, cell_dim, cell_dim)
}

/// Why no grid can be shown for the current viewport.
#[derive(Clone, Copy, Debug, PartialEq, Eq, Structural)]
pub enum UiError {
    /// The drawable area cannot hold the margins and at least one cell.
    ScreenTooSmall,
}

/// How many grid rows and columns fit the drawable area, capped at the
/// dimensions of the simulated board: the visible (rows, cols).  Fails
/// exactly when the screen cannot hold the margins and one cell.
pub fn grid_dimensions(
    screen_width: u32,
    screen_height: u32,
    cell_size: i32,
    max_rows: i32,
    max_cols: i32,
) -> (r: Result<(i32, i32), UiError>)
    requires
        cell_size > 0,
    ensures
        (screen_width < 2 * BUFFER_SIZE + cell_size || screen_height < 2 * BUFFER_SIZE + cell_size)
            ==> r == Result::<(i32, i32), UiError>::Err(UiError::ScreenTooSmall),
        (screen_width >= 2 * BUFFER_SIZE + cell_size && screen_height >= 2 * BUFFER_SIZE
            + cell_size) ==> (r matches Ok(d) && {
            let fit_rows = (screen_height - 2 * BUFFER_SIZE) / (cell_size as int);
            let fit_cols = (screen_width - 2 * BUFFER_SIZE) / (cell_size as int);
            &&& d.0 == if max_rows <= fit_rows {
                max_rows as int
            } else {
                fit_rows
            }
            &&& d.1 == if max_cols <= fit_cols {
                max_cols as int
            } else {
                fit_cols
            }
        }),
{
    let minimal: i64 = 2 * BUFFER_SIZE as i64 + cell_size as i64;
    if (screen_width as i64) < minimal || (screen_height as i64) < minimal {
        return Err(UiError::ScreenTooSmall);
    }
    let available_width: i64 = screen_width as i64 - 2 * BUFFER_SIZE as i64;
    let available_height: i64 = screen_height as i64 - 2 * BUFFER_SIZE as i64;
    let fit_rows: i64 = available_height / cell_size as i64;
    let fit_cols: i64 = available_width / cell_size as i64;
    let rows: i64 = if max_rows as i64 <= fit_rows {
        max_rows as i64
    } else {
        fit_rows
    };
    let cols: i64 = if max_cols as i64 <= fit_cols {
        max_cols as i64
    } else {
        fit_cols
    };
    proof {
        vstd::arithmetic::div_mod::lemma_div_pos_is_pos(available_height as int, cell_size as int);
        vstd::arithmetic::div_mod::lemma_div_pos_is_pos(available_width as int, cell_size as int);
    }
    Ok((rows as i32, cols as i32))
}

} // verus!
