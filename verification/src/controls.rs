//! Layout of the on-screen controls — play button triangle, pause
//! rectangles, speed slider, upload icon — and the hit tests that decide
//! which control a click lands on.  The play button's hit test goes
//! through the same scanline geometry that fills it, so the clickable
//! region is exactly the drawn region.

use vstd::prelude::*;
use crate::arith::{div_trunc, div_trunc_i64};
use crate::draw::{hit_spec, point_in_triangle};
use crate::ui::{rect_contains, Rect, Vector2, BUFFER_SIZE};
use vstd::math::abs;

verus! {

/// Height in pixels of the controls drawn inside the bottom margin band:
/// half the margin.
pub const HEIGHT: i32 = 30;

/// Width in pixels of the play button triangle: the height of an
/// equilateral triangle whose side is the button height (HEIGHT / 2
/// times the square root of three, rounded down).
pub const PLAY_BUTTON_WIDTH: i32 = 25;

/// Width in pixels of each bar of the pause button: a quarter of the
/// control height.
pub const PAUSE_BUTTON_WIDTH: i32 = 7;

/// Distance in pixels between the two bars of the pause button: a third
/// of the control height.
pub const PAUSE_BUTTON_DIST: i32 = 10;

/// Padding above the controls: the margin height split evenly around
/// the control height.
pub const PADDING_TOP: i32 = 15;

/// Padding below the controls: what the margin height leaves after the
/// top padding and the control.
pub const PADDING_BOTTOM: i32 = 15;

/// Left edge in pixels of the speed slider.
pub const SLIDER_X: i32 = 60;

/// Width in pixels of the speed slider.
pub const SLIDER_WIDTH: i32 = 120;

/// Padding in pixels between the slider's frame and its filled bar.
pub const SLIDER_PADDING: i32 = 2;

/// Side length in pixels of the upload icon.
pub const ICON_SIZE: i32 = 20;

/// Left edge in pixels of the upload icon.
pub const UPLOAD_X: i32 = 60;

/// The corners of the play button triangle for a screen of the given
/// size: a vertical left edge centered horizontally, and an apex pointing
/// right, all inside the bottom margin band.
pub open spec fn play_triangle(w: int, h: int) -> (Vector2, Vector2, Vector2) {
    (
        Vector2 {
            x: div_trunc(w - PLAY_BUTTON_WIDTH, 2) as i32,
            y: (h - BUFFER_SIZE + PADDING_TOP) as i32,
        },
        Vector2 { x: div_trunc(w - PLAY_BUTTON_WIDTH, 2) as i32, y: (h - PADDING_BOTTOM) as i32 },
        Vector2 {
            x: div_trunc(w + PLAY_BUTTON_WIDTH, 2) as i32,
            y: (h - PADDING_BOTTOM - HEIGHT / 2) as i32,
        },
    )
}

/// Halving any value near the i32 range leaves a value inside it.
proof fn lemma_half_fits_i32(x: int)
    requires
        -0x8000_0100 <= x <= 0x8000_0100,
    ensures
        i32::MIN < div_trunc(x, 2) < i32::MAX,
{
    vstd::arithmetic::div_mod::lemma_div_is_ordered(abs(x) as int, 0x8000_0100, 2);
    vstd::arithmetic::div_mod::lemma_div_pos_is_pos(abs(x) as int, 2);
    assert(0x8000_0100int / 2 == 0x4000_0080);
}

/// The corners of the play button triangle for the given screen size.
pub fn play_button_points(screen_width: i32, screen_height: i32) -> (r: (
    Vector2,
    Vector2,
    Vector2,
))
    requires
        screen_height >= i32::MIN + BUFFER_SIZE,
    ensures
        r == play_triangle(screen_width as int, screen_height as int),
{
    proof {
        lemma_half_fits_i32(screen_width - PLAY_BUTTON_WIDTH);
        lemma_half_fits_i32(screen_width + PLAY_BUTTON_WIDTH);
    }
    let left_x: i32 = div_trunc_i64(screen_width as i64 - PLAY_BUTTON_WIDTH as i64, 2) as i32;
    let apex_x: i32 = div_trunc_i64(screen_width as i64 + PLAY_BUTTON_WIDTH as i64, 2) as i32;
    let a = Vector2::new(left_x, screen_height - BUFFER_SIZE + PADDING_TOP);
    let b = Vector2::new(left_x, screen_height - PADDING_BOTTOM);
    let c = Vector2::new(apex_x, screen_height - PADDING_BOTTOM - HEIGHT / 2);
    (a, b, c)
}

/// Whether (x, y) lies in the play button drawn on a screen of the given
/// size: membership in the play triangle by the shared scanline test.
pub open spec fn play_hit(w: int, h: int, x: int, y: int) -> bool {
    let t = play_triangle(w, h);
    hit_spec(t.0, t.1, t.2, x, y)
}

/// Given x and y coordinates, check to see if the click is within the
/// play button.
pub fn in_play(screen_width: i32, screen_height: i32, x: i32, y: i32) -> (r: bool)
    requires
        screen_height >= i32::MIN + BUFFER_SIZE,
    ensures
        r == play_hit(screen_width as int, screen_height as int, x as int, y as int),
{
    let (a, b, c) = play_button_points(screen_width, screen_height);
    point_in_triangle(a, b, c, x, y)
}

/// The left bar of the pause button.
pub open spec fn pause_left_rect(w: int, h: int) -> Rect {
    Rect {
        x: (div_trunc(w - PAUSE_BUTTON_DIST, 2) - PAUSE_BUTTON_WIDTH) as i32,
        y: (h - PADDING_BOTTOM - HEIGHT) as i32,
        w: PAUSE_BUTTON_WIDTH as u32,
        h: HEIGHT as u32,
    }
}

/// The right bar of the pause button.
pub open spec fn pause_right_rect(w: int, h: int) -> Rect {
    Rect {
        x: div_trunc(w + PAUSE_BUTTON_DIST, 2) as i32,
        y: (h - PADDING_BOTTOM - HEIGHT) as i32,
        w: PAUSE_BUTTON_WIDTH as u32,
        h: HEIGHT as u32,
    }
}

/// The bounding box of the whole pause button, both bars and the gap.
pub open spec fn pause_bound_rect(w: int, h: int) -> Rect {
    Rect {
        x: (div_trunc(w - PAUSE_BUTTON_DIST, 2) - PAUSE_BUTTON_WIDTH) as i32,
        y: (h - PADDING_BOTTOM - HEIGHT) as i32,
        w: (2 * PAUSE_BUTTON_WIDTH + PAUSE_BUTTON_DIST) as u32,
        h: HEIGHT as u32,
    }
}

/// The two bars of the pause button for the given screen size.
pub fn pause_button_rects(screen_width: i32, screen_height: i32) -> (r: (Rect, Rect))
    requires
        screen_height >= i32::MIN + BUFFER_SIZE,
    ensures
        r.0 == pause_left_rect(screen_width as int, screen_height as int),
        r.1 == pause_right_rect(screen_width as int, screen_height as int),
{
    proof {
        lemma_half_fits_i32(screen_width - PAUSE_BUTTON_DIST);
        lemma_half_fits_i32(screen_width + PAUSE_BUTTON_DIST);
    }
    let lx: i32 = (div_trunc_i64(screen_width as i64 - PAUSE_BUTTON_DIST as i64, 2)
        - PAUSE_BUTTON_WIDTH as i64) as i32;
    let rx: i32 = div_trunc_i64(screen_width as i64 + PAUSE_BUTTON_DIST as i64, 2) as i32;
    let top: i32 = screen_height - PADDING_BOTTOM - HEIGHT;
    let left = Rect::new(lx, top, PAUSE_BUTTON_WIDTH as u32, HEIGHT as u32);
    let right = Rect::new(rx, top, PAUSE_BUTTON_WIDTH as u32, HEIGHT as u32);
    (left, right)
}

/// Given x and y coordinates, check to see if the click is within the
/// pause button's bounding box.
pub fn in_pause(screen_width: i32, screen_height: i32, x: i32, y: i32) -> (r: bool)
    requires
        screen_height >= i32::MIN + BUFFER_SIZE,
    ensures
        r == rect_contains(
            pause_bound_rect(screen_width as int, screen_height as int),
            x as int,
            y as int,
        ),
{
    proof {
        lemma_half_fits_i32(screen_width - PAUSE_BUTTON_DIST);
    }
    let lx: i32 = (div_trunc_i64(screen_width as i64 - PAUSE_BUTTON_DIST as i64, 2)
        - PAUSE_BUTTON_WIDTH as i64) as i32;
    let top: i32 = screen_height - PADDING_BOTTOM - HEIGHT;
    let bound = Rect::new(lx, top, (2 * PAUSE_BUTTON_WIDTH + PAUSE_BUTTON_DIST) as u32, HEIGHT as u32);
    bound.contains_point(x, y)
}

/// The bounding box of the upload icon, inside the top margin band.
pub open spec fn upload_rect_spec() -> Rect {
    Rect {
        x: UPLOAD_X,
        y: ((BUFFER_SIZE - ICON_SIZE) / 2) as i32,
        w: ICON_SIZE as u32,
        h: ICON_SIZE as u32,
    }
}

/// The rectangle in which the upload icon is drawn.
pub fn upload_rect() -> (r: Rect)
    ensures
        r == upload_rect_spec(),
{
    Rect::new(UPLOAD_X, (BUFFER_SIZE - ICON_SIZE) / 2, ICON_SIZE as u32, ICON_SIZE as u32)
}

/// Given x and y coordinates, check to see if the click is within the
/// upload icon.
pub fn in_upload(x: i32, y: i32) -> (r: bool)
    ensures
        r == rect_contains(upload_rect_spec(), x as int, y as int),
{
    let rc = upload_rect();
    rc.contains_point(x, y)
}

/// The frame of the speed slider, inside the bottom margin band.
pub open spec fn slider_rect_spec(h: int) -> Rect {
    Rect {
        x: SLIDER_X,
        y: (h - PADDING_BOTTOM - HEIGHT) as i32,
        w: SLIDER_WIDTH as u32,
        h: HEIGHT as u32,
    }
}

/// The outer rectangle of the speed slider for the given screen height.
pub fn slider_outer_rect(screen_height: i32) -> (r: Rect)
    requires
        screen_height >= i32::MIN + BUFFER_SIZE,
    ensures
        r == slider_rect_spec(screen_height as int),
{
    Rect::new(SLIDER_X, screen_height - PADDING_BOTTOM - HEIGHT, SLIDER_WIDTH as u32, HEIGHT as u32)
}

/// Given x and y coordinates, check to see if the click is within the
/// slider.
pub fn in_slider(screen_height: i32, x: i32, y: i32) -> (r: bool)
    requires
        screen_height >= i32::MIN + BUFFER_SIZE,
    ensures
        r == rect_contains(slider_rect_spec(screen_height as int), x as int, y as int),
{
    let rc = slider_outer_rect(screen_height);
    rc.contains_point(x, y)
}

} // verus!
