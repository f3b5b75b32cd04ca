use lifegrid::draw::{fill_triangle, interpolate, point_in_triangle, Span};
use lifegrid::ui::Vector2;

/// A small deterministic pseudo-random generator for test triangles.
fn lcg_next(state: &mut u64) -> u64 {
    *state = state
        .wrapping_mul(6364136223846793005)
        .wrapping_add(1442695040888963407);
    *state
}

fn v(x: i32, y: i32) -> Vector2 {
    Vector2::new(x, y)
}

#[test]
fn interpolate_matches_the_linear_formula() {
    // unit slope
    assert_eq!(interpolate(v(0, 0), v(10, 10), 5), 5);
    // x = 0 + (y - 0) * (9 - 0) / (3 - 0): three columns per row
    assert_eq!(interpolate(v(0, 0), v(9, 3), 2), 6);
    // negative direction truncates toward zero: 1 * -7 / 3 = -2
    assert_eq!(interpolate(v(0, 0), v(-7, 3), 1), -2);
    // vertical edge keeps its x
    assert_eq!(interpolate(v(4, 0), v(4, 9), 7), 4);
    // horizontal edge yields its first endpoint's x
    assert_eq!(interpolate(v(3, 5), v(9, 5), 5), 3);
}

#[test]
fn fill_triangle_produces_the_expected_spans() {
    // right triangle with the vertical leg on the left
    let spans = fill_triangle(v(0, 0), v(4, 0), v(0, 4));
    let expected = vec![
        // at the top scanline the short edge is horizontal and yields its
        // first endpoint's x
        Span { y: 0, x_start: 0, x_end: 0 },
        Span { y: 1, x_start: 0, x_end: 3 },
        Span { y: 2, x_start: 0, x_end: 2 },
        Span { y: 3, x_start: 0, x_end: 1 },
        Span { y: 4, x_start: 0, x_end: 0 },
    ];
    assert_eq!(spans, expected);
}

#[test]
fn fill_triangle_covers_every_scanline_once() {
    let spans = fill_triangle(v(10, -3), v(-5, 12), v(30, 7));
    assert_eq!(spans.len(), (12 - (-3) + 1) as usize);
    for (k, s) in spans.iter().enumerate() {
        assert_eq!(s.y, -3 + k as i32);
    }
}

#[test]
fn point_in_triangle_basic_membership() {
    let (a, b, c) = (v(0, 0), v(10, 0), v(5, 10));
    assert!(point_in_triangle(a, b, c, 5, 5));
    assert!(point_in_triangle(a, b, c, 5, 10));
    // at the flat top the horizontal edge collapses to its first
    // endpoint, so only that pixel is inside — exactly what is drawn
    assert!(point_in_triangle(a, b, c, 0, 0));
    assert!(!point_in_triangle(a, b, c, 5, 0));
    assert!(!point_in_triangle(a, b, c, 5, -1));
    assert!(!point_in_triangle(a, b, c, 5, 11));
    assert!(!point_in_triangle(a, b, c, -1, 5));
    assert!(!point_in_triangle(a, b, c, 11, 5));
}

#[test]
fn degenerate_collinear_triangle_is_well_defined() {
    // all three corners on one vertical line: each span is the single
    // pixel of the segment, and the hit test agrees with the spans
    let (a, b, c) = (v(2, 0), v(2, 3), v(2, 6));
    let spans = fill_triangle(a, b, c);
    assert_eq!(spans.len(), 7);
    for s in &spans {
        assert_eq!((s.x_start, s.x_end), (2, 2));
    }
    assert!(point_in_triangle(a, b, c, 2, 3));
    assert!(!point_in_triangle(a, b, c, 1, 3));
}

#[test]
fn fill_and_hit_test_agree_on_random_triangles() {
    let mut state = 0xd1ce_u64;
    for round in 0..50 {
        let a = v(
            (lcg_next(&mut state) % 201) as i32,
            (lcg_next(&mut state) % 201) as i32,
        );
        let b = v(
            (lcg_next(&mut state) % 201) as i32,
            (lcg_next(&mut state) % 201) as i32,
        );
        let c = v(
            (lcg_next(&mut state) % 201) as i32,
            (lcg_next(&mut state) % 201) as i32,
        );
        let spans = fill_triangle(a, b, c);
        let x_lo = a.x.min(b.x).min(c.x) - 2;
        let x_hi = a.x.max(b.x).max(c.x) + 2;
        let y_lo = a.y.min(b.y).min(c.y) - 2;
        let y_hi = a.y.max(b.y).max(c.y) + 2;
        for y in y_lo..=y_hi {
            let span = spans.iter().find(|s| s.y == y);
            for x in x_lo..=x_hi {
                let in_spans = match span {
                    Some(s) => s.x_start <= x && x <= s.x_end,
                    None => false,
                };
                assert_eq!(
                    point_in_triangle(a, b, c, x, y),
                    in_spans,
                    "round {} triangle {:?} {:?} {:?} point ({}, {})",
                    round,
                    a,
                    b,
                    c,
                    x,
                    y
                );
            }
        }
    }
}
