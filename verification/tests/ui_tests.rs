use lifegrid::ui::{cell_draw_rect, grid_dimensions, Cell, Rect, UiError, Vector2};

#[test]
fn to_screen_maps_grid_corners_to_pixels() {
    assert_eq!(Vector2::new(0, 0).to_screen(30), Vector2::new(60, 60));
    // x is the column, y is the row
    assert_eq!(Vector2::new(3, 2).to_screen(30), Vector2::new(150, 120));
    assert_eq!(Vector2::new(1, 1).to_screen(7), Vector2::new(67, 67));
}

#[test]
fn every_interior_pixel_round_trips_on_a_20_by_20_grid() {
    // cellSize 30, margin 60, 20 visible rows and columns
    for r in 0..20 {
        for c in 0..20 {
            let corner = Vector2::new(c, r).to_screen(30);
            let back = Vector2::new(corner.x + 1, corner.y + 1).to_grid(20, 20, 30);
            assert_eq!(back, Vector2::new(c, r), "cell ({}, {})", r, c);
            // the far interior corner of the same square also maps back
            let far = Vector2::new(corner.x + 29, corner.y + 29).to_grid(20, 20, 30);
            assert_eq!(far, Vector2::new(c, r), "cell ({}, {}) far corner", r, c);
        }
    }
}

#[test]
fn margin_band_pixels_map_to_out_of_bounds() {
    let out = Vector2::new(-1, -1);
    // left and top margin, including the margin line itself
    assert_eq!(Vector2::new(60, 300).to_grid(20, 20, 30), out);
    assert_eq!(Vector2::new(300, 60).to_grid(20, 20, 30), out);
    assert_eq!(Vector2::new(30, 300).to_grid(20, 20, 30), out);
    assert_eq!(Vector2::new(0, 0).to_grid(20, 20, 30), out);
    // right and bottom edge: 60 + 20 * 30 = 660 is already outside
    assert_eq!(Vector2::new(660, 300).to_grid(20, 20, 30), out);
    assert_eq!(Vector2::new(300, 660).to_grid(20, 20, 30), out);
    assert_eq!(Vector2::new(1000, 300).to_grid(20, 20, 30), out);
    // one pixel inside the grid area on each axis
    assert_eq!(Vector2::new(61, 61).to_grid(20, 20, 30), Vector2::new(0, 0));
    assert_eq!(Vector2::new(659, 659).to_grid(20, 20, 30), Vector2::new(19, 19));
}

#[test]
fn cell_corners_from_top_left() {
    let cell = Cell::from_top_left(Vector2::new(100, 200), 30);
    assert_eq!(cell.top_left, Vector2::new(100, 200));
    assert_eq!(cell.top_right, Vector2::new(130, 200));
    assert_eq!(cell.bottom_left, Vector2::new(100, 230));
    assert_eq!(cell.bottom_right, Vector2::new(130, 230));
}

#[test]
fn cell_corners_from_grid_coordinates() {
    let cell = Cell::from_grid(Vector2::new(2, 1), 30);
    assert_eq!(cell.top_left, Vector2::new(120, 90));
    assert_eq!(cell.top_right, Vector2::new(150, 90));
    assert_eq!(cell.bottom_left, Vector2::new(120, 120));
    assert_eq!(cell.bottom_right, Vector2::new(150, 120));
}

#[test]
fn cell_draw_rect_shrinks_the_square_by_the_padding() {
    let cell = Cell::from_grid(Vector2::new(0, 0), 30);
    let rect = cell_draw_rect(&cell, 30);
    assert_eq!(rect, Rect::new(61, 61, 29, 29));
}

#[test]
fn rect_containment_is_half_open() {
    let rect = Rect::new(10, 20, 5, 4);
    assert!(rect.contains_point(10, 20));
    assert!(rect.contains_point(14, 23));
    assert!(!rect.contains_point(15, 23));
    assert!(!rect.contains_point(14, 24));
    assert!(!rect.contains_point(9, 20));
    assert!(!rect.contains_point(10, 19));
}

#[test]
fn grid_dimensions_fit_the_viewport_and_the_board() {
    // 1280x720 with 30-pixel cells: 20 rows and 38 columns fit
    assert_eq!(grid_dimensions(1280, 720, 30, 60, 60), Ok((20, 38)));
    // a large viewport is capped at the simulated board size
    assert_eq!(grid_dimensions(4000, 4000, 30, 60, 60), Ok((60, 60)));
    // exactly the margins plus one cell
    assert_eq!(grid_dimensions(150, 150, 30, 60, 60), Ok((1, 1)));
}

#[test]
fn grid_dimensions_reject_a_too_small_screen() {
    assert_eq!(
        grid_dimensions(149, 720, 30, 60, 60),
        Err(UiError::ScreenTooSmall)
    );
    assert_eq!(
        grid_dimensions(1280, 100, 30, 60, 60),
        Err(UiError::ScreenTooSmall)
    );
}
