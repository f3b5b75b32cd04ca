use lifegrid::controls::{
    in_pause, in_play, in_slider, in_upload, pause_button_rects, play_button_points,
    slider_outer_rect, upload_rect,
};
use lifegrid::draw::{fill_triangle, point_in_triangle};
use lifegrid::ui::{Rect, Vector2};

#[test]
fn play_button_points_on_a_1280_by_720_screen() {
    let (a, b, c) = play_button_points(1280, 720);
    assert_eq!(a, Vector2::new(627, 675));
    assert_eq!(b, Vector2::new(627, 705));
    assert_eq!(c, Vector2::new(652, 690));
}

#[test]
fn in_play_detects_clicks_in_and_out_of_the_triangle() {
    assert!(in_play(1280, 720, 630, 690));
    assert!(in_play(1280, 720, 627, 690));
    assert!(in_play(1280, 720, 652, 690));
    assert!(!in_play(1280, 720, 626, 690));
    assert!(!in_play(1280, 720, 653, 690));
    assert!(!in_play(1280, 720, 630, 674));
    assert!(!in_play(1280, 720, 630, 706));
}

#[test]
fn play_hit_test_matches_the_filled_triangle_pixel_for_pixel() {
    let (a, b, c) = play_button_points(1280, 720);
    let spans = fill_triangle(a, b, c);
    for y in 670..710 {
        let span = spans.iter().find(|s| s.y == y);
        for x in 620..660 {
            let in_spans = match span {
                Some(s) => s.x_start <= x && x <= s.x_end,
                None => false,
            };
            assert_eq!(point_in_triangle(a, b, c, x, y), in_spans);
            assert_eq!(in_play(1280, 720, x, y), in_spans);
        }
    }
}

#[test]
fn pause_button_rects_on_a_1280_by_720_screen() {
    let (left, right) = pause_button_rects(1280, 720);
    assert_eq!(left, Rect::new(628, 675, 7, 30));
    assert_eq!(right, Rect::new(645, 675, 7, 30));
}

#[test]
fn in_pause_covers_both_bars_and_the_gap() {
    // bounding box x in [628, 652), y in [675, 705)
    assert!(in_pause(1280, 720, 628, 675));
    assert!(in_pause(1280, 720, 640, 690));
    assert!(in_pause(1280, 720, 651, 704));
    assert!(!in_pause(1280, 720, 627, 690));
    assert!(!in_pause(1280, 720, 652, 690));
    assert!(!in_pause(1280, 720, 640, 674));
    assert!(!in_pause(1280, 720, 640, 705));
}

#[test]
fn upload_icon_rect_and_hit_test() {
    assert_eq!(upload_rect(), Rect::new(60, 20, 20, 20));
    assert!(in_upload(60, 20));
    assert!(in_upload(79, 39));
    assert!(!in_upload(80, 39));
    assert!(!in_upload(79, 40));
    assert!(!in_upload(59, 30));
}

#[test]
fn slider_rect_and_hit_test() {
    assert_eq!(slider_outer_rect(720), Rect::new(60, 675, 120, 30));
    assert!(in_slider(720, 60, 675));
    assert!(in_slider(720, 179, 704));
    assert!(!in_slider(720, 180, 690));
    assert!(!in_slider(720, 59, 690));
    assert!(!in_slider(720, 100, 705));
}
