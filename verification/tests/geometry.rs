use tailrace::geometry::{center_rectangle, clamp_i32, fit_into, move_floating, resize_floating, sanitize, scale_floating, Rect};
use tailrace::layout::{clip_box, column_width};
use tailrace::migrate::fixup_indices_after_output_removal;
use tailrace::overview::grid_columns;
use tailrace::text::glob_match;

fn chars(s: &str) -> Vec<char> {
    s.chars().collect()
}

#[test]
fn fit_into_shrinks_and_moves_inside() {
    let area = Rect::new(0, 0, 1360, 768);
    let r = fit_into(Rect::new(640, 360, 1280, 720), area, 6);
    assert_eq!(r, Rect::new(80, 48, 1280, 720));
    let r = fit_into(Rect::new(-50, 900, 2000, 10), area, 6);
    assert_eq!(r, Rect::new(0, 758, 1360, 10));
}

#[test]
fn center_takes_half_the_area() {
    assert_eq!(center_rectangle(Rect::new(1920, 0, 1920, 1080)), Rect::new(2400, 270, 960, 540));
}

#[test]
fn floating_moves_and_resizes_stay_inside() {
    let area = Rect::new(0, 0, 1920, 1080);
    assert_eq!(move_floating(Rect::new(480, 270, 960, 540), area, 20, 0, 6), Rect::new(500, 270, 960, 540));
    assert_eq!(move_floating(Rect::new(1900, 270, 960, 540), area, 20, 0, 6), Rect::new(960, 270, 960, 540));
    assert_eq!(resize_floating(Rect::new(480, 270, 960, 540), area, 192, 0, 6), Rect::new(480, 270, 1152, 540));
    assert_eq!(scale_floating(Rect::new(480, 270, 960, 540), area, 192, 108, 6), Rect::new(384, 216, 1152, 648));
}

#[test]
fn clamp_lets_the_lower_bound_win() {
    assert_eq!(clamp_i32(5, 10, 3), 10);
    assert_eq!(clamp_i32(5, 1, 3), 3);
    assert_eq!(clamp_i32(2, 1, 3), 2);
}

#[test]
fn sanitize_keeps_sane_areas_and_fixes_others() {
    assert_eq!(sanitize(Rect::new(0, 0, 1920, 1080)), Rect::new(0, 0, 1920, 1080));
    assert_eq!(sanitize(Rect::new(5, 5, -3, 7)), Rect::new(5, 5, 0, 7));
    assert_eq!(sanitize(Rect::new(i32::MAX, 0, 10, 10)), Rect::new(i32::MAX - 10, 0, 10, 10));
}

#[test]
fn column_width_is_a_proportion_of_the_usable_width() {
    assert_eq!(column_width(1920, 10, 500), 945);
    assert_eq!(column_width(1920, 10, 1000), 1900);
    assert_eq!(column_width(100, 10, 0), 1);
    assert_eq!(column_width(i32::MAX, -10, u32::MAX), i32::MAX);
}

#[test]
fn clip_box_is_the_visible_part_in_window_coordinates() {
    let area = Rect::new(0, 0, 1920, 1080);
    assert_eq!(clip_box(Rect::new(1800, 10, 300, 100), area, false), Rect::new(0, 0, 120, 100));
    assert_eq!(clip_box(Rect::new(-100, 10, 300, 100), area, false), Rect::new(100, 0, 200, 100));
    assert_eq!(clip_box(Rect::new(1920, 0, 1920, 1080), area, true), Rect::new(0, 0, 1920, 1080));
}

#[test]
fn grid_columns_are_the_ceiling_square_root() {
    assert_eq!(grid_columns(0), 1);
    assert_eq!(grid_columns(1), 1);
    assert_eq!(grid_columns(2), 2);
    assert_eq!(grid_columns(4), 2);
    assert_eq!(grid_columns(5), 3);
    assert_eq!(grid_columns(10), 4);
}

#[test]
fn fixup_follows_the_removed_output() {
    let mut f = Some(1);
    fixup_indices_after_output_removal(&mut f, 1, 2);
    assert_eq!(f, Some(0));
    // The last of three outputs moves into the removed first slot.
    let mut f = Some(2);
    fixup_indices_after_output_removal(&mut f, 0, 3);
    assert_eq!(f, Some(0));
    let mut f = Some(1);
    fixup_indices_after_output_removal(&mut f, 0, 3);
    assert_eq!(f, Some(1));
    let mut f = Some(0);
    fixup_indices_after_output_removal(&mut f, 0, 1);
    assert_eq!(f, None);
    let mut f = Some(0);
    fixup_indices_after_output_removal(&mut f, 2, 3);
    assert_eq!(f, Some(0));
}

#[test]
fn glob_stars_match_any_run() {
    assert!(glob_match(&chars("*Picture-in-Picture*"), &chars("Picture-in-Picture (mpv)")));
    assert!(glob_match(&chars("foot"), &chars("foot")));
    assert!(!glob_match(&chars("foot"), &chars("footclient")));
    assert!(glob_match(&chars("foot*"), &chars("footclient")));
    assert!(glob_match(&chars("*"), &chars("")));
    assert!(!glob_match(&chars("a*c"), &chars("abd")));
}
