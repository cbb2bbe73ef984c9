// The library's general promises, each checked on concrete values.

use tailrace::config::default_config;
use tailrace::events::{
    output_changed_event, output_created, output_removed, seat_created, window_closed, window_created,
    window_dimensions, OutputChange,
};
use tailrace::focus::apply_window_border;
use tailrace::geometry::Rect;
use tailrace::layout::place_window;
use tailrace::manage::manage;
use tailrace::wm::{Request, Window, WindowGeom, WindowManager};

fn wm_with_output(name: &str, id: u32) -> WindowManager {
    let mut wm = WindowManager::new(default_config());
    seat_created(&mut wm);
    output_created(&mut wm, id, true);
    output_changed_event(&mut wm, id, OutputChange::Name(name.to_string()));
    output_changed_event(&mut wm, id, OutputChange::Dimensions(1920, 1080));
    output_changed_event(&mut wm, id, OutputChange::NonExclusiveArea(Rect::new(0, 0, 1920, 1080)));
    wm
}

fn map(wm: &mut WindowManager, id: u32) {
    window_created(wm, id);
    window_dimensions(wm, id);
}

fn all_window_ids(wm: &WindowManager) -> Vec<u32> {
    let mut ids = Vec::new();
    for out in &wm.outputs {
        for ws in &out.workspace_list {
            ids.extend(ws.window_list.iter().map(|w| w.id));
        }
    }
    for d in &wm.detached_outputs {
        for ws in &d.workspace_list {
            ids.extend(ws.window_list.iter().map(|w| w.id));
        }
    }
    ids.sort();
    ids
}

#[test]
fn a_second_border_update_sends_nothing() {
    let config = default_config();
    let mut geom = WindowGeom::new();
    let first = apply_window_border(7, &mut geom, true, &config);
    assert!(matches!(first, Some(Request::SetBorders { window: 7, width: 3, focused: true, .. })));
    assert!(apply_window_border(7, &mut geom, true, &config).is_none());
    let refocused = apply_window_border(7, &mut geom, false, &config);
    assert!(matches!(refocused, Some(Request::SetBorders { window: 7, focused: false, .. })));
}

#[test]
fn fullscreen_windows_get_no_border_width() {
    let config = default_config();
    let mut geom = WindowGeom::new();
    geom.is_fullscreen = true;
    let r = apply_window_border(4, &mut geom, true, &config);
    assert!(matches!(r, Some(Request::SetBorders { window: 4, width: 0, .. })));
}

#[test]
fn a_second_placement_sends_nothing() {
    let mut w = Window::new(9);
    w.geom.finish = Some(Rect::new(10, 20, 300, 200));
    let area = Rect::new(0, 0, 1920, 1080);
    let mut first = Vec::new();
    place_window(&mut w, 1, area, 3, &mut first);
    assert_eq!(first.len(), 4);
    assert!(matches!(first[0], Request::Show(9)));
    assert!(matches!(first[1], Request::ProposeDimensions { window: 9, width: 294, height: 194 }));
    assert!(matches!(first[2], Request::SetPosition { window: 9, x: 13, y: 23 }));
    let mut again = Vec::new();
    place_window(&mut w, 1, area, 3, &mut again);
    assert!(again.is_empty());
}

#[test]
fn a_second_manage_sends_no_border_or_geometry_requests() {
    let mut wm = wm_with_output("eDP-1", 1);
    map(&mut wm, 10);
    map(&mut wm, 11);
    manage(&mut wm);
    assert!(wm.requests.iter().any(|r| matches!(r, Request::SetBorders { .. })));
    wm.requests.clear();
    wm.status = tailrace::wm::Status::Layout;
    manage(&mut wm);
    assert!(!wm.requests.iter().any(|r| matches!(
        r,
        Request::SetBorders { .. }
            | Request::ProposeDimensions { .. }
            | Request::SetPosition { .. }
            | Request::SetClipBox { .. }
            | Request::Show(_)
            | Request::FocusWindow(_)
    )));
}

#[test]
fn unplugging_with_a_survivor_keeps_every_window() {
    let mut wm = wm_with_output("eDP-1", 1);
    output_created(&mut wm, 2, true);
    output_changed_event(&mut wm, 2, OutputChange::Name("HDMI-A-1".to_string()));
    output_changed_event(&mut wm, 2, OutputChange::Dimensions(2560, 1440));
    map(&mut wm, 20);
    map(&mut wm, 21);
    manage(&mut wm);
    let before = all_window_ids(&wm);
    assert_eq!(before, vec![20, 21]);
    output_removed(&mut wm, 2);
    manage(&mut wm);
    assert_eq!(wm.outputs.len(), 1);
    assert_eq!(all_window_ids(&wm), before);
}

#[test]
fn unplugging_the_last_output_keeps_its_windows_detached() {
    let mut wm = wm_with_output("HDMI-A-1", 1);
    map(&mut wm, 30);
    manage(&mut wm);
    output_removed(&mut wm, 1);
    manage(&mut wm);
    assert!(wm.outputs.is_empty());
    assert_eq!(wm.detached_outputs.len(), 1);
    assert_eq!(all_window_ids(&wm), vec![30]);
}

#[test]
fn closing_reports_where_a_mapped_window_was() {
    let mut wm = wm_with_output("DP-1", 1);
    map(&mut wm, 10);
    manage(&mut wm);
    map(&mut wm, 11);
    manage(&mut wm);
    assert_eq!(window_closed(&mut wm, 99), None);
    assert_eq!(window_closed(&mut wm, 10), Some((0, 0, 0)));
    assert_eq!(wm.outputs[0].workspace_list[0].window_list.len(), 1);
    assert_eq!(wm.outputs[0].workspace_list[0].window_list[0].id, 11);
    assert_eq!(window_closed(&mut wm, 10), None);
}
