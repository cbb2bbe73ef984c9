// Scenario tests: a small driver feeds the state machine the events river
// would send, runs manage sequences, and records the requests it queues.

use tailrace::actions::{KeybindingAction, PointerAction};
use tailrace::bindings::{binding_pressed, overview_key_pressed};
use tailrace::config::{default_config, WindowRule};
use tailrace::dispatch::dispatch_action;
use tailrace::events::{
    cursor_shape_ready, op_delta, op_release, output_changed_event, output_created, output_removed,
    pointer_binding_pressed, pointer_entered, seat_created, session_locked, session_unlocked, window_closed,
    window_created, window_dimensions, window_fullscreen_requested, window_text, OutputChange, WindowText,
};
use tailrace::geometry::{center_rectangle, Rect};
use tailrace::keybinding::default_keybindings;
use tailrace::manage::manage;
use tailrace::wm::{CursorShape, LayerShellFocus, Request, Status, Window, WindowManager};

struct Session {
    wm: WindowManager,
    next_id: u32,
    outputs: Vec<(String, u32)>,
    log: Vec<Request>,
}

impl Session {
    fn drain(&mut self) {
        let queued = std::mem::take(&mut self.wm.requests);
        self.log.extend(queued);
    }

    fn fresh_id(&mut self) -> u32 {
        self.next_id += 1;
        self.next_id
    }

    fn add_seat(&mut self) {
        seat_created(&mut self.wm);
        self.drain();
    }

    fn manage(&mut self) {
        manage(&mut self.wm);
        self.drain();
    }

    fn add_output(&mut self, name: &str, pos: (i32, i32), dims: (i32, i32)) -> u32 {
        let id = self.fresh_id();
        self.outputs.push((name.to_string(), id));
        output_created(&mut self.wm, id, true);
        output_changed_event(&mut self.wm, id, OutputChange::NonExclusiveArea(Rect::new(pos.0, pos.1, dims.0, dims.1)));
        output_changed_event(&mut self.wm, id, OutputChange::Name(name.to_string()));
        output_changed_event(&mut self.wm, id, OutputChange::Position(pos.0, pos.1));
        output_changed_event(&mut self.wm, id, OutputChange::Dimensions(dims.0, dims.1));
        self.drain();
        id
    }

    fn output_id(&self, name: &str) -> u32 {
        self.outputs.iter().rev().find(|(n, _)| n == name).map(|(_, id)| *id).expect("output added")
    }

    fn remove_output(&mut self, id: u32) {
        output_removed(&mut self.wm, id);
        self.drain();
    }

    fn add_pending_window(&mut self) -> u32 {
        let id = self.fresh_id();
        window_created(&mut self.wm, id);
        self.drain();
        id
    }

    fn map_window(&mut self, id: u32) {
        window_dimensions(&mut self.wm, id);
        self.drain();
    }

    fn add_window(&mut self) -> u32 {
        let id = self.add_pending_window();
        self.map_window(id);
        id
    }

    fn close_window(&mut self, id: u32) {
        window_closed(&mut self.wm, id);
        self.drain();
    }

    fn dispatch(&mut self, action: KeybindingAction) {
        dispatch_action(&mut self.wm, &action);
        self.drain();
    }

    /// Press the key bound to `action` in the default bindings.
    fn press(&mut self, action: KeybindingAction) {
        let index = default_keybindings()
            .iter()
            .position(|kb| kb.action == action)
            .expect("action has a default binding");
        binding_pressed(&mut self.wm, index);
        self.drain();
    }

    fn clear_request_log(&mut self) {
        self.drain();
        self.log.clear();
    }

    fn count(&self, pred: impl Fn(&Request) -> bool) -> usize {
        self.log.iter().filter(|r| pred(r)).count()
    }

    fn check_consistent(&self) {
        let wm = &self.wm;
        if let Some(foi) = wm.focused_output_idx {
            assert!(foi < wm.outputs.len(), "focused_output_idx {foi} out of bounds ({} outputs)", wm.outputs.len());
            assert!(!wm.outputs[foi].is_removed, "focused output is removed");
        }
        for (i, out) in wm.outputs.iter().enumerate() {
            if out.is_removed {
                continue;
            }
            for (wi, ws) in out.workspace_list.iter().enumerate() {
                if let Some(f) = ws.focused_window_idx {
                    assert!(f < ws.window_list.len(), "ws {i}/{wi} focus {f} OOB");
                }
            }
        }
    }

    fn focused_window(&self) -> &Window {
        let (o, w, i) = self.wm.focused_window_location().expect("a window is focused");
        &self.wm.outputs[o].workspace_list[w].window_list[i]
    }
}

/// Stand-in keysyms for the configured keys: the state machine only
/// passes them on, so any distinct values do.
fn looked_up(count: usize) -> Vec<Option<u32>> {
    (0..count).map(|j| Some(0x1000 + j as u32)).collect()
}

fn build() -> Session {
    let config = default_config();
    let n = config.keybindings.len();
    let mut wm = WindowManager::new(config);
    wm.keysyms = looked_up(n);
    Session { wm, next_id: 0, outputs: Vec::new(), log: Vec::new() }
}

fn is_focus_window(r: &Request) -> bool {
    matches!(r, Request::FocusWindow(_))
}

fn is_clear_focus(r: &Request) -> bool {
    matches!(r, Request::ClearFocus)
}

// ---------------------------------------------------------------------------
// Manage sequences
// ---------------------------------------------------------------------------

#[test]
fn setup_bindings_waits_for_an_output_and_runs_once() {
    let mut s = build();
    s.add_seat();
    s.manage();

    assert!(s.wm.needs_setup_bindings, "the setup request must survive a manage without a focused output");
    assert!(s.wm.pointer_bindings.is_empty(), "no bindings before an output exists");

    s.add_output("A", (0, 0), (1920, 1080));
    s.manage();
    assert!(!s.wm.needs_setup_bindings, "request consumed");
    assert_eq!(s.wm.pointer_bindings.len(), 2, "default pointer bindings");
    assert!(s.wm.xkb_bindings.len() > 50, "default keybindings, got {}", s.wm.xkb_bindings.len());

    let before = s.count(|r| matches!(r, Request::GetPointerBinding { .. }));
    s.manage();
    s.manage();
    assert_eq!(
        s.count(|r| matches!(r, Request::GetPointerBinding { .. })),
        before,
        "bindings must be created once"
    );
}

#[test]
fn layout_manage_ends_the_pointer_op_and_returns_to_none() {
    let mut s = build();
    s.add_seat();
    s.manage();
    s.add_output("A", (0, 0), (1920, 1080));
    s.manage();
    s.add_window();
    s.manage();

    s.clear_request_log();
    s.manage();
    assert_eq!(s.wm.status, Status::Idle);
    assert!(s.count(|r| matches!(r, Request::OpEnd)) >= 1, "the manage cycle must end the pointer op");
}

#[test]
fn exclusive_layer_shell_focus_skips_focus_commands() {
    let mut s = build();
    s.add_seat();
    s.manage();
    s.add_output("A", (0, 0), (1920, 1080));
    s.manage();
    s.add_window();
    s.manage();

    s.wm.layer_shell_focus = LayerShellFocus::Exclusive;
    s.clear_request_log();
    s.manage();
    assert_eq!(
        s.count(is_focus_window) + s.count(is_clear_focus),
        0,
        "exclusive layer-shell focus must suppress focus commands"
    );

    s.wm.layer_shell_focus = LayerShellFocus::Unfocused;
    s.wm.last_focused_window = None;
    s.wm.needs_refocus = true;
    s.wm.status = Status::Layout;
    s.clear_request_log();
    s.manage();
    assert_eq!(s.count(is_focus_window), 1, "focus must be re-issued after exclusive focus is revoked");
}

#[test]
fn locked_session_skips_focus_commands_and_restores_on_unlock() {
    let mut s = build();
    s.add_seat();
    s.manage();
    s.add_output("A", (0, 0), (1920, 1080));
    s.manage();
    s.add_window();
    s.manage();

    session_locked(&mut s.wm);
    assert!(s.wm.session_locked);
    assert!(s.wm.lock_focus.is_some(), "focused window saved");
    s.clear_request_log();
    s.manage();
    assert_eq!(s.count(is_focus_window) + s.count(is_clear_focus), 0, "focus must not be touched while locked");

    session_unlocked(&mut s.wm);
    assert!(!s.wm.session_locked);
    assert!(s.wm.needs_refocus, "unlock must force a refocus");
    s.clear_request_log();
    s.manage();
    s.manage();
    assert_eq!(s.count(is_focus_window), 1, "the focused window must be restored after unlock");
}

#[test]
fn exit_status_calls_exit_session() {
    let mut s = build();
    s.add_seat();
    s.manage();
    s.add_output("A", (0, 0), (1920, 1080));
    s.manage();
    s.add_window();
    s.manage();

    s.dispatch(KeybindingAction::Exit);
    assert_eq!(s.wm.status, Status::Exit);
    s.clear_request_log();
    s.manage();
    assert_eq!(
        s.count(|r| matches!(r, Request::ExitSession)),
        1,
        "Exit must call river_window_manager_v1.exit_session"
    );
}

// ---------------------------------------------------------------------------
// Output hotplug
// ---------------------------------------------------------------------------

#[test]
fn unplug_hdmi_while_edp_present() {
    let mut s = build();
    s.add_seat();
    s.manage();
    s.manage();

    s.add_output("eDP-1", (0, 0), (1920, 1080));
    s.manage();
    s.add_window();
    s.manage();

    let hdmi = s.add_output("HDMI-A-1", (1920, 0), (1920, 1080));
    s.manage();
    s.add_window();
    s.manage();

    s.remove_output(hdmi);
    s.manage();
    s.check_consistent();

    let wm = &s.wm;
    assert_eq!(wm.outputs.len(), 1, "only eDP-1 should survive");
    let edp = &wm.outputs[0];
    assert_eq!(edp.name.as_deref(), Some("eDP-1"));
    assert_eq!(wm.focused_output_idx, Some(0));
    let edp_ws0 = &edp.workspace_list[0];
    assert_eq!(edp_ws0.window_list.len(), 2, "HDMI windows migrate to eDP ws0");
    assert_eq!(
        edp_ws0.window_list[1].geom.former_output_name.as_deref(),
        Some("HDMI-A-1"),
        "migrated window remembers its source output"
    );
    tailrace::layout::update(&mut s.wm);
    s.check_consistent();
}

#[test]
fn external_only_hdmi_unplug_returns_to_edp() {
    let mut s = build();
    s.add_seat();
    s.manage();
    s.manage();

    s.add_output("eDP-1", (0, 0), (1920, 1080));
    s.manage();
    s.add_window();
    s.manage();

    let edp = s.output_id("eDP-1");
    s.remove_output(edp);
    s.manage();
    s.check_consistent();
    assert_eq!(s.wm.outputs.len(), 0, "no outputs while HDMI-only");

    let hdmi = s.add_output("HDMI-A-1", (0, 0), (1920, 1080));
    s.manage();
    s.add_window();
    s.manage();
    assert!(!s.wm.detached_outputs.is_empty() || s.wm.outputs.len() == 1);

    s.remove_output(hdmi);
    s.manage();
    s.check_consistent();
    assert_eq!(s.wm.outputs.len(), 0);
    assert!(!s.wm.detached_outputs.is_empty(), "windows must survive the HDMI unplug");

    s.add_output("eDP-1", (0, 0), (1920, 1080));
    s.manage();
    s.check_consistent();

    let wm = &s.wm;
    assert_eq!(wm.outputs.len(), 1, "eDP-1 back");
    assert_eq!(wm.outputs[0].name.as_deref(), Some("eDP-1"));
    assert_eq!(wm.focused_output_idx, Some(0));
    let total: usize = wm.outputs[0].workspace_list.iter().map(|ws| ws.window_list.len()).sum();
    assert_eq!(total, 2, "both windows restored to eDP-1");
    assert!(wm.detached_outputs.is_empty(), "restored workspaces are no longer detached");
}

#[test]
fn detach_then_readd_same_name_restores_windows() {
    let mut s = build();
    s.add_seat();
    s.manage();
    s.manage();

    s.add_output("eDP-1", (0, 0), (1920, 1080));
    s.manage();
    s.add_window();
    s.manage();

    let edp = s.output_id("eDP-1");
    s.remove_output(edp);
    s.manage();
    s.check_consistent();

    s.add_output("eDP-1", (0, 0), (1920, 1080));
    s.manage();
    s.check_consistent();
    let wm = &s.wm;
    assert_eq!(wm.outputs.len(), 1);
    let total: usize = wm.outputs[0].workspace_list.iter().map(|ws| ws.window_list.len()).sum();
    assert!(total >= 1, "window survives the cycle");
    assert_eq!(wm.focused_output_idx, Some(0));
}

#[test]
fn hdmi_2k_unplug_restores_small_laptop_screen() {
    let mut s = build();
    s.add_seat();
    s.manage();
    s.manage();

    s.add_output("eDP-1", (0, 0), (1360, 768));
    s.manage();
    s.add_window();
    s.manage();

    let hdmi = s.add_output("HDMI-A-1", (0, 0), (2560, 1440));
    s.manage();
    let edp = s.output_id("eDP-1");
    s.remove_output(edp);
    s.manage();
    s.check_consistent();
    assert_eq!(s.wm.outputs.len(), 1, "only HDMI while laptop is off");
    assert_eq!(s.wm.outputs[0].name.as_deref(), Some("HDMI-A-1"));

    s.add_window();
    s.manage();
    {
        let wm = &mut s.wm;
        let oi = wm.focused_output_idx.unwrap();
        let ws = wm.outputs[oi].focused_workspace_idx;
        let rect = wm.outputs[oi].rectangle;
        let window = wm.outputs[oi].workspace_list[ws].window_list.last_mut().unwrap();
        window.geom.is_floating = true;
        window.geom.floating = center_rectangle(rect);
    }
    s.manage();
    s.check_consistent();

    s.remove_output(hdmi);
    s.manage();
    assert_eq!(s.wm.outputs.len(), 0, "nothing left while laptop off");
    assert!(!s.wm.detached_outputs.is_empty(), "windows preserved");

    s.add_output("eDP-1", (0, 0), (1360, 768));
    s.manage();
    s.check_consistent();

    let wm = &s.wm;
    assert_eq!(wm.outputs.len(), 1, "eDP-1 back");
    assert_eq!(wm.outputs[0].name.as_deref(), Some("eDP-1"));
    assert_eq!(wm.focused_output_idx, Some(0));
    let out = wm.outputs[0].rectangle;
    assert_eq!((out.width, out.height), (1360, 768));

    let mut total = 0;
    for ws in &wm.outputs[0].workspace_list {
        for w in &ws.window_list {
            total += 1;
            let rect = w.geom.finish.unwrap_or(w.geom.current);
            assert!(
                rect.x >= out.x
                    && rect.y >= out.y
                    && rect.x + rect.width <= out.x + out.width
                    && rect.y + rect.height <= out.y + out.height,
                "window {total} {rect:?} overhangs the laptop {out:?}"
            );
        }
    }
    assert_eq!(total, 2, "both windows transferred back to the laptop");
    assert!(wm.detached_outputs.is_empty(), "no detached workspaces left");
}

#[test]
fn unplug_and_readd_in_same_batch_returns_to_laptop() {
    let mut s = build();
    s.add_seat();
    s.manage();
    s.manage();

    s.add_output("eDP-1", (0, 0), (1360, 768));
    s.manage();
    s.add_window();
    s.manage();

    let hdmi = s.add_output("HDMI-A-1", (0, 0), (2560, 1440));
    s.manage();
    let edp = s.output_id("eDP-1");
    s.remove_output(edp);
    s.manage();
    s.add_window();
    s.manage();

    s.remove_output(hdmi);
    s.add_output("eDP-1", (0, 0), (1360, 768));
    s.manage();
    s.check_consistent();

    let wm = &s.wm;
    assert_eq!(wm.outputs.len(), 1, "eDP-1 back");
    assert_eq!(wm.outputs[0].name.as_deref(), Some("eDP-1"));
    let total: usize = wm.outputs[0].workspace_list.iter().map(|ws| ws.window_list.len()).sum();
    assert_eq!(total, 2, "both windows transferred back to the laptop");
    assert!(wm.detached_outputs.is_empty());
}

#[test]
fn overview_keeps_foreign_display_windows_in_grid() {
    let mut s = build();
    s.add_seat();
    s.manage();
    s.manage();

    s.add_output("eDP-1", (0, 0), (1360, 768));
    s.manage();
    s.add_window();
    s.manage();

    s.add_output("HDMI-A-1", (1360, 0), (2560, 1440));
    s.manage();
    s.add_window();
    s.manage();
    s.check_consistent();
    assert_eq!(s.wm.focused_output_idx, Some(1));

    tailrace::overview::enter(&mut s.wm);
    s.wm.status = Status::Overview;
    s.manage();
    s.check_consistent();

    let wm = &s.wm;
    let grid = wm.outputs[1].rectangle;
    for (oi, label) in [(0usize, "eDP-1"), (1, "HDMI-A-1")] {
        let w = &wm.outputs[oi].workspace_list[0].window_list[0];
        let r = w.geom.current;
        assert!(
            r.x >= grid.x && r.y >= grid.y && r.x + r.width <= grid.x + grid.width && r.y + r.height <= grid.y + grid.height,
            "{label} window {r:?} outside the focused grid {grid:?}"
        );
        assert_eq!(w.geom.sent_visible, Some(true), "{label} window was hidden from the overview grid");
    }
}

// ---------------------------------------------------------------------------
// Overview
// ---------------------------------------------------------------------------

fn highlight(s: &Session) -> usize {
    s.wm.overview_state.as_ref().expect("overview open").highlighted
}

fn entry_count(s: &Session) -> usize {
    s.wm.overview_state.as_ref().expect("overview open").entries.len()
}

fn overview_grabs_released(s: &Session) -> usize {
    s.count(|r| matches!(r, Request::DisableXkbBinding(_)))
}

#[test]
fn navigate_and_confirm_focuses_the_highlighted_window() {
    let mut s = build();
    s.add_seat();
    s.manage();
    s.add_output("A", (0, 0), (1920, 1080));
    s.manage();
    s.add_window();
    s.manage();
    s.add_window();
    s.manage();
    s.check_consistent();
    assert_eq!(s.wm.outputs[0].workspace_list[0].focused_window_idx, Some(1));

    s.dispatch(KeybindingAction::EnterOverview);
    s.manage();
    assert_eq!(entry_count(&s), 2);
    assert_eq!(highlight(&s), 0);

    s.press(KeybindingAction::OverviewNavRight);
    assert_eq!(highlight(&s), 1);
    s.press(KeybindingAction::OverviewNavRight);
    assert_eq!(highlight(&s), 1, "navigation must stop at the grid edge");
    s.press(KeybindingAction::OverviewNavDown);
    assert_eq!(highlight(&s), 1, "navigation must stop at the last row");
    s.press(KeybindingAction::OverviewNavLeft);
    assert_eq!(highlight(&s), 0);

    s.press(KeybindingAction::OverviewConfirm);
    s.manage();
    assert!(s.wm.overview_state.is_none(), "confirm closes it");
    assert_eq!(
        s.wm.outputs[0].workspace_list[0].focused_window_idx,
        Some(0),
        "the highlighted window is focused, not the previously focused one"
    );
    s.check_consistent();
}

#[test]
fn cancel_restores_the_workspace_you_came_from() {
    let mut s = build();
    s.add_seat();
    s.manage();
    s.add_output("A", (0, 0), (1920, 1080));
    s.manage();
    s.add_window();
    s.manage();

    s.dispatch(KeybindingAction::FocusWorkspaceBelow);
    s.manage();
    s.add_window();
    s.manage();
    s.dispatch(KeybindingAction::FocusWorkspaceAbove);
    s.manage();
    assert_eq!(s.wm.outputs[0].focused_workspace_idx, 0);

    s.dispatch(KeybindingAction::EnterOverview);
    s.manage();
    assert_eq!(entry_count(&s), 2);
    s.press(KeybindingAction::OverviewNavRight);

    s.press(KeybindingAction::OverviewCancel);
    s.manage();
    assert!(s.wm.overview_state.is_none());
    assert_eq!(s.wm.outputs[0].focused_workspace_idx, 0, "cancel must restore the workspace the overview started from");
    s.check_consistent();
}

#[test]
fn closing_windows_prunes_the_overview_and_releases_the_grabs() {
    let mut s = build();
    s.add_seat();
    s.manage();
    s.add_output("A", (0, 0), (1920, 1080));
    s.manage();
    let w0 = s.add_window();
    s.manage();
    let w1 = s.add_window();
    s.manage();

    s.dispatch(KeybindingAction::EnterOverview);
    s.manage();
    assert_eq!(entry_count(&s), 2);
    s.press(KeybindingAction::OverviewNavRight);
    assert_eq!(highlight(&s), 1);

    s.clear_request_log();
    s.close_window(w1);
    s.manage();
    assert_eq!(entry_count(&s), 1, "the closed window loses its slot");
    assert_eq!(highlight(&s), 0, "the highlight is clamped to the grid");
    assert_eq!(overview_grabs_released(&s), 0, "the overview is still open, so its keys stay grabbed");

    s.close_window(w0);
    s.manage();
    assert!(s.wm.overview_state.is_none(), "no windows left ends the overview");
    assert!(overview_grabs_released(&s) > 0, "ending the overview must release Return/Escape/hjkl");
    s.check_consistent();
}

#[test]
fn overview_key_with_an_unknown_binding_changes_nothing() {
    let mut s = build();
    s.add_seat();
    s.manage();
    s.add_output("A", (0, 0), (1920, 1080));
    s.manage();
    s.add_window();
    s.manage();
    s.dispatch(KeybindingAction::EnterOverview);
    s.manage();
    let n = s.wm.xkb_bindings.len();
    overview_key_pressed(&mut s.wm, n + 5);
    assert_eq!(highlight(&s), 0);
    assert!(s.wm.overview_state.is_some());
}

// ---------------------------------------------------------------------------
// Pointer
// ---------------------------------------------------------------------------

#[test]
fn pointer_enter_focus_follows_toggle() {
    let mut s = build();
    s.add_seat();
    s.manage();
    s.add_output("eDP-1", (0, 0), (1360, 768));
    s.manage();
    let a = s.add_window();
    s.manage();
    let b = s.add_window();
    s.manage();
    s.check_consistent();

    let ws = &s.wm.outputs[0].workspace_list[0];
    let initial = ws.focused_window_idx.expect("window has focus");
    let hover = if initial == 0 { b } else { a };

    s.wm.config.focus_follows_pointer = false;
    pointer_entered(&mut s.wm, hover);
    s.manage();
    assert_eq!(
        s.wm.outputs[0].workspace_list[0].focused_window_idx,
        Some(initial),
        "hover must not move focus when focus_follows_pointer is off"
    );

    s.wm.config.focus_follows_pointer = true;
    pointer_entered(&mut s.wm, hover);
    s.manage();
    let ws = &s.wm.outputs[0].workspace_list[0];
    let now = ws.focused_window_idx.expect("window has focus");
    assert_ne!(now, initial, "hover must move focus when enabled");
    assert_eq!(ws.window_list[now].id, hover, "focused window must be the hovered one");
}

#[test]
fn pointer_binding_drag_moves_floating_window() {
    let mut s = build();
    s.add_seat();
    s.manage();
    s.add_output("A", (0, 0), (1920, 1080));
    s.manage();
    s.add_window();
    s.manage();
    s.check_consistent();

    s.dispatch(KeybindingAction::ToggleWorkspaceFloating);
    s.manage();
    let origin = s.wm.outputs[0].workspace_list[0].window_list[0].geom.current;
    assert!(
        s.wm.outputs[0].workspace_list[0].window_list[0].geom.is_floating,
        "window must be floating for the drag binding to engage"
    );

    pointer_binding_pressed(&mut s.wm, 0);
    s.manage();
    assert!(
        matches!(s.wm.status, Status::PointerAction(PointerAction::MoveWindow)),
        "press must enter the move drag state, got {:?}",
        s.wm.status
    );

    s.clear_request_log();
    op_delta(&mut s.wm, 100, 50);
    s.manage();
    let moved = s.wm.outputs[0].workspace_list[0].window_list[0].geom.current;
    assert_eq!((moved.x, moved.y), (origin.x + 100, origin.y + 50), "window must follow the pointer delta");
    assert!(
        s.count(|r| matches!(r, Request::SetPosition { x, y, .. } if *x == moved.x + 3 && *y == moved.y + 3)) > 0,
        "the dragged position must reach the compositor (border inset)"
    );

    op_release(&mut s.wm);
    assert_eq!(s.wm.status, Status::Idle, "release ends the drag");
    assert!(
        s.wm.outputs[0].workspace_list[0].window_list[0].geom.drag_origin.is_none(),
        "drag origin must be cleared on release"
    );
    s.manage();
}

#[test]
fn drag_sets_and_restores_the_cursor_shape() {
    let mut s = build();
    s.add_seat();
    s.manage();
    s.add_output("A", (0, 0), (1920, 1080));
    s.manage();
    cursor_shape_ready(&mut s.wm);

    s.add_window();
    s.manage();
    s.dispatch(KeybindingAction::ToggleWorkspaceFloating);
    s.manage();
    assert!(s.wm.has_cursor_shape);

    s.clear_request_log();
    pointer_binding_pressed(&mut s.wm, 0);
    s.drain();
    let shapes = |s: &Session| -> Vec<CursorShape> {
        s.log.iter().filter_map(|r| if let Request::SetCursorShape(c) = r { Some(*c) } else { None }).collect()
    };
    assert_eq!(shapes(&s), vec![CursorShape::Move], "a move drag must set the move shape");

    op_release(&mut s.wm);
    s.drain();
    assert_eq!(shapes(&s), vec![CursorShape::Move, CursorShape::Default], "release must hand the cursor back");
}

#[test]
fn drag_without_cursor_shape_manager_is_silent() {
    let mut s = build();
    s.add_seat();
    s.manage();
    s.add_output("A", (0, 0), (1920, 1080));
    s.manage();

    s.add_window();
    s.manage();
    s.dispatch(KeybindingAction::ToggleWorkspaceFloating);
    s.manage();

    s.clear_request_log();
    pointer_binding_pressed(&mut s.wm, 0);
    s.manage();
    assert!(
        matches!(s.wm.status, Status::PointerAction(PointerAction::MoveWindow)),
        "the drag must still start without a cursor shape device"
    );
    assert_eq!(s.count(|r| matches!(r, Request::SetCursorShape(_))), 0, "no cursor requests without the manager");
}

// ---------------------------------------------------------------------------
// Window rules
// ---------------------------------------------------------------------------

fn rule(app_id: Option<&str>, title: Option<&str>, floating: bool) -> WindowRule {
    WindowRule { app_id: app_id.map(Into::into), title: title.map(Into::into), floating }
}

fn rules_scene(rules: Vec<WindowRule>) -> Session {
    let mut s = build();
    s.add_seat();
    s.manage();
    s.add_output("A", (0, 0), (1920, 1080));
    s.manage();
    s.wm.config.window_rules = rules;
    s
}

fn send_app_id(s: &mut Session, win: u32, value: &str) {
    window_text(&mut s.wm, win, WindowText::AppId(Some(value.to_string())));
}

fn send_title(s: &mut Session, win: u32, value: &str) {
    window_text(&mut s.wm, win, WindowText::Title(Some(value.to_string())));
}

fn only_window(s: &Session) -> &Window {
    let ws = &s.wm.outputs[0].workspace_list[0];
    assert_eq!(ws.window_list.len(), 1, "one window expected");
    &ws.window_list[0]
}

#[test]
fn a_matching_app_id_floats_the_window() {
    let mut s = rules_scene(vec![rule(Some("foot"), None, true)]);
    let win = s.add_pending_window();
    send_app_id(&mut s, win, "foot");
    s.map_window(win);
    s.manage();
    assert!(only_window(&s).geom.is_floating);
}

#[test]
fn a_matching_title_glob_floats_the_window() {
    let mut s = rules_scene(vec![rule(None, Some("*Picture-in-Picture*"), true)]);
    let win = s.add_pending_window();
    send_title(&mut s, win, "Picture-in-Picture (mpv)");
    s.map_window(win);
    s.manage();
    assert!(only_window(&s).geom.is_floating);
}

#[test]
fn an_unmatched_app_id_leaves_the_window_tiled() {
    let mut s = rules_scene(vec![rule(Some("foot"), None, true)]);
    let win = s.add_pending_window();
    send_app_id(&mut s, win, "something-else");
    s.map_window(win);
    s.manage();
    assert!(!only_window(&s).geom.is_floating);
}

#[test]
fn rules_need_floating_and_a_matcher() {
    let mut s = rules_scene(vec![rule(Some("foot"), None, false), rule(None, None, true)]);
    let win = s.add_pending_window();
    send_app_id(&mut s, win, "foot");
    s.map_window(win);
    s.manage();
    assert!(!only_window(&s).geom.is_floating);
}

#[test]
fn a_late_app_id_does_not_apply_the_rule() {
    let mut s = rules_scene(vec![rule(Some("foot"), None, true)]);
    let win = s.add_window();
    s.manage();
    send_app_id(&mut s, win, "foot");
    s.manage();
    assert!(!only_window(&s).geom.is_floating);
}

// ---------------------------------------------------------------------------
// Windows
// ---------------------------------------------------------------------------

#[test]
fn fullscreen_window_sends_no_border_and_zero_origin_clip() {
    let mut s = build();
    s.add_seat();
    s.manage();
    s.add_output("A", (0, 0), (1920, 1080));
    s.manage();
    s.add_output("B", (1920, 0), (1920, 1080));
    s.manage();
    s.wm.focused_output_idx = Some(0);
    s.manage();
    s.add_window();
    s.manage();
    s.wm.focused_output_idx = Some(1);
    s.manage();
    let b_win = s.add_window();
    s.manage();
    s.wm.outputs[1].workspace_list[0].focused_window_idx = Some(0);
    s.manage();

    s.clear_request_log();
    s.dispatch(KeybindingAction::ToggleFullscreen);
    s.manage();

    for r in &s.log {
        match r {
            Request::SetBorders { window, width, .. } if *window == b_win => {
                assert_eq!(*width, 0, "fullscreen window must not set a border, got {width}");
            }
            Request::SetClipBox { window, rect } if *window == b_win => {
                assert_eq!((rect.x, rect.y), (0, 0), "fullscreen clip box must be zero-origin, got {rect:?}");
            }
            _ => {}
        }
    }
}

#[test]
fn window_fullscreen_requests_toggle_and_fill_output() {
    let mut s = build();
    s.add_seat();
    s.manage();
    s.add_output("A", (0, 0), (1920, 1080));
    s.manage();
    let win = s.add_window();
    s.manage();

    window_fullscreen_requested(&mut s.wm, win, true);
    s.manage();
    let output_rect = s.wm.outputs[0].rectangle;
    let geom = s.wm.outputs[0].workspace_list[0].window_list[0].geom.current;
    assert!(
        s.wm.outputs[0].workspace_list[0].window_list[0].geom.is_fullscreen,
        "fullscreen_requested must set the flag"
    );
    assert!(geom.eql(output_rect), "fullscreen window must fill its output: {geom:?} vs {output_rect:?}");

    window_fullscreen_requested(&mut s.wm, win, false);
    s.manage();
    assert!(
        !s.wm.outputs[0].workspace_list[0].window_list[0].geom.is_fullscreen,
        "exit_fullscreen_requested must clear the flag"
    );
}

#[test]
fn closing_windows_keeps_focus_index_valid() {
    let mut s = build();
    s.add_seat();
    s.manage();
    s.add_output("A", (0, 0), (1920, 1080));
    s.manage();
    s.add_window();
    s.manage();
    let w1 = s.add_window();
    s.manage();
    let w2 = s.add_window();
    s.manage();
    s.check_consistent();

    s.wm.outputs[0].workspace_list[0].focused_window_idx = Some(1);
    s.manage();
    s.close_window(w1);
    s.manage();
    assert_eq!(
        s.wm.outputs[0].workspace_list[0].focused_window_idx,
        Some(0),
        "closing the focused middle window moves focus down"
    );
    assert_eq!(s.wm.outputs[0].workspace_list[0].window_list.len(), 2);
    s.check_consistent();

    s.close_window(w2);
    s.manage();
    assert_eq!(
        s.wm.outputs[0].workspace_list[0].focused_window_idx,
        Some(0),
        "closing a later window must not move focus"
    );
    s.check_consistent();
}

// ---------------------------------------------------------------------------
// Keybinding actions
// ---------------------------------------------------------------------------

fn every_action() -> Vec<KeybindingAction> {
    vec![
        KeybindingAction::CloseWindow,
        KeybindingAction::ToggleFullscreen,
        KeybindingAction::ToggleMaximizeColumn,
        KeybindingAction::AdjustWindowWidth(100),
        KeybindingAction::SetWindowWidth(500),
        KeybindingAction::AdjustFloatingWindowSize(100),
        KeybindingAction::SetFloatingWindowHeight(500),
        KeybindingAction::FocusWindowLeft,
        KeybindingAction::FocusWindowOrOutputLeft,
        KeybindingAction::FocusWindowRight,
        KeybindingAction::FocusWindowOrOutputRight,
        KeybindingAction::MoveWindowLeft,
        KeybindingAction::MoveWindowRight,
        KeybindingAction::MoveFloatingWindowLeft,
        KeybindingAction::MoveFloatingWindowRight,
        KeybindingAction::MoveFloatingWindowUp,
        KeybindingAction::MoveFloatingWindowDown,
        KeybindingAction::MoveWindowLeftOrToOutputLeft,
        KeybindingAction::MoveWindowRightOrToOutputRight,
        KeybindingAction::ToggleWorkspaceFloating,
        KeybindingAction::FocusWorkspaceAbove,
        KeybindingAction::FocusWorkspaceBelow,
        KeybindingAction::FocusWorkspaceOrOutputAbove,
        KeybindingAction::FocusWorkspaceOrOutputBelow,
        KeybindingAction::FocusWorkspacePrevious,
        KeybindingAction::FocusWorkspaceNumber(2),
        KeybindingAction::MoveWindowToWorkspaceAbove,
        KeybindingAction::MoveWindowToWorkspaceBelow,
        KeybindingAction::MoveWindowToWorkspaceOrOutputAbove,
        KeybindingAction::MoveWindowToWorkspaceOrOutputBelow,
        KeybindingAction::MoveWindowToWorkspaceNumber(2),
        KeybindingAction::FocusOutputLeft,
        KeybindingAction::FocusOutputRight,
        KeybindingAction::FocusOutputAbove,
        KeybindingAction::FocusOutputBelow,
        KeybindingAction::MoveWindowToOutputLeft,
        KeybindingAction::MoveWindowToOutputRight,
        KeybindingAction::MoveWindowToOutputAbove,
        KeybindingAction::MoveWindowToOutputBelow,
        KeybindingAction::Exit,
        KeybindingAction::ReloadConfig,
        KeybindingAction::EnterOverview,
        KeybindingAction::OverviewCancel,
        KeybindingAction::OverviewConfirm,
        KeybindingAction::OverviewNavUp,
        KeybindingAction::OverviewNavDown,
        KeybindingAction::OverviewNavLeft,
        KeybindingAction::OverviewNavRight,
        KeybindingAction::Spawn(vec!["/bin/true".into()]),
    ]
}

fn scene() -> Session {
    let mut s = build();
    s.add_seat();
    s.manage();
    s.add_output("A", (0, 0), (1920, 1080));
    s.manage();
    s.add_window();
    s.manage();
    s.add_window();
    s.manage();
    s.add_output("B", (1920, 0), (1920, 1080));
    s.manage();
    s.add_window();
    s.manage();
    s.check_consistent();
    s
}

#[test]
fn every_action_keeps_the_state_consistent() {
    for action in every_action() {
        let mut s = scene();
        s.dispatch(action);
        s.manage();
        s.check_consistent();
        s.manage();
        s.check_consistent();
    }
}

#[test]
fn focus_workspace_number_and_previous() {
    let mut s = scene();
    let output = s.wm.focused_output_idx.unwrap();
    assert_eq!(s.wm.outputs[output].focused_workspace_idx, 0);

    s.dispatch(KeybindingAction::FocusWorkspaceNumber(3));
    s.manage();
    assert_eq!(s.wm.outputs[output].focused_workspace_idx, 2);
    assert_eq!(s.wm.previous_workspace.map(|p| p.workspace_idx), Some(0));

    s.dispatch(KeybindingAction::FocusWorkspacePrevious);
    s.manage();
    assert_eq!(
        s.wm.outputs[output].focused_workspace_idx, 0,
        "FocusWorkspacePrevious returns to the pre-switch workspace"
    );
    s.check_consistent();
}

#[test]
fn move_window_to_workspace_number_moves_it() {
    let mut s = scene();
    let output = s.wm.focused_output_idx.unwrap();
    assert_eq!(s.wm.outputs[output].workspace_list[0].window_list.len(), 1);

    s.dispatch(KeybindingAction::MoveWindowToWorkspaceNumber(2));
    s.manage();
    let workspaces = &s.wm.outputs[output].workspace_list;
    assert_eq!(workspaces[0].window_list.len(), 0, "left the old workspace");
    assert_eq!(workspaces[1].window_list.len(), 1, "landed on workspace 2");
    s.check_consistent();
}

#[test]
fn focus_and_move_across_outputs() {
    let mut s = scene();
    assert_eq!(s.wm.focused_output_idx, Some(1), "focus starts on B");

    s.dispatch(KeybindingAction::FocusOutputLeft);
    s.manage();
    assert_eq!(s.wm.focused_output_idx, Some(0), "moved to A");

    let before_a = s.wm.outputs[0].workspace_list[0].window_list.len();
    s.dispatch(KeybindingAction::MoveWindowToOutputRight);
    s.manage();
    assert_eq!(s.wm.outputs[0].workspace_list[0].window_list.len(), before_a - 1, "the window left output A");
    assert!(
        s.wm.outputs[1].workspace_list.iter().any(|ws| !ws.window_list.is_empty()),
        "the window arrived on output B"
    );
    s.check_consistent();
}

#[test]
fn toggle_maximize_column_switches_proportion() {
    let mut s = scene();
    let output = s.wm.focused_output_idx.unwrap();
    assert_eq!(s.focused_window().geom.proportion, 500);

    s.dispatch(KeybindingAction::ToggleMaximizeColumn);
    s.manage();
    assert_eq!(s.wm.outputs[output].workspace_list[0].window_list[0].geom.proportion, 1000);

    s.dispatch(KeybindingAction::ToggleMaximizeColumn);
    s.manage();
    assert_eq!(s.wm.outputs[output].workspace_list[0].window_list[0].geom.proportion, 500);
}

#[test]
fn window_width_actions_change_the_proportion() {
    let mut s = scene();
    let output = s.wm.focused_output_idx.unwrap();
    let before = s.focused_window().geom.proportion;

    s.dispatch(KeybindingAction::AdjustWindowWidth(100));
    assert!(s.focused_window().geom.proportion > before);

    s.dispatch(KeybindingAction::SetWindowWidth(500));
    s.manage();
    assert_eq!(s.wm.outputs[output].workspace_list[0].window_list[0].geom.proportion, 500);
}

#[test]
fn floating_actions_move_and_resize_the_rest_rect() {
    let mut s = scene();
    let output = s.wm.focused_output_idx.unwrap();
    let geom = |s: &Session| s.wm.outputs[output].workspace_list[0].window_list[0].geom.floating;
    let floating = |s: &Session| s.wm.outputs[output].workspace_list[0].window_list[0].geom.is_floating;

    s.dispatch(KeybindingAction::ToggleWorkspaceFloating);
    s.manage();
    assert!(floating(&s));

    let before = geom(&s);
    s.dispatch(KeybindingAction::MoveFloatingWindowRight);
    assert!(geom(&s).x > before.x, "MoveFloatingWindowRight shifts the rest rect right");

    let before = geom(&s);
    s.dispatch(KeybindingAction::AdjustFloatingWindowSize(100));
    assert!(geom(&s).width > before.width, "AdjustFloatingWindowSize grows the rest rect");

    s.dispatch(KeybindingAction::SetFloatingWindowHeight(500));
    assert!(geom(&s).height > 0);
    s.check_consistent();
}

// ---------------------------------------------------------------------------
// Further scenarios
// ---------------------------------------------------------------------------

#[test]
fn a_tiled_window_gets_a_column_inside_the_gaps() {
    let mut s = build();
    s.add_seat();
    s.manage();
    s.add_output("A", (0, 0), (1920, 1080));
    s.manage();
    s.add_window();
    s.manage();
    let g = &s.wm.outputs[0].workspace_list[0].window_list[0].geom;
    // Half of (1920 - 10) less one gap, starting one gap in.
    assert_eq!(g.current, Rect::new(10, 10, 945, 1060));
    assert_eq!(g.sent_visible, Some(true));
}

#[test]
fn windows_on_other_workspaces_are_hidden() {
    let mut s = build();
    s.add_seat();
    s.manage();
    s.add_output("A", (0, 0), (1920, 1080));
    s.manage();
    let w = s.add_window();
    s.manage();
    s.clear_request_log();
    s.dispatch(KeybindingAction::FocusWorkspaceNumber(2));
    s.manage();
    assert_eq!(s.wm.outputs[0].workspace_list[0].window_list[0].geom.sent_visible, Some(false));
    assert_eq!(s.count(|r| matches!(r, Request::Hide(id) if *id == w)), 1);
}

#[test]
fn binding_presses_are_ignored_while_locked() {
    let mut s = scene();
    session_locked(&mut s.wm);
    let before = s.wm.focused_output_idx;
    let index = default_keybindings().iter().position(|kb| kb.action == KeybindingAction::FocusOutputLeft).unwrap();
    binding_pressed(&mut s.wm, index);
    assert_eq!(s.wm.focused_output_idx, before);
}

#[test]
fn spawn_and_reload_are_handed_to_the_process() {
    let mut s = scene();
    s.clear_request_log();
    s.dispatch(KeybindingAction::Spawn(vec!["foot".to_string()]));
    s.dispatch(KeybindingAction::ReloadConfig);
    assert!(matches!(&s.log[0], Request::Spawn(argv) if argv == &vec!["foot".to_string()]));
    assert!(matches!(&s.log[1], Request::ReloadConfig));
}

#[test]
fn reloading_installs_the_new_configuration() {
    let mut s = scene();
    let mut c = default_config();
    c.horizontal_gap = 42;
    let n = c.keybindings.len();
    tailrace::bindings::finish_reload(&mut s.wm, Some(c), looked_up(n));
    assert_eq!(s.wm.config.horizontal_gap, 42);
    assert!(s.wm.needs_setup_bindings);
    s.manage();
    assert!(!s.wm.needs_setup_bindings);
}

#[test]
fn a_failed_reload_keeps_the_running_configuration() {
    let mut s = scene();
    let gap = s.wm.config.horizontal_gap;
    tailrace::bindings::finish_reload(&mut s.wm, None, Vec::new());
    assert_eq!(s.wm.config.horizontal_gap, gap);
    assert!(!s.wm.needs_setup_bindings);
}

#[test]
fn keys_that_were_not_looked_up_get_no_binding() {
    let mut s = build();
    s.wm.keysyms[0] = None;
    s.wm.keysyms.truncate(10);
    s.add_seat();
    s.add_output("A", (0, 0), (1920, 1080));
    s.manage();
    assert_eq!(s.wm.xkb_bindings.len(), 9);
    assert!(matches!(s.log.iter().find(|r| matches!(r, Request::GetXkbBinding { .. })),
        Some(Request::GetXkbBinding { index: 0, keysym: 0x1001, .. })));
}
