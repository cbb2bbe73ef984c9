//! What a keybinding does: the action state machine.
//!
//! Every action that changes the layout ends with `layout::update` and
//! status `Layout`, so the next manage sequence commits it; the caller
//! asks river for that sequence.

use vstd::prelude::*;
use crate::actions::KeybindingAction;
use crate::geometry::{
    center_rectangle, clamp_i32, floating_min_size, initial_rectangle, min_floating_size, move_floating,
    resize_floating, sane_area, sanitize, scale_floating, spec_clamp, spec_fit_into, spec_sanitize, spec_sat,
    trunc_half, Rect, FLOATING_MOVE_STEP,
};
use crate::layout::{is_updated, update};
use crate::ops::{change_window, move_window, set_focused_workspace, set_window_focus, swap_windows, GeomOp};
use crate::wm::{OverviewHome, Request, Status, WindowManager, NUM_WORKSPACES};

verus! {

/// A direction between outputs.
#[derive(Clone, Copy, PartialEq, Eq, Structural)]
pub enum Direction {
    Left,
    Right,
    Above,
    Below,
}

/// `target` touches `from` on the side `dir`.
pub open spec fn adjacent_rect(target: Rect, from: Rect, dir: Direction) -> bool {
    match dir {
        Direction::Left => target.x + target.width == from.x,
        Direction::Right => target.x == from.x + from.width,
        Direction::Above => target.y + target.height == from.y,
        Direction::Below => target.y == from.y + from.height,
    }
}

/// The first output other than `o`, not removed, that touches it on the
/// side `dir`.
pub open spec fn is_adjacent_output(wm: WindowManager, o: int, dir: Direction, t: int) -> bool {
    &&& 0 <= t < wm.outputs@.len()
    &&& t != o
    &&& !wm.outputs@[t].is_removed
    &&& adjacent_rect(wm.outputs@[t].rectangle, wm.outputs@[o].rectangle, dir)
}

/// Find the output adjacent to `o` in direction `dir` (edges that meet
/// exactly); the first one in list order.
pub fn adjacent_output(wm: &WindowManager, o: usize, dir: Direction) -> (r: Option<usize>)
    requires
        o < wm.outputs@.len(),
    ensures
        r matches Some(t) ==> is_adjacent_output(*wm, o as int, dir, t as int)
            && forall|k: int| 0 <= k < t ==> !is_adjacent_output(*wm, o as int, dir, k),
        r is None ==> forall|k: int| 0 <= k < wm.outputs@.len() ==> !is_adjacent_output(*wm, o as int, dir, k),
{
    let from = wm.outputs[o].rectangle;
    let mut i: usize = 0;
    while i < wm.outputs.len()
        invariant
            o < wm.outputs@.len(),
            from == wm.outputs@[o as int].rectangle,
            i <= wm.outputs@.len(),
            forall|k: int| 0 <= k < i ==> !is_adjacent_output(*wm, o as int, dir, k),
        decreases wm.outputs@.len() - i,
    {
        if i != o && !wm.outputs[i].is_removed {
            let t = wm.outputs[i].rectangle;
            let hit = match dir {
                Direction::Left => t.x as i64 + t.width as i64 == from.x as i64,
                Direction::Right => t.x as i64 == from.x as i64 + from.width as i64,
                Direction::Above => t.y as i64 + t.height as i64 == from.y as i64,
                Direction::Below => t.y as i64 == from.y as i64 + from.height as i64,
            };
            if hit {
                return Some(i);
            }
        }
        i = i + 1;
    }
    None
}

/// Rust's integer division by 1000 (toward zero).
pub open spec fn per_mille_of(v: int, pm: int) -> int {
    let p = v * pm;
    if p >= 0 { p / 1000 } else { -((-p) / 1000) }
}

/// `pm` thousandths of `v`, saturated into `i32`.
pub fn scale_per_mille(v: i32, pm: i64) -> (r: i32)
    requires
        -0x1_0000_0000 <= pm <= 0x1_0000_0000,
    ensures
        r == spec_sat(per_mille_of(v as int, pm as int)),
{
    proof {
        assert(-0x80_0000_0000_0000_0000 <= (v as int) * (pm as int) <= 0x80_0000_0000_0000_0000) by (nonlinear_arith)
            requires
                -0x8000_0000 <= v <= 0x7fff_ffff,
                -0x1_0000_0000 <= pm <= 0x1_0000_0000;
    }
    let p: i128 = v as i128 * pm as i128;
    let q: i128 = if p >= 0 { p / 1000 } else { -((-p) / 1000) };
    if q > i32::MAX as i128 {
        i32::MAX
    } else if q < i32::MIN as i128 {
        i32::MIN
    } else {
        q as i32
    }
}

/// Where the focused window is, when there is one.
pub open spec fn focused_loc(wm: WindowManager) -> Option<(int, int, int)> {
    match wm.focused_output_idx {
        Some(o) => {
            let w = wm.outputs@[o as int].focused_workspace_idx as int;
            match wm.ws(o as int, w).focused_window_idx {
                Some(i) => Some((o as int, w, i as int)),
                None => None,
            }
        },
        None => None,
    }
}


/// The new proportion after `AdjustWindowWidth(inc)` on a tiled column,
/// or `None` when the column would get narrower than two borders (or the
/// proportion would leave the range of `u32`).
pub open spec fn adjusted_proportion(ne_width: int, gap: int, p: int, inc: int, border: int) -> Option<u32> {
    let np = p + inc;
    if np < 0 || np > u32::MAX {
        None
    } else if spec_sat(per_mille_of(ne_width - gap, np)) - gap < 2 * border {
        None
    } else {
        Some(np as u32)
    }
}

/// The floating rectangle after `SetWindowWidth(p)`: `p` thousandths of
/// the non-exclusive width, at least two borders, ending at the output's
/// right edge at most.
pub open spec fn floating_width_set(r: Rect, ne_width: int, out: Rect, p: int, min_size: int) -> Rect {
    Rect {
        width: spec_clamp(spec_sat(per_mille_of(ne_width, p)), min_size, spec_sat(out.x + out.width - r.x)) as i32,
        ..r
    }
}

/// The floating rectangle after `SetFloatingWindowHeight(p)`.
pub open spec fn floating_height_set(r: Rect, ne_height: int, out: Rect, p: int, min_size: int) -> Rect {
    Rect {
        height: spec_clamp(spec_sat(per_mille_of(ne_height, p)), min_size, spec_sat(out.y + out.height - r.y)) as i32,
        ..r
    }
}

/// The window focus after a step left (`right == false`) or right within
/// a workspace of `len` windows focused at `f`: `None` when it stays.
pub open spec fn focus_step(f: Option<usize>, len: int, right: bool) -> Option<usize> {
    match f {
        Some(i) => if i >= len {
            None
        } else if right {
            if i + 1 < len { Some((i + 1) as usize) } else { None }
        } else {
            if i > 0 { Some((i - 1) as usize) } else { None }
        },
        None => None,
    }
}

/// The focused window is at the end of its row (on the `right` side, or
/// the left one).
pub open spec fn at_row_edge(f: Option<usize>, len: int, right: bool) -> bool {
    match f {
        Some(i) => i < len && (if right { i + 1 == len } else { i == 0 }),
        None => false,
    }
}

/// The workspace a workspace action goes to from `w`: the one above or
/// below, or number `n` (counting from 1); `None` when there is none or
/// it is `w` itself.
pub open spec fn workspace_target(w: int, above: bool, below: bool, number: Option<usize>) -> Option<usize> {
    match number {
        Some(n) => if n == 0 || n > NUM_WORKSPACES || n - 1 == w { None } else { Some((n - 1) as usize) },
        None => if above {
            if w == 0 { None } else { Some((w - 1) as usize) }
        } else if below {
            if w == NUM_WORKSPACES - 1 { None } else { Some((w + 1) as usize) }
        } else {
            None
        },
    }
}

fn workspace_target_exec(w: usize, above: bool, below: bool, number: Option<usize>) -> (r: Option<usize>)
    requires
        w < NUM_WORKSPACES,
    ensures
        r == workspace_target(w as int, above, below, number),
        r matches Some(t) ==> t < NUM_WORKSPACES,
{
    match number {
        Some(n) => {
            if n == 0 || n > NUM_WORKSPACES || n - 1 == w {
                None
            } else {
                Some(n - 1)
            }
        }
        None => {
            if above {
                if w == 0 { None } else { Some(w - 1) }
            } else if below {
                if w == NUM_WORKSPACES - 1 { None } else { Some(w + 1) }
            } else {
                None
            }
        }
    }
}

/// The actions that change the focused window's geometry.
pub open spec fn is_geometry_action(a: KeybindingAction) -> bool {
    ||| a is CloseWindow
    ||| a is ToggleFullscreen
    ||| a is ToggleMaximizeColumn
    ||| a is AdjustWindowWidth
    ||| a is SetWindowWidth
    ||| a is AdjustFloatingWindowSize
    ||| a is SetFloatingWindowHeight
    ||| a is MoveFloatingWindowLeft
    ||| a is MoveFloatingWindowRight
    ||| a is MoveFloatingWindowUp
    ||| a is MoveFloatingWindowDown
    ||| a is ToggleWorkspaceFloating
}

/// The step of a floating move.
pub open spec fn move_step(a: KeybindingAction) -> (int, int) {
    match a {
        KeybindingAction::MoveFloatingWindowLeft => (-FLOATING_MOVE_STEP as int, 0),
        KeybindingAction::MoveFloatingWindowRight => (FLOATING_MOVE_STEP as int, 0),
        KeybindingAction::MoveFloatingWindowUp => (0, -FLOATING_MOVE_STEP as int),
        _ => (0, FLOATING_MOVE_STEP as int),
    }
}

/// Two borders, in `i32`.
pub open spec fn two_borders(border: u32) -> int {
    spec_sat(2 * border as int)
}

/// What a geometry action makes of the focused window's geometry `g` on
/// output `o`; `None` when the action does nothing there (and no layout
/// pass follows).
pub open spec fn geometry_result(wm: WindowManager, o: int, g: crate::wm::WindowGeom, a: KeybindingAction) -> Option<crate::wm::WindowGeom> {
    let out = wm.outputs@[o].rectangle;
    let ne = wm.outputs@[o].non_exclusive;
    let area = spec_sanitize(out);
    let min = min_floating_size(area, wm.config.border.width);
    match a {
        KeybindingAction::CloseWindow => Some(crate::wm::WindowGeom { is_closing: true, ..g }),
        KeybindingAction::ToggleFullscreen => Some(crate::wm::WindowGeom { is_fullscreen: !g.is_fullscreen, ..g }),
        KeybindingAction::ToggleMaximizeColumn => Some(crate::wm::WindowGeom { proportion: crate::ops::toggled_proportion(g.proportion), ..g }),
        KeybindingAction::AdjustWindowWidth(inc) => if g.is_fullscreen {
            None
        } else if g.is_floating {
            let dw = spec_sat(per_mille_of(ne.width as int, inc as int));
            Some(crate::wm::WindowGeom {
                floating: spec_fit_into(Rect { width: spec_sat(g.floating.width + dw) as i32, ..g.floating }, area, min),
                ..g
            })
        } else {
            match adjusted_proportion(ne.width as int, wm.config.horizontal_gap as int, g.proportion as int, inc as int, wm.config.border.width as int) {
                Some(p) => Some(crate::wm::WindowGeom { proportion: p, ..g }),
                None => None,
            }
        },
        KeybindingAction::SetWindowWidth(p) => if g.is_floating {
            if g.is_fullscreen {
                None
            } else {
                Some(crate::wm::WindowGeom {
                    floating: floating_width_set(g.floating, ne.width as int, out, p as int, two_borders(wm.config.border.width)),
                    ..g
                })
            }
        } else {
            Some(crate::wm::WindowGeom { proportion: p, ..g })
        },
        KeybindingAction::AdjustFloatingWindowSize(inc) => if !g.is_floating || g.is_fullscreen {
            None
        } else {
            let dw = spec_sat(per_mille_of(ne.width as int, inc as int));
            let dh = spec_sat(per_mille_of(ne.height as int, inc as int));
            Some(crate::wm::WindowGeom {
                floating: spec_fit_into(
                    Rect {
                        x: spec_sat(g.floating.x - trunc_half(dw)) as i32,
                        y: spec_sat(g.floating.y - trunc_half(dh)) as i32,
                        width: spec_sat(g.floating.width + dw) as i32,
                        height: spec_sat(g.floating.height + dh) as i32,
                    },
                    area, min),
                ..g
            })
        },
        KeybindingAction::SetFloatingWindowHeight(p) => if !g.is_floating || g.is_fullscreen {
            None
        } else {
            Some(crate::wm::WindowGeom {
                floating: floating_height_set(g.floating, ne.height as int, out, p as int, two_borders(wm.config.border.width)),
                ..g
            })
        },
        KeybindingAction::ToggleWorkspaceFloating => if g.is_floating {
            Some(crate::wm::WindowGeom { is_floating: false, ..g })
        } else {
            Some(crate::wm::WindowGeom { is_floating: true, floating: crate::geometry::spec_center(spec_sanitize(ne)), ..g })
        },
        _ => if !g.is_floating {
            None
        } else {
            let (dx, dy) = move_step(a);
            Some(crate::wm::WindowGeom {
                floating: spec_fit_into(
                    Rect { x: spec_sat(g.floating.x + dx) as i32, y: spec_sat(g.floating.y + dy) as i32, ..g.floating },
                    area, min),
                ..g
            })
        },
    }
}

/// What a geometry action does to the whole state (before the layout
/// pass): the focused window's geometry becomes `geometry_result`; with
/// no focused window nothing changes. Returns whether a layout pass
/// follows.
pub open spec fn geometry_effect(a: WindowManager, b: WindowManager, action: KeybindingAction, tail: bool) -> bool {
    match focused_loc(a) {
        None => b == a && tail,
        Some((o, w, i)) => match geometry_result(a, o, a.ws(o, w).window_list@[i].geom, action) {
            None => b == a && !tail,
            Some(g2) => {
                &&& tail
                &&& crate::ops::ws_replaced(a, b, o, w, crate::wm::Workspace {
                    window_list: b.ws(o, w).window_list,
                    focused_window_idx: a.ws(o, w).focused_window_idx,
                })
                &&& b.ws(o, w).window_list@ == a.ws(o, w).window_list@.update(i,
                    crate::wm::Window { geom: g2, ..a.ws(o, w).window_list@[i] })
            },
        },
    }
}

/// The op a geometry result comes from.
pub open spec fn op_gives(wm: WindowManager, o: int, g: crate::wm::WindowGeom, a: KeybindingAction, r: Option<GeomOp>) -> bool {
    &&& r matches Some(op) ==> geometry_result(wm, o, g, a) == Some(crate::ops::geom_after(g, op))
    &&& r is None ==> geometry_result(wm, o, g, a) is None
}

fn op_adjust_width(wm: &WindowManager, o: usize, g: &crate::wm::WindowGeom, inc: i32) -> (r: Option<GeomOp>)
    requires
        o < wm.outputs@.len(),
    ensures
        op_gives(*wm, o as int, *g, KeybindingAction::AdjustWindowWidth(inc), r),
{
    let out = wm.outputs[o].rectangle;
    let ne = wm.outputs[o].non_exclusive;
    let area = sanitize(out);
    let min = floating_min_size(area, wm.config.border.width);
    let border = wm.config.border.width;
    let gap = wm.config.horizontal_gap;
    if g.is_fullscreen {
        None
    } else if g.is_floating {
        let dw = scale_per_mille(ne.width, inc as i64);
        Some(GeomOp::SetFloating(resize_floating(g.floating, area, dw, 0, min)))
    } else {
        let np: i64 = g.proportion as i64 + inc as i64;
        if np < 0 || np > u32::MAX as i64 {
            None
        } else {
            let base: i64 = ne.width as i64 - gap as i64;
            proof {
                assert(-0x1_0000_0000 <= base <= 0x1_0000_0000);
            }
            let wg = scale_wide(base, np);
            if (wg as i64) - (gap as i64) < 2 * (border as i64) {
                None
            } else {
                Some(GeomOp::SetProportion(np as u32))
            }
        }
    }
}

/// `pm` thousandths of `v`, saturated into `i32`.
fn scale_wide(v: i64, pm: i64) -> (r: i32)
    requires
        -0x1_0000_0000 <= v <= 0x1_0000_0000,
        -0x1_0000_0000 <= pm <= 0x1_0000_0000,
    ensures
        r == spec_sat(per_mille_of(v as int, pm as int)),
{
    proof {
        assert(-0x1_0000_0000_0000_0000 <= (v as int) * (pm as int) <= 0x1_0000_0000_0000_0000) by (nonlinear_arith)
            requires
                -0x1_0000_0000 <= v <= 0x1_0000_0000,
                -0x1_0000_0000 <= pm <= 0x1_0000_0000;
    }
    let p: i128 = v as i128 * pm as i128;
    let q: i128 = if p >= 0 { p / 1000 } else { -((-p) / 1000) };
    if q > i32::MAX as i128 {
        i32::MAX
    } else if q < i32::MIN as i128 {
        i32::MIN
    } else {
        q as i32
    }
}

fn two_borders_exec(border: u32) -> (r: i32)
    ensures
        r == two_borders(border),
{
    if 2 * (border as i64) > i32::MAX as i64 { i32::MAX } else { (2 * border as i64) as i32 }
}

fn op_set_width(wm: &WindowManager, o: usize, g: &crate::wm::WindowGeom, p: u32) -> (r: Option<GeomOp>)
    requires
        o < wm.outputs@.len(),
    ensures
        op_gives(*wm, o as int, *g, KeybindingAction::SetWindowWidth(p), r),
{
    let out = wm.outputs[o].rectangle;
    let ne = wm.outputs[o].non_exclusive;
    let two = two_borders_exec(wm.config.border.width);
    if g.is_floating {
        if g.is_fullscreen {
            None
        } else {
            let wd = scale_per_mille(ne.width, p as i64);
            let hi = crate::geometry::sat(out.x as i64 + out.width as i64 - g.floating.x as i64);
            Some(GeomOp::SetFloating(Rect { width: clamp_i32(wd, two, hi), ..g.floating }))
        }
    } else {
        Some(GeomOp::SetProportion(p))
    }
}

fn op_set_height(wm: &WindowManager, o: usize, g: &crate::wm::WindowGeom, p: u32) -> (r: Option<GeomOp>)
    requires
        o < wm.outputs@.len(),
    ensures
        op_gives(*wm, o as int, *g, KeybindingAction::SetFloatingWindowHeight(p), r),
{
    let out = wm.outputs[o].rectangle;
    let ne = wm.outputs[o].non_exclusive;
    let two = two_borders_exec(wm.config.border.width);
    if !g.is_floating || g.is_fullscreen {
        None
    } else {
        let h = scale_per_mille(ne.height, p as i64);
        let hi = crate::geometry::sat(out.y as i64 + out.height as i64 - g.floating.y as i64);
        Some(GeomOp::SetFloating(Rect { height: clamp_i32(h, two, hi), ..g.floating }))
    }
}

fn op_adjust_floating(wm: &WindowManager, o: usize, g: &crate::wm::WindowGeom, inc: i32) -> (r: Option<GeomOp>)
    requires
        o < wm.outputs@.len(),
    ensures
        op_gives(*wm, o as int, *g, KeybindingAction::AdjustFloatingWindowSize(inc), r),
{
    let out = wm.outputs[o].rectangle;
    let ne = wm.outputs[o].non_exclusive;
    let area = sanitize(out);
    let min = floating_min_size(area, wm.config.border.width);
    if !g.is_floating || g.is_fullscreen {
        None
    } else {
        let dw = scale_per_mille(ne.width, inc as i64);
        let dh = scale_per_mille(ne.height, inc as i64);
        Some(GeomOp::SetFloating(scale_floating(g.floating, area, dw, dh, min)))
    }
}

#[verifier::spinoff_prover]
#[verifier::rlimit(40)]
fn op_move_floating(wm: &WindowManager, o: usize, g: &crate::wm::WindowGeom, action: &KeybindingAction) -> (r: Option<GeomOp>)
    requires
        o < wm.outputs@.len(),
        action is MoveFloatingWindowLeft || action is MoveFloatingWindowRight || action is MoveFloatingWindowUp
            || action is MoveFloatingWindowDown,
    ensures
        op_gives(*wm, o as int, *g, *action, r),
{
    let out = wm.outputs[o].rectangle;
    let area = sanitize(out);
    let min = floating_min_size(area, wm.config.border.width);
    if !g.is_floating {
        None
    } else {
        let (dx, dy): (i32, i32) = match action {
            KeybindingAction::MoveFloatingWindowLeft => (-FLOATING_MOVE_STEP, 0),
            KeybindingAction::MoveFloatingWindowRight => (FLOATING_MOVE_STEP, 0),
            KeybindingAction::MoveFloatingWindowUp => (0, -FLOATING_MOVE_STEP),
            _ => (0, FLOATING_MOVE_STEP),
        };
        Some(GeomOp::SetFloating(move_floating(g.floating, area, dx, dy, min)))
    }
}

fn geometry_op(wm: &WindowManager, o: usize, g: &crate::wm::WindowGeom, action: &KeybindingAction) -> (r: Option<GeomOp>)
    requires
        o < wm.outputs@.len(),
        is_geometry_action(*action),
    ensures
        op_gives(*wm, o as int, *g, *action, r),
{
    match action {
        KeybindingAction::CloseWindow => Some(GeomOp::Close),
        KeybindingAction::ToggleFullscreen => Some(GeomOp::ToggleFullscreen),
        KeybindingAction::ToggleMaximizeColumn => Some(GeomOp::ToggleMaximize),
        KeybindingAction::AdjustWindowWidth(inc) => op_adjust_width(wm, o, g, *inc),
        KeybindingAction::SetWindowWidth(p) => op_set_width(wm, o, g, *p),
        KeybindingAction::AdjustFloatingWindowSize(inc) => op_adjust_floating(wm, o, g, *inc),
        KeybindingAction::SetFloatingWindowHeight(p) => op_set_height(wm, o, g, *p),
        KeybindingAction::ToggleWorkspaceFloating => {
            let ne = wm.outputs[o].non_exclusive;
            Some(GeomOp::ToggleFloating(center_rectangle(sanitize(ne))))
        }
        _ => op_move_floating(wm, o, g, action),
    }
}

/// Carry out a geometry action on the focused window.
#[verifier::spinoff_prover]
#[verifier::rlimit(40)]
fn focused_geometry(wm: &mut WindowManager, action: &KeybindingAction) -> (tail: bool)
    requires
        old(wm).wf(),
        is_geometry_action(*action),
    ensures
        final(wm).wf(),
        geometry_effect(*old(wm), *final(wm), *action, tail),
{
    let (o, w, i) = match wm.focused_window_location() {
        Some(loc) => loc,
        None => return true,
    };
    proof {
        assert(wm.outputs@[o as int].wf());
    }
    let op = geometry_op(wm, o, &wm.outputs[o].workspace_list[w].window_list[i].geom, action);
    match op {
        Some(op) => {
            change_window(wm, o, w, i, op);
            true
        }
        None => false,
    }
}

/// The focused output and its focused workspace.
pub open spec fn current(wm: WindowManager) -> (int, int) {
    let o = wm.focused_output_idx->0 as int;
    (o, wm.outputs@[o].focused_workspace_idx as int)
}

/// The location `current` as the overview and `FocusWorkspacePrevious`
/// store it.
pub open spec fn current_home(wm: WindowManager) -> OverviewHome {
    OverviewHome {
        output_idx: current(wm).0 as usize,
        workspace_idx: current(wm).1 as usize,
    }
}

/// Focus moves one window left or right within the focused workspace;
/// where it cannot, nothing happens (and no layout pass follows).
pub open spec fn focus_step_effect(a: WindowManager, b: WindowManager, right: bool, tail: bool) -> bool {
    let (o, w) = current(a);
    let ws = a.ws(o, w);
    match focus_step(ws.focused_window_idx, ws.window_list@.len() as int, right) {
        None => b == a && !tail,
        Some(t) => tail && crate::ops::ws_replaced(a, b, o, w, crate::wm::Workspace {
            window_list: ws.window_list,
            focused_window_idx: Some(t),
        }),
    }
}

fn focus_step_action(wm: &mut WindowManager, right: bool) -> (tail: bool)
    requires
        old(wm).wf(),
        old(wm).focused_output_idx is Some,
    ensures
        final(wm).wf(),
        focus_step_effect(*old(wm), *final(wm), right, tail),
{
    let (o, w) = match wm.current_ws_idx() {
        Some(c) => c,
        None => return false,
    };
    proof { assert(wm.outputs@[o as int].wf()); }
    let len = wm.outputs[o].workspace_list[w].window_list.len();
    let t = match wm.outputs[o].workspace_list[w].focused_window_idx {
        Some(i) => {
            if i >= len {
                None
            } else if right {
                if i + 1 < len { Some(i + 1) } else { None }
            } else {
                if i > 0 { Some(i - 1) } else { None }
            }
        }
        None => None,
    };
    match t {
        Some(t) => {
            set_window_focus(wm, o, w, Some(t));
            true
        }
        None => false,
    }
}

/// The focused window swaps places with its neighbour (and stays
/// focused); where there is none, nothing happens (and no layout pass
/// follows).
pub open spec fn move_step_effect(a: WindowManager, b: WindowManager, right: bool, tail: bool) -> bool {
    let (o, w) = current(a);
    let ws = a.ws(o, w);
    let l = ws.window_list@;
    match ws.focused_window_idx {
        Some(i) => {
            let t = if right {
                if i + 1 < l.len() { Some((i + 1) as usize) } else { None::<usize> }
            } else {
                if 0 < i && i - 1 < l.len() { Some((i - 1) as usize) } else { None::<usize> }
            };
            if i >= l.len() {
                b == a && !tail
            } else {
                match t {
                    None => b == a && !tail,
                    Some(t) => tail && crate::ops::ws_replaced(a, b, o, w, crate::wm::Workspace {
                        window_list: b.ws(o, w).window_list,
                        focused_window_idx: Some(t),
                    }) && b.ws(o, w).window_list@ == l.update(i as int, l[t as int]).update(t as int, l[i as int]),
                }
            }
        },
        None => b == a && !tail,
    }
}

fn move_step_action(wm: &mut WindowManager, right: bool) -> (tail: bool)
    requires
        old(wm).wf(),
        old(wm).focused_output_idx is Some,
    ensures
        final(wm).wf(),
        move_step_effect(*old(wm), *final(wm), right, tail),
{
    let (o, w) = match wm.current_ws_idx() {
        Some(c) => c,
        None => return false,
    };
    proof { assert(wm.outputs@[o as int].wf()); }
    let len = wm.outputs[o].workspace_list[w].window_list.len();
    let i = match wm.outputs[o].workspace_list[w].focused_window_idx {
        Some(i) => i,
        None => return false,
    };
    if i >= len {
        return false;
    }
    match crate::keybinding::move_target(i, len, right) {
        Some(t) => {
            swap_windows(wm, o, w, i, t);
            true
        }
        None => false,
    }
}

/// Output `o` shows workspace `t` and the previous workspace is recorded;
/// nothing else changes.
pub open spec fn workspace_switched(a: WindowManager, b: WindowManager, o: int, t: usize, prev: OverviewHome) -> bool {
    &&& b.outputs@.len() == a.outputs@.len()
    &&& forall|p: int| 0 <= p < a.outputs@.len() && p != o ==> #[trigger] b.outputs@[p] == a.outputs@[p]
    &&& b.outputs@[o] == (crate::wm::Output { focused_workspace_idx: t, ..a.outputs@[o] })
    &&& b == (WindowManager { outputs: b.outputs, previous_workspace: Some(prev), ..a })
}

/// Focus the workspace above or below, or number `n`; where there is
/// none (or it is already focused), nothing happens (and no layout pass
/// follows).
pub open spec fn focus_workspace_effect(a: WindowManager, b: WindowManager, target: Option<usize>, tail: bool) -> bool {
    match target {
        None => b == a && !tail,
        Some(t) => tail && workspace_switched(a, b, current(a).0, t, current_home(a)),
    }
}

fn focus_workspace_action(wm: &mut WindowManager, above: bool, below: bool, number: Option<usize>) -> (tail: bool)
    requires
        old(wm).wf(),
        old(wm).focused_output_idx is Some,
    ensures
        final(wm).wf(),
        focus_workspace_effect(*old(wm), *final(wm), workspace_target(current(*old(wm)).1, above, below, number), tail),
{
    let (o, w) = match wm.current_ws_idx() {
        Some(c) => c,
        None => return false,
    };
    match workspace_target_exec(w, above, below, number) {
        Some(t) => {
            set_focused_workspace(wm, o, t);
            wm.previous_workspace = Some(OverviewHome { output_idx: o, workspace_idx: w });
            true
        }
        None => false,
    }
}

/// Go back to the workspace focused before the last switch (when it
/// names an output and a workspace that exist); the one left becomes the
/// previous one.
pub open spec fn focus_previous_effect(a: WindowManager, b: WindowManager, tail: bool) -> bool {
    match a.previous_workspace {
        Some(p) => if p.output_idx < a.outputs@.len() && p.workspace_idx < NUM_WORKSPACES {
            &&& tail
            &&& b.outputs@.len() == a.outputs@.len()
            &&& forall|q: int| 0 <= q < a.outputs@.len() && q != p.output_idx ==> #[trigger] b.outputs@[q] == a.outputs@[q]
            &&& b.outputs@[p.output_idx as int] == (crate::wm::Output { focused_workspace_idx: p.workspace_idx, ..a.outputs@[p.output_idx as int] })
            &&& b == (WindowManager {
                outputs: b.outputs,
                focused_output_idx: Some(p.output_idx),
                previous_workspace: Some(current_home(a)),
                ..a
            })
        } else {
            b == a && !tail
        },
        None => b == a && !tail,
    }
}

fn focus_previous_action(wm: &mut WindowManager) -> (tail: bool)
    requires
        old(wm).wf(),
        old(wm).focused_output_idx is Some,
    ensures
        final(wm).wf(),
        focus_previous_effect(*old(wm), *final(wm), tail),
{
    let (o, w) = match wm.current_ws_idx() {
        Some(c) => c,
        None => return false,
    };
    let p = match wm.previous_workspace {
        Some(p) => p,
        None => return false,
    };
    if p.output_idx >= wm.outputs.len() || p.workspace_idx >= NUM_WORKSPACES {
        return false;
    }
    set_focused_workspace(wm, p.output_idx, p.workspace_idx);
    wm.focused_output_idx = Some(p.output_idx);
    wm.previous_workspace = Some(OverviewHome { output_idx: o, workspace_idx: w });
    true
}

/// The focused window moves to the end of workspace `t` of the same
/// output, which becomes the focused workspace (see `ops::move_window`);
/// without a target or a focused window nothing happens (and no layout
/// pass follows).
pub open spec fn move_to_workspace_effect(a: WindowManager, b: WindowManager, target: Option<usize>, tail: bool) -> bool {
    let (o, w) = current(a);
    let ws = a.ws(o, w);
    match (target, ws.focused_window_idx) {
        (Some(t), Some(i)) => if i < ws.window_list@.len() {
            &&& tail
            &&& b.ws(o, w).window_list@ == ws.window_list@.remove(i as int)
            &&& b.ws(o, t as int).window_list@ == a.ws(o, t as int).window_list@.push(ws.window_list@[i as int])
            &&& b.ws(o, t as int).focused_window_idx == Some(a.ws(o, t as int).window_list@.len() as usize)
            &&& b.ws(o, w).focused_window_idx == crate::ops::focus_after_remove(ws.focused_window_idx, i as int, ws.window_list@.len() - 1)
            &&& b.outputs@[o].focused_workspace_idx == t
            &&& b.previous_workspace == Some(current_home(a))
            &&& b.focused_output_idx == a.focused_output_idx
            &&& b.outputs@.len() == a.outputs@.len()
            &&& forall|p: int, v: int| 0 <= p < a.outputs@.len() && 0 <= v < crate::wm::NUM_WORKSPACES
                && !(p == o && v == w) && !(p == o && v == t as int) ==> #[trigger] b.ws(p, v) == a.ws(p, v)
        } else {
            b == a && !tail
        },
        _ => b == a && !tail,
    }
}

fn move_to_workspace_action(wm: &mut WindowManager, above: bool, below: bool, number: Option<usize>) -> (tail: bool)
    requires
        old(wm).wf(),
        old(wm).focused_output_idx is Some,
    ensures
        final(wm).wf(),
        move_to_workspace_effect(*old(wm), *final(wm), workspace_target(current(*old(wm)).1, above, below, number), tail),
{
    let (o, w) = match wm.current_ws_idx() {
        Some(c) => c,
        None => return false,
    };
    let t = match workspace_target_exec(w, above, below, number) {
        Some(t) => t,
        None => return false,
    };
    proof { assert(wm.outputs@[o as int].wf()); }
    let i = match wm.outputs[o].workspace_list[w].focused_window_idx {
        Some(i) => i,
        None => return false,
    };
    if i >= wm.outputs[o].workspace_list[w].window_list.len() {
        return false;
    }
    let _id = move_window(wm, o, w, i, o, t);
    let ghost mid = *wm;
    set_focused_workspace(wm, o, t);
    proof {
        assert(wm.ws(o as int, w as int) == mid.ws(o as int, w as int));
        assert(wm.ws(o as int, t as int) == mid.ws(o as int, t as int));
    }
    wm.previous_workspace = Some(OverviewHome { output_idx: o, workspace_idx: w });
    proof {
        assert forall|p: int, v: int| 0 <= p < old(wm).outputs@.len() && 0 <= v < crate::wm::NUM_WORKSPACES
            && !(p == o && v == w) && !(p == o && v == t as int) implies #[trigger] wm.ws(p, v) == old(wm).ws(p, v) by {
            assert(wm.ws(p, v) == mid.ws(p, v));
        }
    }
    true
}

/// Focus the output adjacent in direction `dir` (the pointer follows);
/// where there is none nothing changes. A layout pass follows either way.
pub open spec fn focus_output_effect(a: WindowManager, b: WindowManager, dir: Direction) -> bool {
    let o = current(a).0;
    if exists|t: int| is_adjacent_output(a, o, dir, t) {
        let t = choose|t: int| is_adjacent_output(a, o, dir, t) && forall|k: int| 0 <= k < t ==> !is_adjacent_output(a, o, dir, k);
        b == (WindowManager {
            focused_output_idx: Some(t as usize),
            needs_pointer_warp: true,
            previous_workspace: Some(current_home(a)),
            ..a
        })
    } else {
        b == a
    }
}

proof fn lemma_first_adjacent_unique(a: WindowManager, o: int, dir: Direction, t: int)
    requires
        is_adjacent_output(a, o, dir, t),
        forall|k: int| 0 <= k < t ==> !is_adjacent_output(a, o, dir, k),
    ensures
        (choose|u: int| is_adjacent_output(a, o, dir, u) && forall|k: int| 0 <= k < u ==> !is_adjacent_output(a, o, dir, k)) == t,
{
    let u = choose|u: int| is_adjacent_output(a, o, dir, u) && forall|k: int| 0 <= k < u ==> !is_adjacent_output(a, o, dir, k);
    assert(is_adjacent_output(a, o, dir, u) && forall|k: int| 0 <= k < u ==> !is_adjacent_output(a, o, dir, k));
    if u < t {
        assert(!is_adjacent_output(a, o, dir, u));
    }
    if t < u {
        assert(!is_adjacent_output(a, o, dir, t));
    }
}

fn focus_output_action(wm: &mut WindowManager, dir: Direction)
    requires
        old(wm).wf(),
        old(wm).focused_output_idx is Some,
    ensures
        final(wm).wf(),
        focus_output_effect(*old(wm), *final(wm), dir),
{
    let (o, w) = match wm.current_ws_idx() {
        Some(c) => c,
        None => return,
    };
    match adjacent_output(wm, o, dir) {
        Some(t) => {
            proof { lemma_first_adjacent_unique(*old(wm), o as int, dir, t as int); }
            wm.focused_output_idx = Some(t);
            wm.needs_pointer_warp = true;
            wm.previous_workspace = Some(OverviewHome { output_idx: o, workspace_idx: w });
        }
        None => {}
    }
}

/// The focused window moves to the end of the focused workspace of the
/// output adjacent in direction `dir`, gets a fresh floating rectangle
/// there, and that output is focused (the pointer follows); without such
/// an output or a focused window nothing happens (and no layout pass
/// follows).
pub open spec fn move_to_output_effect(a: WindowManager, b: WindowManager, dir: Direction, tail: bool) -> bool {
    let (o, w) = current(a);
    let ws = a.ws(o, w);
    if (exists|t: int| is_adjacent_output(a, o, dir, t)) && ws.focused_window_idx is Some && ws.focused_window_idx->0 < ws.window_list@.len() {
        let t = choose|t: int| is_adjacent_output(a, o, dir, t) && forall|k: int| 0 <= k < t ==> !is_adjacent_output(a, o, dir, k);
        let tw = a.outputs@[t].focused_workspace_idx as int;
        let i = ws.focused_window_idx->0 as int;
        let moved = ws.window_list@[i];
        &&& tail
        &&& b.ws(o, w).window_list@ == ws.window_list@.remove(i)
        &&& b.ws(o, w).focused_window_idx == crate::ops::focus_after_remove(ws.focused_window_idx, i, ws.window_list@.len() - 1)
        &&& b.ws(t, tw).window_list@ == a.ws(t, tw).window_list@.push(crate::wm::Window {
            geom: crate::wm::WindowGeom { floating: crate::geometry::spec_center(spec_sanitize(a.outputs@[t].non_exclusive)), ..moved.geom },
            ..moved
        })
        &&& b.ws(t, tw).focused_window_idx == Some(a.ws(t, tw).window_list@.len() as usize)
        &&& b.focused_output_idx == Some(t as usize)
        &&& b.needs_pointer_warp
        &&& b.previous_workspace == Some(current_home(a))
        &&& b.outputs@.len() == a.outputs@.len()
        &&& forall|p: int, v: int| 0 <= p < a.outputs@.len() && 0 <= v < crate::wm::NUM_WORKSPACES
            && !(p == o && v == w) && !(p == t && v == tw) ==> #[trigger] b.ws(p, v) == a.ws(p, v)
    } else {
        b == a && !tail
    }
}

#[verifier::spinoff_prover]
#[verifier::rlimit(40)]
fn move_to_output_action(wm: &mut WindowManager, dir: Direction) -> (tail: bool)
    requires
        old(wm).wf(),
        old(wm).focused_output_idx is Some,
    ensures
        final(wm).wf(),
        move_to_output_effect(*old(wm), *final(wm), dir, tail),
{
    let (o, w) = match wm.current_ws_idx() {
        Some(c) => c,
        None => return false,
    };
    let t = match adjacent_output(wm, o, dir) {
        Some(t) => t,
        None => return false,
    };
    proof {
        lemma_first_adjacent_unique(*old(wm), o as int, dir, t as int);
        assert(wm.outputs@[o as int].wf());
        assert(wm.outputs@[t as int].wf());
    }
    let i = match wm.outputs[o].workspace_list[w].focused_window_idx {
        Some(i) => i,
        None => return false,
    };
    if i >= wm.outputs[o].workspace_list[w].window_list.len() {
        return false;
    }
    let tw = wm.outputs[t].focused_workspace_idx;
    let _id = move_window(wm, o, w, i, t, tw);
    proof { assert(wm.outputs@[t as int].wf()); }
    let n = wm.outputs[t].workspace_list[tw].window_list.len();
    let rect = initial_rectangle(sanitize(wm.outputs[t].non_exclusive));
    let ghost mid = *wm;
    change_window(wm, t, tw, n - 1, GeomOp::SetFloating(rect));
    let ghost changed = *wm;
    proof {
        assert(wm.ws(t as int, tw as int).window_list@ =~= old(wm).ws(t as int, tw as int).window_list@.push(crate::wm::Window {
            geom: crate::wm::WindowGeom { floating: rect, ..old(wm).ws(o as int, w as int).window_list@[i as int].geom },
            ..old(wm).ws(o as int, w as int).window_list@[i as int]
        }));
        assert(wm.ws(o as int, w as int) == mid.ws(o as int, w as int));
    }
    wm.focused_output_idx = Some(t);
    wm.needs_pointer_warp = true;
    wm.previous_workspace = Some(OverviewHome { output_idx: o, workspace_idx: w });
    proof {
        assert forall|p: int, v: int| 0 <= p < old(wm).outputs@.len() && 0 <= v < crate::wm::NUM_WORKSPACES
            && !(p == o && v == w) && !(p == t && v == tw) implies #[trigger] wm.ws(p, v) == old(wm).ws(p, v) by {
            assert(wm.ws(p, v) == changed.ws(p, v));
            if p == t {
                assert(changed.ws(t as int, v) == mid.ws(t as int, v));
            } else {
                assert(changed.outputs@[p] == mid.outputs@[p]);
            }
            assert(mid.ws(p, v) == old(wm).ws(p, v));
        }
    }
    true
}

/// After the effect `mid` of an action, the layout pass (when `tail`):
/// status `Layout` and every target recomputed.
pub open spec fn then_layout(mid: WindowManager, b: WindowManager, tail: bool) -> bool {
    if tail {
        is_updated(WindowManager { status: Status::Layout, ..mid }, b)
    } else {
        b == mid
    }
}

/// What an action that needs a focused output does before the layout
/// pass; `tail` tells whether that pass follows.
pub open spec fn action_effect(a: WindowManager, mid: WindowManager, action: KeybindingAction, tail: bool) -> bool {
    let (o, w) = current(a);
    let ws = a.ws(o, w);
    let len = ws.window_list@.len() as int;
    if is_geometry_action(action) {
        geometry_effect(a, mid, action, tail)
    } else {
        match action {
            KeybindingAction::FocusWindowLeft => focus_step_effect(a, mid, false, tail),
            KeybindingAction::FocusWindowRight => focus_step_effect(a, mid, true, tail),
            KeybindingAction::FocusWindowOrOutputLeft => if at_row_edge(ws.focused_window_idx, len, false) {
                focus_output_effect(a, mid, Direction::Left) && tail
            } else {
                focus_step_effect(a, mid, false, tail)
            },
            KeybindingAction::FocusWindowOrOutputRight => if at_row_edge(ws.focused_window_idx, len, true) {
                focus_output_effect(a, mid, Direction::Right) && tail
            } else {
                focus_step_effect(a, mid, true, tail)
            },
            KeybindingAction::MoveWindowLeft => move_step_effect(a, mid, false, tail),
            KeybindingAction::MoveWindowRight => move_step_effect(a, mid, true, tail),
            KeybindingAction::MoveWindowLeftOrToOutputLeft => if at_row_edge(ws.focused_window_idx, len, false) {
                move_to_output_effect(a, mid, Direction::Left, tail)
            } else {
                move_step_effect(a, mid, false, tail)
            },
            KeybindingAction::MoveWindowRightOrToOutputRight => if at_row_edge(ws.focused_window_idx, len, true) {
                move_to_output_effect(a, mid, Direction::Right, tail)
            } else {
                move_step_effect(a, mid, true, tail)
            },
            KeybindingAction::FocusWorkspaceAbove => focus_workspace_effect(a, mid, workspace_target(w, true, false, None), tail),
            KeybindingAction::FocusWorkspaceBelow => focus_workspace_effect(a, mid, workspace_target(w, false, true, None), tail),
            KeybindingAction::FocusWorkspaceNumber(n) => focus_workspace_effect(a, mid, workspace_target(w, false, false, Some(n)), tail),
            KeybindingAction::FocusWorkspaceOrOutputAbove => if w == 0 {
                focus_output_effect(a, mid, Direction::Above) && tail
            } else {
                focus_workspace_effect(a, mid, workspace_target(w, true, false, None), tail)
            },
            KeybindingAction::FocusWorkspaceOrOutputBelow => if w == NUM_WORKSPACES - 1 {
                focus_output_effect(a, mid, Direction::Below) && tail
            } else {
                focus_workspace_effect(a, mid, workspace_target(w, false, true, None), tail)
            },
            KeybindingAction::FocusWorkspacePrevious => focus_previous_effect(a, mid, tail),
            KeybindingAction::MoveWindowToWorkspaceAbove => move_to_workspace_effect(a, mid, workspace_target(w, true, false, None), tail),
            KeybindingAction::MoveWindowToWorkspaceBelow => move_to_workspace_effect(a, mid, workspace_target(w, false, true, None), tail),
            KeybindingAction::MoveWindowToWorkspaceNumber(n) => move_to_workspace_effect(a, mid, workspace_target(w, false, false, Some(n)), tail),
            KeybindingAction::FocusOutputLeft => focus_output_effect(a, mid, Direction::Left) && tail,
            KeybindingAction::FocusOutputRight => focus_output_effect(a, mid, Direction::Right) && tail,
            KeybindingAction::FocusOutputAbove => focus_output_effect(a, mid, Direction::Above) && tail,
            KeybindingAction::FocusOutputBelow => focus_output_effect(a, mid, Direction::Below) && tail,
            KeybindingAction::MoveWindowToOutputLeft => move_to_output_effect(a, mid, Direction::Left, tail),
            KeybindingAction::MoveWindowToOutputRight => move_to_output_effect(a, mid, Direction::Right, tail),
            KeybindingAction::MoveWindowToOutputAbove => move_to_output_effect(a, mid, Direction::Above, tail),
            KeybindingAction::MoveWindowToOutputBelow => move_to_output_effect(a, mid, Direction::Below, tail),
            _ => mid == a && tail,
        }
    }
}

/// What `dispatch_action` does: `Spawn` and `ReloadConfig` queue their
/// request for the process around the library, `Exit` sets the status,
/// `EnterOverview` opens the overview (`enter_effect`) and, when it is
/// open, lays it out with status `Overview` and asks for a manage
/// sequence; every other action needs a focused output (without one
/// nothing happens) and does `action_effect`, followed by the layout pass
/// where that says so.
pub open spec fn dispatch_effect(a: WindowManager, b: WindowManager, action: KeybindingAction) -> bool {
    match action {
        KeybindingAction::Spawn(argv) => {
            &&& b.requests@.len() == a.requests@.len() + 1
            &&& b.requests@.drop_last() == a.requests@
            &&& b.requests@.last() matches Request::Spawn(v) && crate::keybinding::strings_view(v@) == crate::keybinding::strings_view(argv@)
            &&& b == (WindowManager { requests: b.requests, ..a })
        },
        KeybindingAction::Exit => b == (WindowManager { status: Status::Exit, ..a }),
        KeybindingAction::ReloadConfig => {
            &&& b.requests@ == a.requests@.push(Request::ReloadConfig)
            &&& b == (WindowManager { requests: b.requests, ..a })
        },
        KeybindingAction::EnterOverview => exists|mid: WindowManager| {
            &&& crate::overview::enter_effect(a, mid)
            &&& if mid.overview_state is Some {
                exists|u: WindowManager| {
                    &&& is_updated(WindowManager { status: Status::Overview, ..mid }, u)
                    &&& b.requests@ == u.requests@.push(Request::ManageDirty)
                    &&& b == (WindowManager { requests: b.requests, ..u })
                }
            } else {
                b == mid
            }
        },
        _ => if a.focused_output_idx is None {
            b == a
        } else {
            exists|mid: WindowManager, tail: bool| action_effect(a, mid, action, tail) && then_layout(mid, b, tail)
        },
    }
}

/// A copy of a list of strings.
pub fn copy_strings(v: &Vec<String>) -> (r: Vec<String>)
    ensures
        crate::keybinding::strings_view(r@) == crate::keybinding::strings_view(v@),
{
    let mut r: Vec<String> = Vec::new();
    let mut i: usize = 0;
    while i < v.len()
        invariant
            i <= v@.len(),
            r@.len() == i,
            forall|k: int| 0 <= k < i ==> (#[trigger] r@[k])@ == v@[k]@,
        decreases v@.len() - i,
    {
        r.push(v[i].clone());
        i = i + 1;
    }
    proof {
        assert(crate::keybinding::strings_view(r@) =~= crate::keybinding::strings_view(v@));
    }
    r
}

pub open spec fn is_row_action(a: KeybindingAction) -> bool {
    ||| a is FocusWindowLeft
    ||| a is FocusWindowRight
    ||| a is FocusWindowOrOutputLeft
    ||| a is FocusWindowOrOutputRight
    ||| a is MoveWindowLeft
    ||| a is MoveWindowRight
    ||| a is MoveWindowLeftOrToOutputLeft
    ||| a is MoveWindowRightOrToOutputRight
}

pub open spec fn is_workspace_action(a: KeybindingAction) -> bool {
    ||| a is FocusWorkspaceAbove
    ||| a is FocusWorkspaceBelow
    ||| a is FocusWorkspaceNumber
    ||| a is FocusWorkspaceOrOutputAbove
    ||| a is FocusWorkspaceOrOutputBelow
    ||| a is FocusWorkspacePrevious
    ||| a is MoveWindowToWorkspaceAbove
    ||| a is MoveWindowToWorkspaceBelow
    ||| a is MoveWindowToWorkspaceNumber
}

pub open spec fn is_output_action(a: KeybindingAction) -> bool {
    ||| a is FocusOutputLeft
    ||| a is FocusOutputRight
    ||| a is FocusOutputAbove
    ||| a is FocusOutputBelow
    ||| a is MoveWindowToOutputLeft
    ||| a is MoveWindowToOutputRight
    ||| a is MoveWindowToOutputAbove
    ||| a is MoveWindowToOutputBelow
}

fn row_action(wm: &mut WindowManager, action: &KeybindingAction) -> (tail: bool)
    requires
        old(wm).wf(),
        old(wm).focused_output_idx is Some,
        is_row_action(*action),
    ensures
        final(wm).wf(),
        action_effect(*old(wm), *final(wm), *action, tail),
{
    let (o, w) = match wm.current_ws_idx() {
        Some(c) => c,
        None => return false,
    };
    proof { assert(wm.outputs@[o as int].wf()); }
    let len = wm.outputs[o].workspace_list[w].window_list.len();
    let focus = wm.outputs[o].workspace_list[w].focused_window_idx;
    let at_left = match focus { Some(i) => i < len && i == 0, None => false };
    let at_right = match focus { Some(i) => i < len && i + 1 == len, None => false };
    match action {
        KeybindingAction::FocusWindowLeft => focus_step_action(wm, false),
        KeybindingAction::FocusWindowRight => focus_step_action(wm, true),
        KeybindingAction::FocusWindowOrOutputLeft => {
            if at_left {
                focus_output_action(wm, Direction::Left);
                true
            } else {
                focus_step_action(wm, false)
            }
        }
        KeybindingAction::FocusWindowOrOutputRight => {
            if at_right {
                focus_output_action(wm, Direction::Right);
                true
            } else {
                focus_step_action(wm, true)
            }
        }
        KeybindingAction::MoveWindowLeft => move_step_action(wm, false),
        KeybindingAction::MoveWindowRight => move_step_action(wm, true),
        KeybindingAction::MoveWindowLeftOrToOutputLeft => {
            if at_left { move_to_output_action(wm, Direction::Left) } else { move_step_action(wm, false) }
        }
        _ => {
            if at_right { move_to_output_action(wm, Direction::Right) } else { move_step_action(wm, true) }
        }
    }
}

fn workspace_action(wm: &mut WindowManager, action: &KeybindingAction) -> (tail: bool)
    requires
        old(wm).wf(),
        old(wm).focused_output_idx is Some,
        is_workspace_action(*action),
    ensures
        final(wm).wf(),
        action_effect(*old(wm), *final(wm), *action, tail),
{
    let (_o, w) = match wm.current_ws_idx() {
        Some(c) => c,
        None => return false,
    };
    match action {
        KeybindingAction::FocusWorkspaceAbove => focus_workspace_action(wm, true, false, None),
        KeybindingAction::FocusWorkspaceBelow => focus_workspace_action(wm, false, true, None),
        KeybindingAction::FocusWorkspaceNumber(n) => focus_workspace_action(wm, false, false, Some(*n)),
        KeybindingAction::FocusWorkspaceOrOutputAbove => {
            if w == 0 {
                focus_output_action(wm, Direction::Above);
                true
            } else {
                focus_workspace_action(wm, true, false, None)
            }
        }
        KeybindingAction::FocusWorkspaceOrOutputBelow => {
            if w == NUM_WORKSPACES - 1 {
                focus_output_action(wm, Direction::Below);
                true
            } else {
                focus_workspace_action(wm, false, true, None)
            }
        }
        KeybindingAction::FocusWorkspacePrevious => focus_previous_action(wm),
        KeybindingAction::MoveWindowToWorkspaceAbove => move_to_workspace_action(wm, true, false, None),
        KeybindingAction::MoveWindowToWorkspaceBelow => move_to_workspace_action(wm, false, true, None),
        KeybindingAction::MoveWindowToWorkspaceNumber(n) => move_to_workspace_action(wm, false, false, Some(*n)),
        _ => false,
    }
}

fn output_action(wm: &mut WindowManager, action: &KeybindingAction) -> (tail: bool)
    requires
        old(wm).wf(),
        old(wm).focused_output_idx is Some,
        is_output_action(*action),
    ensures
        final(wm).wf(),
        action_effect(*old(wm), *final(wm), *action, tail),
{
    match action {
        KeybindingAction::FocusOutputLeft => {
            focus_output_action(wm, Direction::Left);
            true
        }
        KeybindingAction::FocusOutputRight => {
            focus_output_action(wm, Direction::Right);
            true
        }
        KeybindingAction::FocusOutputAbove => {
            focus_output_action(wm, Direction::Above);
            true
        }
        KeybindingAction::FocusOutputBelow => {
            focus_output_action(wm, Direction::Below);
            true
        }
        KeybindingAction::MoveWindowToOutputLeft => move_to_output_action(wm, Direction::Left),
        KeybindingAction::MoveWindowToOutputRight => move_to_output_action(wm, Direction::Right),
        KeybindingAction::MoveWindowToOutputAbove => move_to_output_action(wm, Direction::Above),
        _ => move_to_output_action(wm, Direction::Below),
    }
}

/// An action that needs a focused output, before its layout pass.
#[verifier::spinoff_prover]
#[verifier::rlimit(40)]
fn focused_action(wm: &mut WindowManager, action: &KeybindingAction) -> (tail: bool)
    requires
        old(wm).wf(),
        old(wm).focused_output_idx is Some,
        !(action is Spawn || action is Exit || action is ReloadConfig || action is EnterOverview),
    ensures
        final(wm).wf(),
        action_effect(*old(wm), *final(wm), *action, tail),
{
    if overview_free(action) {
        return true;
    }
    if geometry_kind(action) {
        focused_geometry(wm, action)
    } else if row_kind(action) {
        row_action(wm, action)
    } else if workspace_kind(action) {
        workspace_action(wm, action)
    } else {
        output_action(wm, action)
    }
}

fn geometry_kind(a: &KeybindingAction) -> (r: bool)
    ensures
        r == is_geometry_action(*a),
{
    match a {
        KeybindingAction::CloseWindow | KeybindingAction::ToggleFullscreen | KeybindingAction::ToggleMaximizeColumn
        | KeybindingAction::AdjustWindowWidth(_) | KeybindingAction::SetWindowWidth(_)
        | KeybindingAction::AdjustFloatingWindowSize(_) | KeybindingAction::SetFloatingWindowHeight(_)
        | KeybindingAction::MoveFloatingWindowLeft | KeybindingAction::MoveFloatingWindowRight
        | KeybindingAction::MoveFloatingWindowUp | KeybindingAction::MoveFloatingWindowDown
        | KeybindingAction::ToggleWorkspaceFloating => true,
        _ => false,
    }
}

fn row_kind(a: &KeybindingAction) -> (r: bool)
    ensures
        r == is_row_action(*a),
{
    match a {
        KeybindingAction::FocusWindowLeft | KeybindingAction::FocusWindowRight
        | KeybindingAction::FocusWindowOrOutputLeft | KeybindingAction::FocusWindowOrOutputRight
        | KeybindingAction::MoveWindowLeft | KeybindingAction::MoveWindowRight
        | KeybindingAction::MoveWindowLeftOrToOutputLeft | KeybindingAction::MoveWindowRightOrToOutputRight => true,
        _ => false,
    }
}

fn workspace_kind(a: &KeybindingAction) -> (r: bool)
    ensures
        r == is_workspace_action(*a),
{
    match a {
        KeybindingAction::FocusWorkspaceAbove | KeybindingAction::FocusWorkspaceBelow
        | KeybindingAction::FocusWorkspaceNumber(_) | KeybindingAction::FocusWorkspaceOrOutputAbove
        | KeybindingAction::FocusWorkspaceOrOutputBelow | KeybindingAction::FocusWorkspacePrevious
        | KeybindingAction::MoveWindowToWorkspaceAbove | KeybindingAction::MoveWindowToWorkspaceBelow
        | KeybindingAction::MoveWindowToWorkspaceNumber(_) => true,
        _ => false,
    }
}

/// The actions that do nothing but the layout pass outside the overview.
fn overview_free(a: &KeybindingAction) -> (r: bool)
    ensures
        r ==> action_effect_is_noop(*a),
        !r && !(a is Spawn || a is Exit || a is ReloadConfig || a is EnterOverview) ==>
            is_geometry_action(*a) || is_row_action(*a) || is_workspace_action(*a) || is_output_action(*a),
{
    match a {
        KeybindingAction::OverviewCancel | KeybindingAction::OverviewConfirm | KeybindingAction::OverviewNavUp
        | KeybindingAction::OverviewNavDown | KeybindingAction::OverviewNavLeft | KeybindingAction::OverviewNavRight
        | KeybindingAction::MoveWindowToWorkspaceOrOutputAbove | KeybindingAction::MoveWindowToWorkspaceOrOutputBelow => true,
        _ => false,
    }
}

/// The action only triggers the layout pass.
pub open spec fn action_effect_is_noop(a: KeybindingAction) -> bool {
    ||| a is OverviewCancel
    ||| a is OverviewConfirm
    ||| a is OverviewNavUp
    ||| a is OverviewNavDown
    ||| a is OverviewNavLeft
    ||| a is OverviewNavRight
    ||| a is MoveWindowToWorkspaceOrOutputAbove
    ||| a is MoveWindowToWorkspaceOrOutputBelow
}

/// Carry out an action (see `dispatch_effect`).
#[verifier::spinoff_prover]
#[verifier::rlimit(40)]
pub fn dispatch_action(wm: &mut WindowManager, action: &KeybindingAction)
    requires
        old(wm).wf(),
    ensures
        final(wm).wf(),
        dispatch_effect(*old(wm), *final(wm), *action),
{
    match action {
        KeybindingAction::Spawn(argv) => {
            let ghost a = *wm;
            wm.send(Request::Spawn(copy_strings(argv)));
            proof {
                assert(wm.requests@.drop_last() =~= a.requests@);
            }
            return;
        }
        KeybindingAction::Exit => {
            wm.status = Status::Exit;
            return;
        }
        KeybindingAction::ReloadConfig => {
            wm.send(Request::ReloadConfig);
            return;
        }
        KeybindingAction::EnterOverview => {
            crate::overview::enter(wm);
            let ghost mid = *wm;
            if wm.overview_state.is_some() {
                wm.status = Status::Overview;
                update(wm);
                let ghost u = *wm;
                wm.send(Request::ManageDirty);
                proof {
                    assert(is_updated(WindowManager { status: Status::Overview, ..mid }, u));
                }
            }
            return;
        }
        _ => {}
    }
    if wm.focused_output_idx.is_none() {
        return;
    }
    let tail = focused_action(wm, action);
    let ghost mid = *wm;
    if tail {
        wm.status = Status::Layout;
        update(wm);
    }
    proof {
        assert(then_layout(mid, *wm, tail));
    }
}

/// A layout pass keeps which output and workspace are focused, and the
/// previous workspace.
proof fn lemma_updated_keeps_focus(x: WindowManager, y: WindowManager)
    requires
        is_updated(x, y),
    ensures
        y.focused_output_idx == x.focused_output_idx,
        y.previous_workspace == x.previous_workspace,
        y.outputs@.len() == x.outputs@.len(),
        forall|o: int| 0 <= o < x.outputs@.len() ==> (#[trigger] y.outputs@[o]).focused_workspace_idx == x.outputs@[o].focused_workspace_idx,
{
}

/// Switching to workspace `n` and then to the previous workspace comes
/// back to the output and workspace started from, and workspace `n` is
/// then the previous one.
pub proof fn law_focus_number_then_previous(a: WindowManager, b: WindowManager, c: WindowManager, n: usize)
    requires
        a.wf(),
        a.focused_output_idx is Some,
        1 <= n <= NUM_WORKSPACES,
        n - 1 != current(a).1,
        dispatch_effect(a, b, KeybindingAction::FocusWorkspaceNumber(n)),
        dispatch_effect(b, c, KeybindingAction::FocusWorkspacePrevious),
    ensures
        c.focused_output_idx == a.focused_output_idx,
        c.outputs@[current(a).0].focused_workspace_idx == current(a).1,
        c.previous_workspace == Some(OverviewHome { output_idx: current(a).0 as usize, workspace_idx: (n - 1) as usize }),
{
    let (o, w) = current(a);
    assert(0 <= o < a.outputs@.len());
    assert(a.outputs@[o].wf());
    let (mid, tail) = choose|mid: WindowManager, tail: bool|
        action_effect(a, mid, KeybindingAction::FocusWorkspaceNumber(n), tail) && then_layout(mid, b, tail);
    assert(workspace_target(w, false, false, Some(n)) == Some((n - 1) as usize));
    assert(tail);
    assert(workspace_switched(a, mid, o, (n - 1) as usize, current_home(a)));
    lemma_updated_keeps_focus(WindowManager { status: Status::Layout, ..mid }, b);
    assert(b.focused_output_idx == a.focused_output_idx);
    assert(b.outputs@[o].focused_workspace_idx == n - 1);
    assert(b.previous_workspace == Some(current_home(a)));
    assert(current(b) == (o, (n - 1) as int));
    let (mid2, tail2) = choose|mid2: WindowManager, tail2: bool|
        action_effect(b, mid2, KeybindingAction::FocusWorkspacePrevious, tail2) && then_layout(mid2, c, tail2);
    assert(focus_previous_effect(b, mid2, tail2));
    assert(tail2);
    assert(mid2.outputs@[o].focused_workspace_idx == w);
    lemma_updated_keeps_focus(WindowManager { status: Status::Layout, ..mid2 }, c);
}

/// Law: the output found in a direction touches `o` on that side: one
/// above ends (bottom edge) where `o` begins, one below begins where `o`
/// ends, one to the left ends where `o` begins horizontally, one to the
/// right begins where `o` ends. Conversely every other output still
/// present that touches `o` so counts as adjacent on that side.
pub proof fn law_adjacent_output_edges(wm: WindowManager, o: int, t: int)
    requires
        0 <= o < wm.outputs@.len(),
    ensures
        is_adjacent_output(wm, o, Direction::Above, t)
            ==> wm.outputs@[t].rectangle.y + wm.outputs@[t].rectangle.height == wm.outputs@[o].rectangle.y,
        is_adjacent_output(wm, o, Direction::Below, t)
            ==> wm.outputs@[t].rectangle.y == wm.outputs@[o].rectangle.y + wm.outputs@[o].rectangle.height,
        is_adjacent_output(wm, o, Direction::Left, t)
            ==> wm.outputs@[t].rectangle.x + wm.outputs@[t].rectangle.width == wm.outputs@[o].rectangle.x,
        is_adjacent_output(wm, o, Direction::Right, t)
            ==> wm.outputs@[t].rectangle.x == wm.outputs@[o].rectangle.x + wm.outputs@[o].rectangle.width,
        (0 <= t < wm.outputs@.len() && t != o && !wm.outputs@[t].is_removed
            && wm.outputs@[t].rectangle.y + wm.outputs@[t].rectangle.height == wm.outputs@[o].rectangle.y)
            ==> is_adjacent_output(wm, o, Direction::Above, t),
        (0 <= t < wm.outputs@.len() && t != o && !wm.outputs@[t].is_removed
            && wm.outputs@[t].rectangle.y == wm.outputs@[o].rectangle.y + wm.outputs@[o].rectangle.height)
            ==> is_adjacent_output(wm, o, Direction::Below, t),
        (0 <= t < wm.outputs@.len() && t != o && !wm.outputs@[t].is_removed
            && wm.outputs@[t].rectangle.x + wm.outputs@[t].rectangle.width == wm.outputs@[o].rectangle.x)
            ==> is_adjacent_output(wm, o, Direction::Left, t),
        (0 <= t < wm.outputs@.len() && t != o && !wm.outputs@[t].is_removed
            && wm.outputs@[t].rectangle.x == wm.outputs@[o].rectangle.x + wm.outputs@[o].rectangle.width)
            ==> is_adjacent_output(wm, o, Direction::Right, t),
{
}

/// Law: FocusWindowRight moves the keyboard focus from window `i` to
/// window `i + 1` of the focused workspace, FocusWindowLeft to window
/// `i - 1`; at the end of the row in that direction the focus stays.
pub proof fn law_focus_window_step(a: WindowManager, b: WindowManager, right: bool, i: usize)
    requires
        a.wf(),
        a.focused_output_idx is Some,
        a.ws(current(a).0, current(a).1).focused_window_idx == Some(i),
        i < a.ws(current(a).0, current(a).1).window_list@.len(),
        dispatch_effect(a, b, if right { KeybindingAction::FocusWindowRight } else { KeybindingAction::FocusWindowLeft }),
    ensures
        ({
            let (o, w) = current(a);
            let len = a.ws(o, w).window_list@.len();
            &&& right && i + 1 < len ==> b.ws(o, w).focused_window_idx == Some((i + 1) as usize)
            &&& !right && i > 0 ==> b.ws(o, w).focused_window_idx == Some((i - 1) as usize)
            &&& right && i + 1 == len ==> b.ws(o, w).focused_window_idx == Some(i)
            &&& !right && i == 0 ==> b.ws(o, w).focused_window_idx == Some(i)
            &&& b.ws(o, w).ids() == a.ws(o, w).ids()
        }),
{
    let (o, w) = current(a);
    assert(0 <= o < a.outputs@.len());
    assert(a.outputs@[o].wf());
    let action = if right { KeybindingAction::FocusWindowRight } else { KeybindingAction::FocusWindowLeft };
    let (mid, tail) = choose|mid: WindowManager, tail: bool| action_effect(a, mid, action, tail) && then_layout(mid, b, tail);
    assert(focus_step_effect(a, mid, right, tail));
    let len = a.ws(o, w).window_list@.len() as int;
    if (right && i + 1 == len) || (!right && i == 0) {
        assert(focus_step(Some(i), len, right) is None);
        assert(mid == a);
        assert(b == mid);
    }
    if tail {
        assert(mid.ws(o, w).focused_window_idx == b.ws(o, w).focused_window_idx);
        assert(mid.ws(o, w).ids() == b.ws(o, w).ids());
    }
}

/// Law: the workspace above `w` is `w - 1`, the one below `w + 1`, and
/// workspace number `n` is the one at index `n - 1`; there is none past
/// the first or last workspace, for a number out of range, or when it is
/// `w` itself.
pub proof fn law_workspace_target(w: int, n: usize)
    requires
        0 <= w < NUM_WORKSPACES,
    ensures
        w > 0 ==> workspace_target(w, true, false, None) == Some((w - 1) as usize),
        w == 0 ==> workspace_target(w, true, false, None) is None,
        w + 1 < NUM_WORKSPACES ==> workspace_target(w, false, true, None) == Some((w + 1) as usize),
        w + 1 == NUM_WORKSPACES ==> workspace_target(w, false, true, None) is None,
        1 <= n <= NUM_WORKSPACES && n - 1 != w ==> workspace_target(w, false, false, Some(n)) == Some((n - 1) as usize),
        (n == 0 || n > NUM_WORKSPACES || n - 1 == w) ==> workspace_target(w, false, false, Some(n)) is None,
{
}

/// Law: MoveWindowRight swaps the focused window `i` with window `i + 1`
/// of its row and keeps it focused there, MoveWindowLeft likewise with
/// window `i - 1`; at the end of the row in that direction nothing moves.
pub proof fn law_move_window_step(a: WindowManager, b: WindowManager, right: bool, i: usize)
    requires
        a.wf(),
        a.focused_output_idx is Some,
        a.ws(current(a).0, current(a).1).focused_window_idx == Some(i),
        i < a.ws(current(a).0, current(a).1).window_list@.len(),
        dispatch_effect(a, b, if right { KeybindingAction::MoveWindowRight } else { KeybindingAction::MoveWindowLeft }),
    ensures
        ({
            let (o, w) = current(a);
            let ids = a.ws(o, w).ids();
            let j: int = if right { i + 1 } else { i - 1 };
            &&& 0 <= j < ids.len() ==> {
                &&& b.ws(o, w).focused_window_idx == Some(j as usize)
                &&& b.ws(o, w).ids() == ids.update(i as int, ids[j]).update(j, ids[i as int])
            }
            &&& !(0 <= j < ids.len()) ==> b.ws(o, w).focused_window_idx == Some(i) && b.ws(o, w).ids() == ids
        }),
{
    let (o, w) = current(a);
    assert(0 <= o < a.outputs@.len());
    assert(a.outputs@[o].wf());
    let action = if right { KeybindingAction::MoveWindowRight } else { KeybindingAction::MoveWindowLeft };
    let (mid, tail) = choose|mid: WindowManager, tail: bool| action_effect(a, mid, action, tail) && then_layout(mid, b, tail);
    assert(move_step_effect(a, mid, right, tail));
    let j: int = if right { i + 1 } else { i - 1 };
    let l = a.ws(o, w).window_list@;
    assert(l.len() == a.ws(o, w).window_list.len());
    if 0 <= j < l.len() {
        let t: Option<usize> = if right {
            if i + 1 < l.len() { Some((i + 1) as usize) } else { None::<usize> }
        } else {
            if 0 < i && i - 1 < l.len() { Some((i - 1) as usize) } else { None::<usize> }
        };
        assert(t == Some(j as usize));
        assert(tail);
        let l2 = mid.ws(o, w).window_list@;
        assert(l2 == l.update(i as int, l[j]).update(j, l[i as int]));
        assert(mid.ws(o, w).ids() =~= a.ws(o, w).ids().update(i as int, a.ws(o, w).ids()[j]).update(j, a.ws(o, w).ids()[i as int]));
    } else {
        assert(mid == a);
    }
    if tail {
        assert(mid.ws(o, w).focused_window_idx == b.ws(o, w).focused_window_idx);
        assert(mid.ws(o, w).ids() == b.ws(o, w).ids());
    }
}

} // verus!
