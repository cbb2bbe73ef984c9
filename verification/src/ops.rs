//! The edits actions and events make to workspaces: change a window,
//! move focus within a workspace, swap two windows, take a window out,
//! put one in.

use vstd::prelude::*;
use crate::geometry::Rect;
use crate::wm::{others_equal, Window, WindowGeom, WindowManager, Workspace, NUM_WORKSPACES};

verus! {

/// A change to one window's geometry.
pub enum GeomOp {
    Close,
    ToggleFullscreen,
    SetFullscreen(bool),
    ToggleMaximize,
    SetProportion(u32),
    SetFloating(Rect),
    /// Toggle floating; a window that starts floating rests at the rectangle.
    ToggleFloating(Rect),
    /// Make the window floating at the rectangle, remembering it as the
    /// origin of a pointer drag.
    StartDrag(Rect),
    EndDrag,
}

/// Full-width columns are 1000 thousandths; toggling goes back to half.
pub open spec fn toggled_proportion(p: u32) -> u32 {
    if p == 1000 { 500 } else { 1000 }
}

/// A window's geometry after `op`.
pub open spec fn geom_after(g: WindowGeom, op: GeomOp) -> WindowGeom {
    match op {
        GeomOp::Close => WindowGeom { is_closing: true, ..g },
        GeomOp::ToggleFullscreen => WindowGeom { is_fullscreen: !g.is_fullscreen, ..g },
        GeomOp::SetFullscreen(b) => WindowGeom { is_fullscreen: b, ..g },
        GeomOp::ToggleMaximize => WindowGeom { proportion: toggled_proportion(g.proportion), ..g },
        GeomOp::SetProportion(p) => WindowGeom { proportion: p, ..g },
        GeomOp::SetFloating(r) => WindowGeom { floating: r, ..g },
        GeomOp::ToggleFloating(r) => if g.is_floating {
            WindowGeom { is_floating: false, ..g }
        } else {
            WindowGeom { is_floating: true, floating: r, ..g }
        },
        GeomOp::StartDrag(r) => WindowGeom { is_floating: true, floating: r, drag_origin: Some(r), ..g },
        GeomOp::EndDrag => WindowGeom { drag_origin: None, ..g },
    }
}

/// Apply `op` to a geometry.
pub fn apply_geom_op(g: &mut WindowGeom, op: GeomOp)
    ensures
        *final(g) == geom_after(*old(g), op),
{
    match op {
        GeomOp::Close => g.is_closing = true,
        GeomOp::ToggleFullscreen => g.is_fullscreen = !g.is_fullscreen,
        GeomOp::SetFullscreen(b) => g.is_fullscreen = b,
        GeomOp::ToggleMaximize => g.proportion = if g.proportion == 1000 { 500 } else { 1000 },
        GeomOp::SetProportion(p) => g.proportion = p,
        GeomOp::SetFloating(r) => g.floating = r,
        GeomOp::ToggleFloating(r) => {
            if g.is_floating {
                g.is_floating = false;
            } else {
                g.is_floating = true;
                g.floating = r;
            }
        }
        GeomOp::StartDrag(r) => {
            g.is_floating = true;
            g.floating = r;
            g.drag_origin = Some(r);
        }
        GeomOp::EndDrag => g.drag_origin = None,
    }
}

/// The focus of a workspace after window `i` left it, `len_after`
/// windows remaining: none when it is empty; a focus after `i` moves down
/// with its window; a focus on `i` moves to the window before it (the
/// first one stays first).
pub open spec fn focus_after_remove(f: Option<usize>, i: int, len_after: int) -> Option<usize> {
    if len_after == 0 {
        None
    } else {
        match f {
            Some(f) => if f > i {
                Some((f - 1) as usize)
            } else if f == i {
                if f > 0 { Some((f - 1) as usize) } else { Some(0usize) }
            } else {
                Some(f)
            },
            None => None,
        }
    }
}

/// `b` is `a` with workspace `(o, w)` replaced by `nws`; nothing else
/// differs.
pub open spec fn ws_replaced(a: WindowManager, b: WindowManager, o: int, w: int, nws: Workspace) -> bool {
    &&& b.outputs@.len() == a.outputs@.len()
    &&& forall|p: int| 0 <= p < a.outputs@.len() && p != o ==> #[trigger] b.outputs@[p] == a.outputs@[p]
    &&& b.outputs@[o].id == a.outputs@[o].id
    &&& b.outputs@[o].name == a.outputs@[o].name
    &&& b.outputs@[o].rectangle == a.outputs@[o].rectangle
    &&& b.outputs@[o].non_exclusive == a.outputs@[o].non_exclusive
    &&& b.outputs@[o].has_layer_shell == a.outputs@[o].has_layer_shell
    &&& b.outputs@[o].is_removed == a.outputs@[o].is_removed
    &&& b.outputs@[o].focused_workspace_idx == a.outputs@[o].focused_workspace_idx
    &&& forall|v: int| 0 <= v < NUM_WORKSPACES && v != w ==> #[trigger] b.ws(o, v) == a.ws(o, v)
    &&& b.ws(o, w) == nws
    &&& others_equal(a, b)
    &&& b.focused_output_idx == a.focused_output_idx
    &&& b.overview_state == a.overview_state
    &&& b.detached_outputs == a.detached_outputs
    &&& b.status == a.status
    &&& b.pending_windows == a.pending_windows
    &&& b.pending_ready == a.pending_ready
    &&& b.config == a.config
    &&& b.requests == a.requests
}

/// `w` with its geometry changed by `op`.
pub open spec fn window_after(w: Window, op: GeomOp) -> Window {
    Window { geom: geom_after(w.geom, op), ..w }
}

/// Apply `op` to window `i` of workspace `(o, w)`.
pub fn change_window(wm: &mut WindowManager, o: usize, w: usize, i: usize, op: GeomOp)
    requires
        old(wm).wf(),
        o < old(wm).outputs@.len(),
        w < NUM_WORKSPACES,
        i < old(wm).ws(o as int, w as int).window_list@.len(),
    ensures
        final(wm).wf(),
        ws_replaced(*old(wm), *final(wm), o as int, w as int, Workspace {
            window_list: final(wm).ws(o as int, w as int).window_list,
            focused_window_idx: old(wm).ws(o as int, w as int).focused_window_idx,
        }),
        final(wm).ws(o as int, w as int).window_list@
            == old(wm).ws(o as int, w as int).window_list@.update(i as int, window_after(old(wm).ws(o as int, w as int).window_list@[i as int], op)),
{
    let mut ws = wm.take_workspace(o, w);
    apply_geom_op(&mut ws.window_list[i].geom, op);
    wm.put_workspace(o, w, ws);
    proof {
        assert(wm.ws(o as int, w as int).window_list@ =~= old(wm).ws(o as int, w as int).window_list@.update(i as int, window_after(old(wm).ws(o as int, w as int).window_list@[i as int], op)));
    }
}

/// Set the focus index of workspace `(o, w)`.
pub fn set_window_focus(wm: &mut WindowManager, o: usize, w: usize, f: Option<usize>)
    requires
        old(wm).wf(),
        o < old(wm).outputs@.len(),
        w < NUM_WORKSPACES,
        f matches Some(i) ==> i < old(wm).ws(o as int, w as int).window_list@.len(),
    ensures
        final(wm).wf(),
        ws_replaced(*old(wm), *final(wm), o as int, w as int, Workspace {
            window_list: old(wm).ws(o as int, w as int).window_list,
            focused_window_idx: f,
        }),
{
    let mut ws = wm.take_workspace(o, w);
    ws.focused_window_idx = f;
    wm.put_workspace(o, w, ws);
}

/// Swap windows `i` and `j` of workspace `(o, w)` and focus position `j`
/// (the window that was at `i`).
pub fn swap_windows(wm: &mut WindowManager, o: usize, w: usize, i: usize, j: usize)
    requires
        old(wm).wf(),
        o < old(wm).outputs@.len(),
        w < NUM_WORKSPACES,
        i < old(wm).ws(o as int, w as int).window_list@.len(),
        j < old(wm).ws(o as int, w as int).window_list@.len(),
        i != j,
    ensures
        final(wm).wf(),
        ws_replaced(*old(wm), *final(wm), o as int, w as int, Workspace {
            window_list: final(wm).ws(o as int, w as int).window_list,
            focused_window_idx: Some(j),
        }),
        ({
            let l = old(wm).ws(o as int, w as int).window_list@;
            final(wm).ws(o as int, w as int).window_list@ == l.update(i as int, l[j as int]).update(j as int, l[i as int])
        }),
{
    let mut ws = wm.take_workspace(o, w);
    let ghost l = ws.window_list@;
    let (lo, hi) = if i < j { (i, j) } else { (j, i) };
    let at_hi = ws.window_list.remove(hi);
    let at_lo = ws.window_list.remove(lo);
    ws.window_list.insert(lo, at_hi);
    ws.window_list.insert(hi, at_lo);
    ws.focused_window_idx = Some(j);
    proof {
        assert(ws.window_list@ =~= l.update(i as int, l[j as int]).update(j as int, l[i as int]));
    }
    wm.put_workspace(o, w, ws);
}

/// Take window `i` out of a workspace (see `focus_after_remove`).
pub fn ws_remove(ws: &mut Workspace, i: usize) -> (win: Window)
    requires
        old(ws).wf(),
        i < old(ws).window_list@.len(),
    ensures
        final(ws).wf(),
        win == old(ws).window_list@[i as int],
        final(ws).window_list@ == old(ws).window_list@.remove(i as int),
        final(ws).focused_window_idx == focus_after_remove(old(ws).focused_window_idx, i as int, old(ws).window_list@.len() - 1),
{
    let win = ws.window_list.remove(i);
    let len = ws.window_list.len();
    ws.focused_window_idx = if len == 0 {
        None
    } else {
        match ws.focused_window_idx {
            Some(f) => {
                if f > i {
                    Some(f - 1)
                } else if f == i {
                    if f > 0 { Some(f - 1) } else { Some(0) }
                } else {
                    Some(f)
                }
            }
            None => None,
        }
    };
    win
}

/// Append a window to a workspace and focus it.
pub fn ws_append(ws: &mut Workspace, win: Window)
    ensures
        final(ws).wf(),
        final(ws).window_list@ == old(ws).window_list@.push(win),
        final(ws).focused_window_idx == Some(old(ws).window_list@.len() as usize),
{
    ws.window_list.push(win);
    ws.focused_window_idx = Some(ws.window_list.len() - 1);
}

/// Take window `i` out of workspace `(o, w)`.
pub fn remove_window(wm: &mut WindowManager, o: usize, w: usize, i: usize) -> (win: Window)
    requires
        old(wm).wf(),
        o < old(wm).outputs@.len(),
        w < NUM_WORKSPACES,
        i < old(wm).ws(o as int, w as int).window_list@.len(),
    ensures
        final(wm).wf(),
        win == old(wm).ws(o as int, w as int).window_list@[i as int],
        ws_replaced(*old(wm), *final(wm), o as int, w as int, Workspace {
            window_list: final(wm).ws(o as int, w as int).window_list,
            focused_window_idx: focus_after_remove(old(wm).ws(o as int, w as int).focused_window_idx, i as int,
                old(wm).ws(o as int, w as int).window_list@.len() - 1),
        }),
        final(wm).ws(o as int, w as int).window_list@ == old(wm).ws(o as int, w as int).window_list@.remove(i as int),
{
    let mut ws = wm.take_workspace(o, w);
    let win = ws_remove(&mut ws, i);
    wm.put_workspace(o, w, ws);
    win
}

/// Append a window to workspace `(o, w)` and focus it.
pub fn append_window(wm: &mut WindowManager, o: usize, w: usize, win: Window)
    requires
        old(wm).wf(),
        o < old(wm).outputs@.len(),
        w < NUM_WORKSPACES,
    ensures
        final(wm).wf(),
        ws_replaced(*old(wm), *final(wm), o as int, w as int, Workspace {
            window_list: final(wm).ws(o as int, w as int).window_list,
            focused_window_idx: Some(old(wm).ws(o as int, w as int).window_list@.len() as usize),
        }),
        final(wm).ws(o as int, w as int).window_list@ == old(wm).ws(o as int, w as int).window_list@.push(win),
{
    let mut ws = wm.take_workspace(o, w);
    ws_append(&mut ws, win);
    wm.put_workspace(o, w, ws);
}

/// Move window `i` of workspace `(o1, w1)` to the end of workspace
/// `(o2, w2)`, where it is focused; the source focus follows
/// `focus_after_remove`. Returns the window's id.
pub fn move_window(wm: &mut WindowManager, o1: usize, w1: usize, i: usize, o2: usize, w2: usize) -> (id: u32)
    requires
        old(wm).wf(),
        o1 < old(wm).outputs@.len(),
        o2 < old(wm).outputs@.len(),
        w1 < NUM_WORKSPACES,
        w2 < NUM_WORKSPACES,
        i < old(wm).ws(o1 as int, w1 as int).window_list@.len(),
        o1 != o2 || w1 != w2,
    ensures
        final(wm).wf(),
        id == old(wm).ws(o1 as int, w1 as int).window_list@[i as int].id,
        final(wm).outputs@.len() == old(wm).outputs@.len(),
        final(wm).ws(o1 as int, w1 as int).window_list@ == old(wm).ws(o1 as int, w1 as int).window_list@.remove(i as int),
        final(wm).ws(o1 as int, w1 as int).focused_window_idx == focus_after_remove(old(wm).ws(o1 as int, w1 as int).focused_window_idx,
            i as int, old(wm).ws(o1 as int, w1 as int).window_list@.len() - 1),
        final(wm).ws(o2 as int, w2 as int).window_list@ == old(wm).ws(o2 as int, w2 as int).window_list@.push(
            old(wm).ws(o1 as int, w1 as int).window_list@[i as int]),
        final(wm).ws(o2 as int, w2 as int).focused_window_idx == Some(old(wm).ws(o2 as int, w2 as int).window_list@.len() as usize),
        forall|p: int, v: int| 0 <= p < old(wm).outputs@.len() && 0 <= v < NUM_WORKSPACES && !(p == o1 && v == w1) && !(p == o2 && v == w2)
            ==> #[trigger] final(wm).ws(p, v) == old(wm).ws(p, v),
        forall|p: int| 0 <= p < old(wm).outputs@.len() ==> {
            &&& (#[trigger] final(wm).outputs@[p]).id == old(wm).outputs@[p].id
            &&& final(wm).outputs@[p].name == old(wm).outputs@[p].name
            &&& final(wm).outputs@[p].rectangle == old(wm).outputs@[p].rectangle
            &&& final(wm).outputs@[p].non_exclusive == old(wm).outputs@[p].non_exclusive
            &&& final(wm).outputs@[p].has_layer_shell == old(wm).outputs@[p].has_layer_shell
            &&& final(wm).outputs@[p].is_removed == old(wm).outputs@[p].is_removed
            &&& final(wm).outputs@[p].focused_workspace_idx == old(wm).outputs@[p].focused_workspace_idx
        },
        others_equal(*old(wm), *final(wm)),
        final(wm).focused_output_idx == old(wm).focused_output_idx,
        final(wm).overview_state == old(wm).overview_state,
        final(wm).detached_outputs == old(wm).detached_outputs,
        final(wm).status == old(wm).status,
        final(wm).pending_windows == old(wm).pending_windows,
        final(wm).pending_ready == old(wm).pending_ready,
        final(wm).config == old(wm).config,
        final(wm).requests == old(wm).requests,
{
    let ghost a = *wm;
    let win = remove_window(wm, o1, w1, i);
    let id = win.id;
    let ghost b = *wm;
    append_window(wm, o2, w2, win);
    proof {
        assert(b.ws(o2 as int, w2 as int) == a.ws(o2 as int, w2 as int)) by {
            if o2 != o1 {
                assert(b.outputs@[o2 as int] == a.outputs@[o2 as int]);
            }
        }
        assert(wm.ws(o1 as int, w1 as int) == b.ws(o1 as int, w1 as int)) by {
            if o2 != o1 {
                assert(wm.outputs@[o1 as int] == b.outputs@[o1 as int]);
            }
        }
        assert forall|p: int, v: int| 0 <= p < a.outputs@.len() && 0 <= v < NUM_WORKSPACES && !(p == o1 && v == w1) && !(p == o2 && v == w2)
            implies #[trigger] wm.ws(p, v) == a.ws(p, v) by {
            if p != o2 {
                assert(wm.outputs@[p] == b.outputs@[p]);
                assert(wm.ws(p, v) == b.ws(p, v));
            } else {
                assert(v != w2);
                assert(wm.ws(p, v) == b.ws(p, v));
            }
            if p != o1 {
                assert(b.outputs@[p] == a.outputs@[p]);
                assert(b.ws(p, v) == a.ws(p, v));
            } else {
                assert(v != w1);
                assert(b.ws(p, v) == a.ws(p, v));
            }
        }
        assert forall|p: int| 0 <= p < a.outputs@.len() implies {
            &&& (#[trigger] wm.outputs@[p]).id == a.outputs@[p].id
            &&& wm.outputs@[p].name == a.outputs@[p].name
            &&& wm.outputs@[p].rectangle == a.outputs@[p].rectangle
            &&& wm.outputs@[p].non_exclusive == a.outputs@[p].non_exclusive
            &&& wm.outputs@[p].has_layer_shell == a.outputs@[p].has_layer_shell
            &&& wm.outputs@[p].is_removed == a.outputs@[p].is_removed
            &&& wm.outputs@[p].focused_workspace_idx == a.outputs@[p].focused_workspace_idx
        } by {
            if p != o2 {
                assert(wm.outputs@[p] == b.outputs@[p]);
            }
            if p != o1 {
                assert(b.outputs@[p] == a.outputs@[p]);
            }
        }
    }
    id
}

/// `b` is `a` with output `o` showing workspace `t`; nothing else differs.
pub open spec fn workspace_focused(a: WindowManager, b: WindowManager, o: int, t: usize) -> bool {
    &&& b.outputs@.len() == a.outputs@.len()
    &&& forall|p: int| 0 <= p < a.outputs@.len() && p != o ==> #[trigger] b.outputs@[p] == a.outputs@[p]
    &&& b.outputs@[o] == (crate::wm::Output { focused_workspace_idx: t, ..a.outputs@[o] })
    &&& b == (WindowManager { outputs: b.outputs, ..a })
}

/// Show workspace `t` on output `o`.
pub fn set_focused_workspace(wm: &mut WindowManager, o: usize, t: usize)
    requires
        old(wm).wf(),
        o < old(wm).outputs@.len(),
        t < NUM_WORKSPACES,
    ensures
        final(wm).wf(),
        workspace_focused(*old(wm), *final(wm), o as int, t),
{
    let ghost before = wm.outputs@;
    wm.outputs[o].focused_workspace_idx = t;
    proof {
        assert forall|p: int| 0 <= p < wm.outputs@.len() implies #[trigger] wm.outputs@[p].wf() by {
            assert(before[p].wf());
        }
    }
}

} // verus!
