//! What the state machine does with river's events: outputs, windows,
//! the seat, the session lock, layer-shell focus and pointer drags.
//! Events only change state (and mark what the next manage sequence must
//! do); requests that change the screen are made during manage sequences.

use vstd::prelude::*;
use crate::actions::PointerAction;
use crate::config::WindowRule;
use crate::geometry::{floating_min_size, initial_rectangle, min_floating_size, move_floating, resize_floating, sanitize, Rect};
use crate::ops::{append_window, change_window, remove_window, set_window_focus, window_after, ws_replaced, GeomOp};
use crate::text::{chars_of, glob_matches, glob_match};
use crate::wm::{CursorShape, LayerShellFocus, Output, Request, Status, Window, WindowManager, Workspace, NUM_WORKSPACES};

verus! {

/// A seat appeared: bindings are created at the next manage sequence
/// that has an output to work with.
pub fn seat_created(wm: &mut WindowManager)
    ensures
        *final(wm) == (WindowManager { has_seat: true, needs_setup_bindings: true, ..*old(wm) }),
{
    wm.has_seat = true;
    wm.needs_setup_bindings = true;
}

/// A new output (with ten empty workspaces) joins the list and is
/// focused; a layout pass follows. `has_layer_shell` tells whether a
/// layer-shell output object was made for it.
pub fn output_created(wm: &mut WindowManager, id: u32, has_layer_shell: bool)
    requires
        old(wm).wf(),
    ensures
        final(wm).wf(),
        final(wm).outputs@.len() == old(wm).outputs@.len() + 1,
        forall|o: int| 0 <= o < old(wm).outputs@.len() ==> #[trigger] final(wm).outputs@[o] == old(wm).outputs@[o],
        ({
            let n = final(wm).outputs@.last();
            &&& n.id == id
            &&& n.has_layer_shell == has_layer_shell
            &&& n.name is None
            &&& !n.is_removed
            &&& n.focused_workspace_idx == 0
            &&& forall|w: int| 0 <= w < NUM_WORKSPACES ==> (#[trigger] n.workspace_list@[w]).window_list@.len() == 0
        }),
        *final(wm) == (WindowManager {
            outputs: final(wm).outputs,
            focused_output_idx: Some(old(wm).outputs@.len() as usize),
            status: Status::Layout,
            ..*old(wm)
        }),
{
    let out = Output::new(id, has_layer_shell);
    proof { assert(out.wf()); }
    wm.outputs.push(out);
    wm.focused_output_idx = Some(wm.outputs.len() - 1);
    wm.status = Status::Layout;
}

/// `b` is `a` with output `o` replaced by `out` and status `Layout`.
pub open spec fn output_changed(a: WindowManager, b: WindowManager, o: int, out: Output) -> bool {
    &&& b.outputs@ == a.outputs@.update(o, out)
    &&& b == (WindowManager { outputs: b.outputs, status: Status::Layout, ..a })
}

/// Where an event for output `id` goes: the output with that id not yet
/// removed.
pub open spec fn live_output(wm: WindowManager, id: u32, o: int) -> bool {
    0 <= o < wm.outputs@.len() && wm.outputs@[o].id == id && !wm.outputs@[o].is_removed
}

/// An output property changed: `name`, `position`, `dimensions` or the
/// non-exclusive area. Events for an unknown output are ignored.
pub enum OutputChange {
    Name(String),
    Position(i32, i32),
    Dimensions(i32, i32),
    NonExclusiveArea(Rect),
}

/// The output after a change.
pub open spec fn output_after(out: Output, c: OutputChange) -> Output {
    match c {
        OutputChange::Name(n) => Output { name: Some(n), ..out },
        OutputChange::Position(x, y) => Output { rectangle: Rect { x, y, ..out.rectangle }, ..out },
        OutputChange::Dimensions(w, h) => Output { rectangle: Rect { width: w, height: h, ..out.rectangle }, ..out },
        OutputChange::NonExclusiveArea(r) => Output { non_exclusive: r, ..out },
    }
}

/// Apply a property change to output `id` (the first one with that id
/// not removed); a layout pass follows. Returns the output's index.
pub fn output_changed_event(wm: &mut WindowManager, id: u32, change: OutputChange) -> (r: Option<usize>)
    requires
        old(wm).wf(),
    ensures
        final(wm).wf(),
        match r {
            Some(o) => live_output(*old(wm), id, o as int)
                && output_changed(*old(wm), *final(wm), o as int, output_after(old(wm).outputs@[o as int], change)),
            None => *final(wm) == *old(wm) && forall|o: int| !live_output(*old(wm), id, o),
        },
{
    let o = match wm.output_index(id) {
        Some(o) => o,
        None => return None,
    };
    let ghost before = wm.outputs@;
    match change {
        OutputChange::Name(n) => wm.outputs[o].name = Some(n),
        OutputChange::Position(x, y) => {
            wm.outputs[o].rectangle.x = x;
            wm.outputs[o].rectangle.y = y;
        }
        OutputChange::Dimensions(w, h) => {
            wm.outputs[o].rectangle.width = w;
            wm.outputs[o].rectangle.height = h;
        }
        OutputChange::NonExclusiveArea(r) => wm.outputs[o].non_exclusive = r,
    }
    wm.status = Status::Layout;
    proof {
        assert forall|p: int| 0 <= p < wm.outputs@.len() implies #[trigger] wm.outputs@[p].wf() by {
            assert(before[p].wf());
        }
        assert(wm.outputs@ =~= before.update(o as int, output_after(before[o as int], change)));
    }
    Some(o)
}

/// River removed output `id`: it is marked, and the next layout pass
/// takes it out (migrating or detaching its windows). Returns its index.
pub fn output_removed(wm: &mut WindowManager, id: u32) -> (r: Option<usize>)
    requires
        old(wm).wf(),
    ensures
        final(wm).wf(),
        match r {
            Some(o) => live_output(*old(wm), id, o as int)
                && output_changed(*old(wm), *final(wm), o as int, Output { is_removed: true, ..old(wm).outputs@[o as int] }),
            None => *final(wm) == *old(wm) && forall|o: int| !live_output(*old(wm), id, o),
        },
{
    let o = match wm.output_index(id) {
        Some(o) => o,
        None => return None,
    };
    let ghost before = wm.outputs@;
    wm.outputs[o].is_removed = true;
    wm.status = Status::Layout;
    proof {
        assert forall|p: int| 0 <= p < wm.outputs@.len() implies #[trigger] wm.outputs@[p].wf() by {
            assert(before[p].wf());
        }
        assert(wm.outputs@ =~= before.update(o as int, Output { is_removed: true, ..before[o as int] }));
    }
    Some(o)
}

/// A rule floats a window when it asks for floating, has at least one
/// matcher, and every matcher it has matches (a glob with `*`) a value the
/// window has.
pub open spec fn rule_matches(r: WindowRule, app_id: Option<String>, title: Option<String>) -> bool {
    &&& r.floating
    &&& (r.app_id is Some || r.title is Some)
    &&& (r.app_id matches Some(p) ==> (app_id matches Some(a) && a@.len() < usize::MAX && glob_matches(p@, a@)))
    &&& (r.title matches Some(p) ==> (title matches Some(t) && t@.len() < usize::MAX && glob_matches(p@, t@)))
}

/// Some rule floats the window.
pub open spec fn rules_float(rules: Seq<WindowRule>, app_id: Option<String>, title: Option<String>) -> bool {
    exists|k: int| 0 <= k < rules.len() && rule_matches(#[trigger] rules[k], app_id, title)
}

fn matcher_ok(pattern: &Option<String>, value: &Option<String>) -> (r: bool)
    ensures
        r == (pattern matches Some(p) ==> (value matches Some(a) && a@.len() < usize::MAX && glob_matches(p@, a@))),
{
    match pattern {
        None => true,
        Some(p) => match value {
            None => false,
            Some(a) => {
                let pc = chars_of(p.as_str());
                let ac = chars_of(a.as_str());
                if ac.len() == usize::MAX {
                    false
                } else {
                    glob_match(&pc, &ac)
                }
            }
        },
    }
}

/// Whether the window rules float a window with this app id and title.
pub fn window_rules_float(rules: &Vec<WindowRule>, app_id: &Option<String>, title: &Option<String>) -> (r: bool)
    ensures
        r == rules_float(rules@, *app_id, *title),
{
    let mut k: usize = 0;
    while k < rules.len()
        invariant
            k <= rules@.len(),
            forall|j: int| 0 <= j < k ==> !rule_matches(#[trigger] rules@[j], *app_id, *title),
        decreases rules@.len() - k,
    {
        let r = &rules[k];
        if r.floating && (r.app_id.is_some() || r.title.is_some()) && matcher_ok(&r.app_id, app_id)
            && matcher_ok(&r.title, title) {
            proof { assert(rule_matches(rules@[k as int], *app_id, *title)); }
            return true;
        }
        k = k + 1;
    }
    false
}

/// River announced a window; it waits, unmapped, for its dimensions.
pub fn window_created(wm: &mut WindowManager, id: u32)
    requires
        old(wm).wf(),
    ensures
        final(wm).wf(),
        final(wm).pending_windows@.len() == old(wm).pending_windows@.len() + 1,
        final(wm).pending_windows@.last().id == id,
        final(wm).pending_ready@ == old(wm).pending_ready@.push(false),
        forall|p: int| 0 <= p < old(wm).pending_windows@.len() ==> #[trigger] final(wm).pending_windows@[p] == old(wm).pending_windows@[p],
        *final(wm) == (WindowManager { pending_windows: final(wm).pending_windows, pending_ready: final(wm).pending_ready, ..*old(wm) }),
{
    wm.pending_windows.push(Window::new(id));
    wm.pending_ready.push(false);
}

/// The position of the unmapped window `id`.
fn find_pending(wm: &WindowManager, id: u32) -> (r: Option<usize>)
    ensures
        r matches Some(p) ==> p < wm.pending_windows@.len() && wm.pending_windows@[p as int].id == id
            && forall|q: int| 0 <= q < p ==> (#[trigger] wm.pending_windows@[q]).id != id,
        r is None ==> forall|p: int| 0 <= p < wm.pending_windows@.len() ==> (#[trigger] wm.pending_windows@[p]).id != id,
{
    let mut p: usize = 0;
    while p < wm.pending_windows.len()
        invariant
            p <= wm.pending_windows@.len(),
            forall|q: int| 0 <= q < p ==> (#[trigger] wm.pending_windows@[q]).id != id,
        decreases wm.pending_windows@.len() - p,
    {
        if wm.pending_windows[p].id == id {
            return Some(p);
        }
        p = p + 1;
    }
    None
}

/// Which identification field an event sets.
pub enum WindowText {
    AppId(Option<String>),
    Title(Option<String>),
}

/// The window with its app id or title replaced.
pub open spec fn with_text(w: Window, t: WindowText) -> Window {
    match t {
        WindowText::AppId(a) => Window { app_id: a, ..w },
        WindowText::Title(t) => Window { title: t, ..w },
    }
}

/// Unmapped window `p` has id `id`.
pub open spec fn pending_at(wm: WindowManager, p: int, id: u32) -> bool {
    0 <= p < wm.pending_windows@.len() && wm.pending_windows@[p].id == id
}

/// Window `i` of workspace `(o, w)` has id `id`.
pub open spec fn mapped_at(wm: WindowManager, o: int, w: int, i: int, id: u32) -> bool {
    &&& 0 <= o < wm.outputs@.len()
    &&& 0 <= w < NUM_WORKSPACES
    &&& 0 <= i < wm.ws(o, w).window_list@.len()
    &&& wm.ws(o, w).window_list@[i].id == id
}

/// A window reported its app id or title. The first unmapped window with
/// that id gets it; otherwise the first mapped one (rules are not
/// evaluated again for it); an unknown id changes nothing.
#[verifier::spinoff_prover]
#[verifier::rlimit(40)]
pub fn window_text(wm: &mut WindowManager, id: u32, text: WindowText)
    requires
        old(wm).wf(),
    ensures
        final(wm).wf(),
        if exists|p: int| #[trigger] pending_at(*old(wm), p, id) {
            exists|p: int| #[trigger] pending_at(*old(wm), p, id)
                && final(wm).pending_windows@ == old(wm).pending_windows@.update(p, with_text(old(wm).pending_windows@[p], text))
                && *final(wm) == (WindowManager { pending_windows: final(wm).pending_windows, ..*old(wm) })
        } else if exists|o: int, w: int, i: int| #[trigger] mapped_at(*old(wm), o, w, i, id) {
            exists|o: int, w: int, i: int| #[trigger] mapped_at(*old(wm), o, w, i, id)
                && ws_replaced(*old(wm), *final(wm), o, w, Workspace {
                    window_list: final(wm).ws(o, w).window_list,
                    focused_window_idx: old(wm).ws(o, w).focused_window_idx,
                })
                && final(wm).ws(o, w).window_list@ == old(wm).ws(o, w).window_list@.update(i, with_text(old(wm).ws(o, w).window_list@[i], text))
        } else {
            *final(wm) == *old(wm)
        },
{
    match find_pending(wm, id) {
        Some(p) => {
            let ghost before = wm.pending_windows@;
            let mut win = wm.pending_windows.remove(p);
            match text {
                WindowText::AppId(a) => win.app_id = a,
                WindowText::Title(t) => win.title = t,
            }
            wm.pending_windows.insert(p, win);
            proof {
                assert(pending_at(*old(wm), p as int, id));
                assert(wm.pending_windows@ =~= before.update(p as int, with_text(before[p as int], text)));
            }
        }
        None => {
            proof {
                assert(!exists|p: int| #[trigger] pending_at(*old(wm), p, id));
            }
            match wm.locate_window(id) {
                Some((o, w, i)) => {
                    let mut ws = wm.take_workspace(o, w);
                    let ghost l = ws.window_list@;
                    match text {
                        WindowText::AppId(a) => ws.window_list[i].app_id = a,
                        WindowText::Title(t) => ws.window_list[i].title = t,
                    }
                    proof {
                        assert(ws.window_list@ =~= l.update(i as int, with_text(l[i as int], text)));
                    }
                    wm.put_workspace(o, w, ws);
                    proof {
                        assert(mapped_at(*old(wm), o as int, w as int, i as int, id));
                    }
                }
                None => {
                    proof {
                        assert(!exists|o: int, w: int, i: int| #[trigger] mapped_at(*old(wm), o, w, i, id));
                    }
                }
            }
        }
    }
}

/// Unmapped window `p` as it is mapped: floating when it was already or a
/// window rule says so.
pub open spec fn ruled_window(a: WindowManager, p: int) -> Window {
    let w0 = a.pending_windows@[p];
    Window {
        geom: crate::wm::WindowGeom {
            is_floating: w0.geom.is_floating || rules_float(a.config.window_rules@, w0.app_id, w0.title),
            ..w0.geom
        },
        ..w0
    }
}

/// `b` is `a` after unmapped window `p` was mapped (see `map_pending`).
pub open spec fn pending_mapped(a: WindowManager, b: WindowManager, p: int) -> bool {
    let w1 = ruled_window(a, p);
    let rest = WindowManager {
        pending_windows: b.pending_windows,
        pending_ready: b.pending_ready,
        status: Status::Layout,
        ..a
    };
    match a.focused_output_idx {
        Some(o) => {
            let fw = a.outputs@[o as int].focused_workspace_idx as int;
            let area = crate::geometry::spec_sanitize(a.outputs@[o as int].non_exclusive);
            &&& b.pending_windows@ == a.pending_windows@.remove(p)
            &&& b.pending_ready@ == a.pending_ready@.remove(p)
            &&& crate::ops::ws_replaced(rest, b, o as int, fw, Workspace {
                window_list: b.ws(o as int, fw).window_list,
                focused_window_idx: Some(a.ws(o as int, fw).window_list@.len() as usize),
            })
            &&& b.ws(o as int, fw).window_list@ == a.ws(o as int, fw).window_list@.push(Window {
                geom: crate::wm::WindowGeom { floating: crate::geometry::spec_center(area), ..w1.geom },
                ..w1
            })
        },
        None => {
            &&& b.pending_windows@ == a.pending_windows@.remove(p).push(w1)
            &&& b.pending_ready@ == a.pending_ready@.remove(p).push(true)
            &&& b == rest
        },
    }
}

/// Take a window out of the unmapped list and map it: the window rules
/// decide whether it floats (it rests at half the non-exclusive area,
/// centred); it joins the end of the focused workspace and is focused. With
/// no focused output it stays unmapped, ready for the next layout pass.
pub fn map_pending(wm: &mut WindowManager, p: usize)
    requires
        old(wm).wf(),
        p < old(wm).pending_windows@.len(),
    ensures
        final(wm).wf(),
        pending_mapped(*old(wm), *final(wm), p as int),
{
    let mut win = wm.pending_windows.remove(p);
    let _ready = wm.pending_ready.remove(p);
    let floats = window_rules_float(&wm.config.window_rules, &win.app_id, &win.title);
    if floats {
        win.geom.is_floating = true;
    }
    proof { assert(win == ruled_window(*old(wm), p as int)); }
    match wm.current_ws_idx() {
        Some((o, w)) => {
            let area = sanitize(wm.outputs[o].non_exclusive);
            win.geom.floating = initial_rectangle(area);
            let ghost before = *wm;
            append_window(wm, o, w, win);
            let ghost after = *wm;
            wm.status = Status::Layout;
            proof {
                assert(before.outputs == old(wm).outputs);
                let x = WindowManager { status: Status::Layout, ..before };
                assert(crate::wm::others_equal(x, *wm));
                assert forall|v: int| 0 <= v < NUM_WORKSPACES && v != w implies #[trigger] wm.ws(o as int, v) == x.ws(o as int, v) by {
                    assert(x.ws(o as int, v) == before.ws(o as int, v));
                    assert(after.ws(o as int, v) == before.ws(o as int, v));
                    assert(wm.outputs == after.outputs);
                }
                assert(crate::ops::ws_replaced(x, *wm, o as int, w as int, Workspace {
                    window_list: wm.ws(o as int, w as int).window_list,
                    focused_window_idx: Some(before.ws(o as int, w as int).window_list@.len() as usize),
                }));
            }
        }
        None => {
            wm.pending_windows.push(win);
            wm.pending_ready.push(true);
            wm.status = Status::Layout;
        }
    }
}

/// River reported a window's dimensions: the first unmapped window with
/// that id is mapped now (see `map_pending`), unless it already was and
/// only waits for an output; for others nothing changes.
pub fn window_dimensions(wm: &mut WindowManager, id: u32)
    requires
        old(wm).wf(),
    ensures
        final(wm).wf(),
        (forall|p: int| !#[trigger] pending_at(*old(wm), p, id)) ==> *final(wm) == *old(wm),
        forall|p: int| #[trigger] pending_at(*old(wm), p, id)
            && (forall|q: int| 0 <= q < p ==> (#[trigger] old(wm).pending_windows@[q]).id != id) ==>
            if old(wm).pending_ready@[p] { *final(wm) == *old(wm) } else { pending_mapped(*old(wm), *final(wm), p) },
{
    match find_pending(wm, id) {
        Some(p) => {
            proof { assert(pending_at(*old(wm), p as int, id)); }
            if !wm.pending_ready[p] {
                map_pending(wm, p);
            }
        }
        None => {}
    }
}

/// The unmapped windows of `ws` whose flag in `ready` is (or is not) set,
/// in order.
pub open spec fn flagged_windows(ws: Seq<Window>, ready: Seq<bool>, want: bool) -> Seq<Window>
    decreases ws.len(),
{
    if ws.len() == 0 {
        Seq::empty()
    } else {
        flagged_windows(ws.drop_last(), ready, want) + if ready[ws.len() - 1] == want {
            seq![ws.last()]
        } else {
            Seq::empty()
        }
    }
}

/// The focus of a workspace after `added` windows were appended to it,
/// each focused in turn.
pub open spec fn focus_after_appends(f: Option<usize>, len: int, added: int) -> Option<usize> {
    if added > 0 { Some((len + added - 1) as usize) } else { f }
}

/// `b` is `a` after the windows waiting for an output were mapped (see `place_ready_pending`).
pub open spec fn ready_placed(a: WindowManager, b: WindowManager) -> bool {
    &&& (b.outputs@.len() == a.outputs@.len())
    &&& (b.focused_output_idx == a.focused_output_idx)
    &&& (b.overview_state == a.overview_state)
    &&& (forall|o: int| 0 <= o < b.outputs@.len() ==> (#[trigger] b.outputs@[o]).is_removed == a.outputs@[o].is_removed)
    &&& (match a.focused_output_idx {
        None => b == a,
        Some(o) => {
            let fw = a.outputs@[o as int].focused_workspace_idx as int;
            let pw = a.pending_windows@;
            let pr = a.pending_ready@;
            let placed = flagged_windows(pw, pr, true);
            &&& b.pending_windows@ == flagged_windows(pw, pr, false)
            &&& b.pending_ready@ == Seq::new(b.pending_windows@.len(), |q: int| false)
            &&& crate::ops::ws_replaced(
                WindowManager { pending_windows: b.pending_windows, pending_ready: b.pending_ready, ..a },
                b, o as int, fw, Workspace {
                    window_list: b.ws(o as int, fw).window_list,
                    focused_window_idx: focus_after_appends(a.ws(o as int, fw).focused_window_idx,
                        a.ws(o as int, fw).window_list@.len() as int, placed.len() as int),
                })
            &&& b.ws(o as int, fw).window_list@ == a.ws(o as int, fw).window_list@ + placed
        },
    })
    &&& (crate::apply::keeps_windows(a, b))
}

/// Map the windows that got their dimensions while no output was
/// focused, now that one is: they join the end of the focused workspace
/// in the order river announced them (the last one is focused) and leave
/// the unmapped list; the others keep waiting. With no focused output
/// nothing changes.
pub fn place_ready_pending(wm: &mut WindowManager)
    requires
        old(wm).wf(),
    ensures
        final(wm).wf(),
        ready_placed(*old(wm), *final(wm)),
{
    proof { crate::apply::lemma_same_places(*old(wm), *old(wm)); }
    let (o, w) = match wm.current_ws_idx() {
        Some(c) => c,
        None => return,
    };
    let ghost pw = wm.pending_windows@;
    let ghost pr = wm.pending_ready@;
    let ghost n0 = pw.len();
    let ghost ws0 = wm.ws(o as int, w as int);
    let ghost mut k: int = 0;
    let mut p: usize = 0;
    proof {
        assert(pw.take(0) =~= Seq::<Window>::empty());
        assert(pw.skip(0) =~= pw);
        assert(pr.skip(0) =~= pr);
        assert(Seq::new(0, |q: int| false) + pr.skip(0) =~= pr);
    }
    while p < wm.pending_windows.len()
        invariant
            wm.wf(),
            o < wm.outputs@.len(),
            w < NUM_WORKSPACES,
            old(wm).focused_output_idx == Some(o),
            w == old(wm).outputs@[o as int].focused_workspace_idx,
            pw == old(wm).pending_windows@,
            pr == old(wm).pending_ready@,
            n0 == pw.len(),
            pr.len() == n0,
            ws0 == old(wm).ws(o as int, w as int),
            0 <= k <= n0,
            p == flagged_windows(pw.take(k), pr, false).len(),
            wm.pending_windows@ == flagged_windows(pw.take(k), pr, false) + pw.skip(k),
            wm.pending_ready@ == Seq::new(p as nat, |q: int| false) + pr.skip(k),
            wm.outputs@.len() == old(wm).outputs@.len(),
            forall|q: int| 0 <= q < wm.outputs@.len() && q != o ==> wm.outputs@[q] == old(wm).outputs@[q],
            wm.outputs@[o as int].id == old(wm).outputs@[o as int].id,
            wm.outputs@[o as int].name == old(wm).outputs@[o as int].name,
            wm.outputs@[o as int].rectangle == old(wm).outputs@[o as int].rectangle,
            wm.outputs@[o as int].non_exclusive == old(wm).outputs@[o as int].non_exclusive,
            wm.outputs@[o as int].has_layer_shell == old(wm).outputs@[o as int].has_layer_shell,
            wm.outputs@[o as int].is_removed == old(wm).outputs@[o as int].is_removed,
            wm.outputs@[o as int].focused_workspace_idx == old(wm).outputs@[o as int].focused_workspace_idx,
            forall|v: int| 0 <= v < NUM_WORKSPACES && v != w ==> #[trigger] wm.ws(o as int, v) == old(wm).ws(o as int, v),
            wm.ws(o as int, w as int).window_list@ == ws0.window_list@ + flagged_windows(pw.take(k), pr, true),
            wm.ws(o as int, w as int).focused_window_idx == focus_after_appends(ws0.focused_window_idx,
                ws0.window_list@.len() as int, flagged_windows(pw.take(k), pr, true).len() as int),
            *wm == (WindowManager { outputs: wm.outputs, pending_windows: wm.pending_windows, pending_ready: wm.pending_ready, ..*old(wm) }),
        decreases wm.pending_windows@.len() - p,
    {
        proof {
            assert(wm.pending_windows@[p as int] == pw[k]);
            assert(wm.pending_ready@[p as int] == pr[k]);
            assert(pw.take(k + 1).drop_last() =~= pw.take(k));
            assert(pw.take(k + 1).last() == pw[k]);
        }
        if wm.pending_ready[p] {
            let ghost before = *wm;
            let win = wm.pending_windows.remove(p);
            let _r = wm.pending_ready.remove(p);
            append_window(wm, o, w, win);
            proof {
                assert(wm.pending_windows@ =~= flagged_windows(pw.take(k + 1), pr, false) + pw.skip(k + 1));
                assert(wm.pending_ready@ =~= Seq::new(p as nat, |q: int| false) + pr.skip(k + 1));
                assert(wm.ws(o as int, w as int).window_list@ =~= ws0.window_list@ + flagged_windows(pw.take(k + 1), pr, true));
                assert forall|v: int| 0 <= v < NUM_WORKSPACES && v != w implies #[trigger] wm.ws(o as int, v) == old(wm).ws(o as int, v) by {
                    assert(wm.ws(o as int, v) == before.ws(o as int, v));
                }
                assert forall|q: int| 0 <= q < wm.outputs@.len() && q != o implies wm.outputs@[q] == old(wm).outputs@[q] by {
                    assert(wm.outputs@[q] == before.outputs@[q]);
                }
                k = k + 1;
            }
        } else {
            proof {
                assert(wm.pending_windows@ =~= flagged_windows(pw.take(k + 1), pr, false) + pw.skip(k + 1));
                assert(wm.pending_ready@ =~= Seq::new((p + 1) as nat, |q: int| false) + pr.skip(k + 1));
                assert(flagged_windows(pw.take(k + 1), pr, true) =~= flagged_windows(pw.take(k), pr, true));
                k = k + 1;
            }
            p = p + 1;
        }
    }
    proof {
        assert(k == n0);
        assert(pw.take(k) =~= pw);
        assert(wm.pending_ready@ =~= Seq::new(wm.pending_windows@.len(), |q: int| false));
        let x = WindowManager { pending_windows: wm.pending_windows, pending_ready: wm.pending_ready, ..*old(wm) };
        assert forall|v: int| 0 <= v < NUM_WORKSPACES && v != w implies #[trigger] wm.ws(o as int, v) == x.ws(o as int, v) by {
            assert(x.ws(o as int, v) == old(wm).ws(o as int, v));
        }
        crate::apply::lemma_appended_keeps(*old(wm), *wm, o as int, w as int, flagged_windows(pw, pr, true));
    }
}

/// `m` is `a` with window `i` of workspace `(o, w)` taken out (focus as
/// `ops::focus_after_remove` gives it); nothing else differs.
pub open spec fn window_removed(a: WindowManager, m: WindowManager, o: int, w: int, i: int) -> bool {
    &&& crate::ops::ws_replaced(a, m, o, w, Workspace {
        window_list: m.ws(o, w).window_list,
        focused_window_idx: crate::ops::focus_after_remove(a.ws(o, w).focused_window_idx, i, a.ws(o, w).window_list@.len() - 1),
    })
    &&& m.ws(o, w).window_list@ == a.ws(o, w).window_list@.remove(i)
}

/// A window closed: an unmapped one is forgotten; a mapped one leaves its
/// workspace (focus follows `ops::focus_after_remove`) and the overview;
/// a layout pass follows. Returns where the mapped window was.
pub fn window_closed(wm: &mut WindowManager, id: u32) -> (loc: Option<(usize, usize, usize)>)
    requires
        old(wm).wf(),
    ensures
        final(wm).wf(),
        final(wm).outputs@.len() == old(wm).outputs@.len(),
        forall|o: int| 0 <= o < final(wm).outputs@.len() ==> (#[trigger] final(wm).outputs@[o]).is_removed == old(wm).outputs@[o].is_removed,
        loc matches Some((o, w, i)) ==> {
            &&& o < old(wm).outputs@.len() && w < NUM_WORKSPACES && i < old(wm).ws(o as int, w as int).window_list@.len()
            &&& old(wm).ws(o as int, w as int).window_list@[i as int].id == id
            &&& final(wm).ws(o as int, w as int).window_list@ == old(wm).ws(o as int, w as int).window_list@.remove(i as int)
            &&& final(wm).ws(o as int, w as int).focused_window_idx == crate::ops::focus_after_remove(
                old(wm).ws(o as int, w as int).focused_window_idx, i as int, old(wm).ws(o as int, w as int).window_list@.len() - 1)
            &&& final(wm).status == Status::Layout
            &&& forall|q: int, v: int| 0 <= q < old(wm).outputs@.len() && 0 <= v < NUM_WORKSPACES && (q != o || v != w)
                ==> #[trigger] final(wm).ws(q, v) == old(wm).ws(q, v)
            &&& forall|p: int| !#[trigger] pending_at(*old(wm), p, id)
            &&& final(wm).pending_windows == old(wm).pending_windows
            &&& exists|m: WindowManager| #[trigger] window_removed(*old(wm), m, o as int, w as int, i as int)
                && crate::overview::prune_effect(m, WindowManager { status: old(wm).status, ..*final(wm) })
        },
        loc is None <==> ((exists|p: int| #[trigger] pending_at(*old(wm), p, id))
            || forall|o: int, w: int, i: int| !#[trigger] mapped_at(*old(wm), o, w, i, id)),
        loc is None ==> if exists|p: int| #[trigger] pending_at(*old(wm), p, id) {
            exists|p: int| #[trigger] pending_at(*old(wm), p, id)
                && final(wm).pending_windows@ == old(wm).pending_windows@.remove(p)
                && final(wm).pending_ready@ == old(wm).pending_ready@.remove(p)
                && *final(wm) == (WindowManager { pending_windows: final(wm).pending_windows, pending_ready: final(wm).pending_ready, ..*old(wm) })
        } else {
            *final(wm) == *old(wm)
        },
{
    match find_pending(wm, id) {
        Some(p) => {
            let _w = wm.pending_windows.remove(p);
            let _r = wm.pending_ready.remove(p);
            proof { assert(pending_at(*old(wm), p as int, id)); }
            return None;
        }
        None => {}
    }
    proof { assert(forall|p: int| !#[trigger] pending_at(*old(wm), p, id)); }
    match wm.locate_window(id) {
        Some((o, w, i)) => {
            let ghost before = *wm;
            let _win = remove_window(wm, o, w, i);
            let ghost mid = *wm;
            crate::overview::prune(wm);
            let ghost pruned = *wm;
            wm.status = Status::Layout;
            proof {
                assert(mapped_at(*old(wm), o as int, w as int, i as int, id));
                assert(window_removed(*old(wm), mid, o as int, w as int, i as int));
                assert(pruned == (WindowManager { status: old(wm).status, ..*wm }));
                assert(wm.outputs == pruned.outputs);
                assert(pruned.ws(o as int, w as int) == mid.ws(o as int, w as int));
                assert(wm.ws(o as int, w as int) == pruned.ws(o as int, w as int));
                assert forall|q: int, v: int| 0 <= q < old(wm).outputs@.len() && 0 <= v < NUM_WORKSPACES && (q != o || v != w)
                    implies #[trigger] wm.ws(q, v) == old(wm).ws(q, v) by {
                    assert(pruned.ws(q, v) == mid.ws(q, v));
                    if q != o {
                        assert(mid.outputs@[q] == before.outputs@[q]);
                    } else {
                        assert(mid.ws(o as int, v) == before.ws(o as int, v));
                    }
                }
                assert(forall|p: int| !#[trigger] pending_at(*old(wm), p, id));
            }
            Some((o, w, i))
        }
        None => {
            proof {
                assert forall|o: int, w: int, i: int| !#[trigger] mapped_at(*old(wm), o, w, i, id) by {
                    if 0 <= o < old(wm).outputs@.len() && 0 <= w < NUM_WORKSPACES && 0 <= i < old(wm).ws(o, w).window_list@.len() {
                        assert(old(wm).ws(o, w).window_list@[i].id != id);
                    }
                }
            }
            None
        }
    }
}

/// A window asked to be fullscreen (or to leave fullscreen); a layout
/// pass follows. Returns where the window is.
pub fn window_fullscreen_requested(wm: &mut WindowManager, id: u32, fullscreen: bool) -> (loc: Option<(usize, usize, usize)>)
    requires
        old(wm).wf(),
    ensures
        final(wm).wf(),
        loc matches Some((o, w, i)) ==> {
            &&& o < old(wm).outputs@.len() && w < NUM_WORKSPACES && i < old(wm).ws(o as int, w as int).window_list@.len()
            &&& old(wm).ws(o as int, w as int).window_list@[i as int].id == id
            &&& final(wm).ws(o as int, w as int).window_list@ == old(wm).ws(o as int, w as int).window_list@.update(i as int,
                crate::ops::window_after(old(wm).ws(o as int, w as int).window_list@[i as int], GeomOp::SetFullscreen(fullscreen)))
            &&& final(wm).ws(o as int, w as int).focused_window_idx == old(wm).ws(o as int, w as int).focused_window_idx
            &&& final(wm).status == Status::Layout
            &&& final(wm).outputs@.len() == old(wm).outputs@.len()
            &&& crate::ops::ws_replaced(WindowManager { status: Status::Layout, ..*old(wm) }, *final(wm), o as int, w as int, Workspace {
                window_list: final(wm).ws(o as int, w as int).window_list,
                focused_window_idx: old(wm).ws(o as int, w as int).focused_window_idx,
            })
        },
        loc is None ==> *final(wm) == *old(wm),
        loc is None <==> forall|o: int, w: int, i: int| !#[trigger] mapped_at(*old(wm), o, w, i, id),
{
    match wm.locate_window(id) {
        Some((o, w, i)) => {
            proof { assert(mapped_at(*old(wm), o as int, w as int, i as int, id)); }
            change_window(wm, o, w, i, GeomOp::SetFullscreen(fullscreen));
            let ghost mid = *wm;
            wm.status = Status::Layout;
            proof {
                assert(wm.outputs == mid.outputs);
                assert(wm.ws(o as int, w as int) == mid.ws(o as int, w as int));
                let x = WindowManager { status: Status::Layout, ..*old(wm) };
                assert forall|v: int| 0 <= v < NUM_WORKSPACES && v != w implies #[trigger] wm.ws(o as int, v) == x.ws(o as int, v) by {
                    assert(mid.ws(o as int, v) == old(wm).ws(o as int, v));
                }
                assert(crate::wm::others_equal(x, *wm));
            }
            Some((o, w, i))
        }
        None => None,
    }
}

/// The session was locked: the focused window is remembered and focus is
/// left alone until the unlock; a layout pass follows.
pub fn session_locked(wm: &mut WindowManager)
    requires
        old(wm).wf(),
    ensures
        *final(wm) == (WindowManager {
            session_locked: true,
            lock_focus: old(wm).spec_focused_window_id(),
            status: Status::Layout,
            ..*old(wm)
        }),
{
    wm.lock_focus = wm.focused_window_id();
    wm.session_locked = true;
    wm.status = Status::Layout;
}

/// The session was unlocked: focus is sent again at the next manage
/// sequence (even to the window it was on).
pub fn session_unlocked(wm: &mut WindowManager)
    ensures
        *final(wm) == (WindowManager {
            session_locked: false,
            lock_focus: None,
            needs_refocus: true,
            last_focused_window: None,
            status: Status::Layout,
            ..*old(wm)
        }),
{
    wm.session_locked = false;
    wm.lock_focus = None;
    wm.needs_refocus = true;
    wm.last_focused_window = None;
    wm.status = Status::Layout;
}

/// A layer-shell surface took or gave up keyboard focus. When exclusive
/// focus ends, focus is sent again at the next manage sequence.
pub fn layer_shell_focus_changed(wm: &mut WindowManager, f: LayerShellFocus)
    ensures
        old(wm).layer_shell_focus == LayerShellFocus::Exclusive && f != LayerShellFocus::Exclusive ==>
            *final(wm) == (WindowManager { layer_shell_focus: f, needs_refocus: true, last_focused_window: None, ..*old(wm) }),
        !(old(wm).layer_shell_focus == LayerShellFocus::Exclusive && f != LayerShellFocus::Exclusive) ==>
            *final(wm) == (WindowManager { layer_shell_focus: f, ..*old(wm) }),
{
    if wm.layer_shell_focus == LayerShellFocus::Exclusive && f != LayerShellFocus::Exclusive {
        wm.needs_refocus = true;
        wm.last_focused_window = None;
    }
    wm.layer_shell_focus = f;
}

/// Whether entering a window can move focus: focus-follows-pointer is on
/// and no lock, overview or drag is going on.
pub open spec fn hover_focuses(wm: WindowManager) -> bool {
    &&& wm.config.focus_follows_pointer
    &&& !wm.session_locked
    &&& wm.overview_state is None
    &&& !(wm.status is PointerAction)
}

/// The pointer entered window `id`: with focus-follows-pointer on (and no
/// lock, overview or drag) a window on a shown workspace gets focus, with
/// its output; a layout pass follows. Returns where the window was found
/// (`None`: not looked up, or not mapped); nothing changes otherwise.
pub fn pointer_entered(wm: &mut WindowManager, id: u32) -> (r: Option<(usize, usize, usize)>)
    requires
        old(wm).wf(),
    ensures
        final(wm).wf(),
        r is None ==> *final(wm) == *old(wm),
        r is None && hover_focuses(*old(wm)) ==> forall|o: int, w: int, i: int| !#[trigger] mapped_at(*old(wm), o, w, i, id),
        r matches Some((o, w, i)) ==> {
            &&& hover_focuses(*old(wm))
            &&& mapped_at(*old(wm), o as int, w as int, i as int, id)
            &&& if w == old(wm).outputs@[o as int].focused_workspace_idx {
                crate::ops::ws_replaced(
                    WindowManager { focused_output_idx: Some(o), status: Status::Layout, ..*old(wm) },
                    *final(wm), o as int, w as int, Workspace {
                        window_list: old(wm).ws(o as int, w as int).window_list,
                        focused_window_idx: Some(i),
                    })
            } else {
                *final(wm) == *old(wm)
            }
        },
{
    if !wm.config.focus_follows_pointer || wm.session_locked || wm.overview_state.is_some() {
        return None;
    }
    if let Status::PointerAction(_) = wm.status {
        return None;
    }
    match wm.locate_window(id) {
        Some((o, w, i)) => {
            proof { assert(wm.outputs@[o as int].wf()); }
            if wm.outputs[o].focused_workspace_idx == w {
                set_window_focus(wm, o, w, Some(i));
                let ghost mid = *wm;
                wm.focused_output_idx = Some(o);
                wm.status = Status::Layout;
                proof {
                    let x = WindowManager { focused_output_idx: Some(o), status: Status::Layout, ..*old(wm) };
                    assert(wm.outputs == mid.outputs);
                    assert forall|v: int| 0 <= v < NUM_WORKSPACES && v != w implies #[trigger] wm.ws(o as int, v) == x.ws(o as int, v) by {
                        assert(mid.ws(o as int, v) == old(wm).ws(o as int, v));
                    }
                    assert(crate::wm::others_equal(x, *wm));
                }
            }
            Some((o, w, i))
        }
        None => None,
    }
}

/// The focused window's place: output, workspace and index.
pub open spec fn focused_at(wm: WindowManager) -> Option<(int, int, int)> {
    match wm.focused_output_idx {
        Some(o) => {
            let w = wm.outputs@[o as int].focused_workspace_idx as int;
            match wm.ws(o as int, w).focused_window_idx {
                Some(i) => Some((o as int, w, i as int)),
                None => None,
            }
        },
        None => None,
    }
}

/// The cursor shown while a drag runs.
pub open spec fn drag_shape(a: PointerAction) -> CursorShape {
    match a {
        PointerAction::MoveWindow => CursorShape::Move,
        PointerAction::ResizeWindow => CursorShape::Resize,
    }
}

/// Where a window rests when a drag picks it up.
pub open spec fn drag_origin_of(g: crate::wm::WindowGeom) -> Rect {
    if g.is_floating { g.floating } else { g.current }
}

/// Whether pressing pointer binding `index` starts a drag.
pub open spec fn drag_starts(wm: WindowManager, index: usize) -> bool {
    &&& index < wm.pointer_bindings@.len()
    &&& !wm.session_locked
    &&& wm.overview_state is None
    &&& !(wm.status is PointerAction)
    &&& focused_at(wm) is Some
}

/// Pointer binding `index` was pressed: on the focused window (with no
/// lock, overview or drag going on) a drag starts: the window floats,
/// remembering where it rests as the drag's origin, the cursor shows the
/// drag, and the status holds the binding's action. Otherwise nothing
/// changes.
pub fn pointer_binding_pressed(wm: &mut WindowManager, index: usize)
    requires
        old(wm).wf(),
    ensures
        final(wm).wf(),
        !drag_starts(*old(wm), index) ==> *final(wm) == *old(wm),
        drag_starts(*old(wm), index) ==> ({
            let (o, w, i) = focused_at(*old(wm)).unwrap();
            let win = old(wm).ws(o, w).window_list@[i];
            let action = old(wm).pointer_bindings@[index as int].action;
            &&& final(wm).status == Status::PointerAction(action)
            &&& !final(wm).pointer_op_started
            &&& final(wm).requests@ == if old(wm).has_cursor_shape {
                old(wm).requests@.push(Request::SetCursorShape(drag_shape(action)))
            } else {
                old(wm).requests@
            }
            &&& ws_replaced(*old(wm),
                WindowManager { status: old(wm).status, pointer_op_started: old(wm).pointer_op_started, requests: old(wm).requests, ..*final(wm) },
                o, w, Workspace {
                    window_list: final(wm).ws(o, w).window_list,
                    focused_window_idx: old(wm).ws(o, w).focused_window_idx,
                })
            &&& final(wm).ws(o, w).window_list@
                == old(wm).ws(o, w).window_list@.update(i, window_after(win, GeomOp::StartDrag(drag_origin_of(win.geom))))
        }),
{
    if index >= wm.pointer_bindings.len() || wm.session_locked || wm.overview_state.is_some() {
        return;
    }
    if let Status::PointerAction(_) = wm.status {
        return;
    }
    let action = wm.pointer_bindings[index].action;
    let (o, w, i) = match wm.focused_window_location() {
        Some(loc) => loc,
        None => return,
    };
    proof { assert(wm.outputs@[o as int].wf()); }
    let g = &wm.outputs[o].workspace_list[w].window_list[i].geom;
    let origin = if g.is_floating { g.floating } else { g.current };
    change_window(wm, o, w, i, GeomOp::StartDrag(origin));
    let shape = match action {
        PointerAction::MoveWindow => CursorShape::Move,
        PointerAction::ResizeWindow => CursorShape::Resize,
    };
    if wm.has_cursor_shape {
        wm.send(Request::SetCursorShape(shape));
    }
    wm.status = Status::PointerAction(action);
    wm.pointer_op_started = false;
}

/// The floating rectangle during a drag: the origin moved by `(dx, dy)`,
/// or grown by it, kept inside the output.
pub open spec fn dragged(action: PointerAction, origin: Rect, area: Rect, min: int, dx: i32, dy: i32) -> Rect {
    match action {
        PointerAction::MoveWindow => crate::geometry::spec_fit_into(
            Rect { x: crate::geometry::spec_sat(origin.x + dx) as i32, y: crate::geometry::spec_sat(origin.y + dy) as i32, ..origin },
            area, min),
        PointerAction::ResizeWindow => crate::geometry::spec_fit_into(
            Rect { width: crate::geometry::spec_sat(origin.width + dx) as i32, height: crate::geometry::spec_sat(origin.height + dy) as i32, ..origin },
            area, min),
    }
}

/// The pointer moved `(dx, dy)` since the drag began: the dragged (focused)
/// window's floating rectangle follows (see `dragged`), inside its output;
/// a commit follows at the next manage sequence. With no drag, no focused
/// window or no recorded origin nothing changes.
pub fn op_delta(wm: &mut WindowManager, dx: i32, dy: i32)
    requires
        old(wm).wf(),
    ensures
        final(wm).wf(),
        match (old(wm).status, focused_at(*old(wm))) {
            (Status::PointerAction(a), Some((o, w, i))) => match old(wm).ws(o, w).window_list@[i].geom.drag_origin {
                Some(origin) => {
                    let area = crate::geometry::spec_sanitize(old(wm).outputs@[o].rectangle);
                    let r = dragged(a, origin, area, min_floating_size(area, old(wm).config.border.width), dx, dy);
                    &&& ws_replaced(*old(wm), *final(wm), o, w, Workspace {
                        window_list: final(wm).ws(o, w).window_list,
                        focused_window_idx: old(wm).ws(o, w).focused_window_idx,
                    })
                    &&& final(wm).ws(o, w).window_list@
                        == old(wm).ws(o, w).window_list@.update(i, window_after(old(wm).ws(o, w).window_list@[i], GeomOp::SetFloating(r)))
                },
                None => *final(wm) == *old(wm),
            },
            _ => *final(wm) == *old(wm),
        },
{
    let action = match wm.status {
        Status::PointerAction(a) => a,
        _ => return,
    };
    let (o, w, i) = match wm.focused_window_location() {
        Some(loc) => loc,
        None => return,
    };
    proof { assert(wm.outputs@[o as int].wf()); }
    let origin = match wm.outputs[o].workspace_list[w].window_list[i].geom.drag_origin {
        Some(r) => r,
        None => return,
    };
    let area = sanitize(wm.outputs[o].rectangle);
    let min = floating_min_size(area, wm.config.border.width);
    let r = match action {
        PointerAction::MoveWindow => move_floating(origin, area, dx, dy, min),
        PointerAction::ResizeWindow => resize_floating(origin, area, dx, dy, min),
    };
    change_window(wm, o, w, i, GeomOp::SetFloating(r));
}

/// The drag ended: the window forgets its origin, the cursor is back to
/// normal, and the state machine is idle again.
pub fn op_release(wm: &mut WindowManager)
    requires
        old(wm).wf(),
    ensures
        final(wm).wf(),
        old(wm).status is PointerAction ==> ({
            let rest = WindowManager { status: old(wm).status, requests: old(wm).requests, ..*final(wm) };
            &&& final(wm).status == Status::Idle
            &&& final(wm).requests@ == if old(wm).has_cursor_shape {
                old(wm).requests@.push(Request::SetCursorShape(CursorShape::Default))
            } else {
                old(wm).requests@
            }
            &&& match focused_at(*old(wm)) {
                Some((o, w, i)) => {
                    &&& ws_replaced(*old(wm), rest, o, w, Workspace {
                        window_list: final(wm).ws(o, w).window_list,
                        focused_window_idx: old(wm).ws(o, w).focused_window_idx,
                    })
                    &&& final(wm).ws(o, w).window_list@
                        == old(wm).ws(o, w).window_list@.update(i, window_after(old(wm).ws(o, w).window_list@[i], GeomOp::EndDrag))
                },
                None => rest == *old(wm),
            }
        }),
        !(old(wm).status is PointerAction) ==> *final(wm) == *old(wm),
{
    if let Status::PointerAction(_) = wm.status {
        match wm.focused_window_location() {
            Some((o, w, i)) => change_window(wm, o, w, i, GeomOp::EndDrag),
            None => {}
        }
        if wm.has_cursor_shape {
            wm.send(Request::SetCursorShape(CursorShape::Default));
        }
        wm.status = Status::Idle;
    }
}

/// The seat's pointer got a cursor shape device: drags show their shape.
pub fn cursor_shape_ready(wm: &mut WindowManager)
    ensures
        *final(wm) == (WindowManager { has_cursor_shape: true, ..*old(wm) }),
{
    wm.has_cursor_shape = true;
}

} // verus!
