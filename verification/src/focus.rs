//! Border colours, keyboard focus and raise order.

use vstd::prelude::*;
use crate::config::Config;
use crate::wm::{others_equal, LayerShellFocus, Request, WindowGeom, WindowManager, Workspace, NUM_WORKSPACES};

verus! {

/// The border width a window gets: none while fullscreen (the window fills
/// its output and a border would spill onto the neighbouring one).
pub open spec fn border_width_for(geom: WindowGeom, config: Config) -> u32 {
    if geom.is_fullscreen { 0 } else { config.border.width }
}

/// The border colour for a window's focus state.
pub open spec fn border_color(is_focused: bool, config: Config) -> crate::config::RiverColor {
    if is_focused { config.border.focused_color } else { config.border.unfocused_color }
}

/// Law: a focused window's border takes the configured focused colour,
/// any other window's the unfocused colour.
pub proof fn law_border_color_follows_focus(is_focused: bool, config: Config)
    ensures
        is_focused ==> border_color(is_focused, config) == config.border.focused_color,
        !is_focused ==> border_color(is_focused, config) == config.border.unfocused_color,
{
}

/// Set a window's border for its focus state, unless exactly that was sent
/// already: returns the request to send and records it as sent.
pub fn apply_window_border(window: u32, geom: &mut WindowGeom, is_focused: bool, config: &Config) -> (r: Option<Request>)
    ensures
        ({
            let width = border_width_for(*old(geom), *config);
            let need = old(geom).sent_border_focused != Some(is_focused) || old(geom).sent_border_width != Some(width);
            &&& need ==> r == Some(Request::SetBorders { window, width, focused: is_focused, color: border_color(is_focused, *config) })
            &&& r matches Some(Request::SetBorders { focused: true, color, .. }) ==> color == config.border.focused_color
            &&& r matches Some(Request::SetBorders { focused: false, color, .. }) ==> color == config.border.unfocused_color
            &&& !need ==> r is None
            &&& final(geom).sent_border_focused == Some(is_focused)
            &&& final(geom).sent_border_width == Some(width)
        }),
        final(geom).is_fullscreen == old(geom).is_fullscreen,
        final(geom).is_floating == old(geom).is_floating,
        final(geom).is_closing == old(geom).is_closing,
        final(geom).proportion == old(geom).proportion,
        final(geom).floating == old(geom).floating,
        final(geom).current == old(geom).current,
        final(geom).finish == old(geom).finish,
        final(geom).sent_visible == old(geom).sent_visible,
        final(geom).sent_current == old(geom).sent_current,
        final(geom).sent_clip == old(geom).sent_clip,
        final(geom).sent_fullscreen == old(geom).sent_fullscreen,
        final(geom).former_output_name == old(geom).former_output_name,
        final(geom).drag_origin == old(geom).drag_origin,
{
    let width = if geom.is_fullscreen { 0 } else { config.border.width };
    let need = match (geom.sent_border_focused, geom.sent_border_width) {
        (Some(f), Some(w)) => f != is_focused || w != width,
        _ => true,
    };
    if !need {
        return None;
    }
    geom.sent_border_focused = Some(is_focused);
    geom.sent_border_width = Some(width);
    let color = if is_focused { config.border.focused_color } else { config.border.unfocused_color };
    Some(Request::SetBorders { window, width, focused: is_focused, color })
}

/// Law: a second border update for the same focus state sends nothing.
pub proof fn law_border_update_is_idempotent(geom: WindowGeom, is_focused: bool, config: Config)
    requires
        geom.sent_border_focused == Some(is_focused),
        geom.sent_border_width == Some(border_width_for(geom, config)),
    ensures
        !(geom.sent_border_focused != Some(is_focused) || geom.sent_border_width != Some(border_width_for(geom, config))),
{
}

/// None of the requests changes keyboard focus.
pub open spec fn no_focus_requests(rs: Seq<Request>) -> bool {
    forall|k: int| 0 <= k < rs.len() ==> !(#[trigger] rs[k] is FocusWindow) && !(rs[k] is ClearFocus)
}

/// Whether window `i` of workspace `w` on output `o` is the focused one:
/// while the overview is open, the highlighted entry; otherwise the focused
/// window of the focused workspace of the focused output.
pub open spec fn is_focused_window(wm: WindowManager, foi: int, o: int, w: int, i: int) -> bool {
    match wm.overview_state {
        Some(ov) => ov.highlighted < ov.entries@.len() && wm.ws(o, w).window_list@[i].id == ov.entries@[ov.highlighted as int],
        None => o == foi && w == wm.outputs@[o].focused_workspace_idx && wm.ws(o, w).focused_window_idx == Some(i as usize),
    }
}

/// Some window with this id is mapped.
pub open spec fn window_exists(wm: WindowManager, id: u32) -> bool {
    exists|o: int, w: int, i: int|
        0 <= o < wm.outputs@.len() && 0 <= w < NUM_WORKSPACES && 0 <= i < wm.ws(o, w).window_list@.len()
            && #[trigger] wm.ws(o, w).window_list@[i].id == id
}

/// The window that should hold keyboard focus.
pub open spec fn desired_focus(wm: WindowManager, foi: int) -> Option<u32> {
    match wm.overview_state {
        Some(ov) => if ov.highlighted < ov.entries@.len() && window_exists(wm, ov.entries@[ov.highlighted as int]) {
            Some(ov.entries@[ov.highlighted as int])
        } else {
            None
        },
        None => {
            let ws = wm.ws(foi, wm.outputs@[foi].focused_workspace_idx as int);
            match ws.focused_window_idx {
                Some(i) => Some(ws.window_list@[i as int].id),
                None => None,
            }
        },
    }
}

/// What `apply_focus_and_borders` leaves unchanged besides the windows'
/// border caches.
pub open spec fn same_layout(a: WindowManager, b: WindowManager) -> bool {
    &&& b.outputs@.len() == a.outputs@.len()
    &&& forall|o: int| 0 <= o < a.outputs@.len() ==> {
        &&& (#[trigger] b.outputs@[o]).id == a.outputs@[o].id
        &&& b.outputs@[o].is_removed == a.outputs@[o].is_removed
        &&& b.outputs@[o].has_layer_shell == a.outputs@[o].has_layer_shell
        &&& b.outputs@[o].focused_workspace_idx == a.outputs@[o].focused_workspace_idx
        &&& b.outputs@[o].rectangle == a.outputs@[o].rectangle
        &&& b.outputs@[o].workspace_list@.len() == a.outputs@[o].workspace_list@.len()
        &&& forall|w: int| 0 <= w < NUM_WORKSPACES ==> {
            &&& (#[trigger] b.ws(o, w)).focused_window_idx == a.ws(o, w).focused_window_idx
            &&& b.ws(o, w).ids() == a.ws(o, w).ids()
            &&& b.ws(o, w).window_list@.len() == a.ws(o, w).window_list@.len()
        }
    }
    &&& b.focused_output_idx == a.focused_output_idx
    &&& b.overview_state == a.overview_state
    &&& b.detached_outputs == a.detached_outputs
    &&& b.status == a.status
    &&& b.pending_windows == a.pending_windows
    &&& b.pending_ready == a.pending_ready
    &&& b.session_locked == a.session_locked
    &&& b.layer_shell_focus == a.layer_shell_focus
    &&& b.config == a.config
}

/// The border request for one window in focus state `focused`: none when
/// exactly that border was sent already.
pub open spec fn border_request(win: crate::wm::Window, focused: bool, config: Config) -> Seq<Request> {
    let width = border_width_for(win.geom, config);
    if win.geom.sent_border_focused != Some(focused) || win.geom.sent_border_width != Some(width) {
        seq![Request::SetBorders { window: win.id, width, focused, color: border_color(focused, config) }]
    } else {
        Seq::empty()
    }
}

/// The requests of the border pass over a row of windows with focus
/// flags `flags`: each window's border request, then a `PlaceTop` for a
/// focused one.
pub open spec fn row_border_requests(list: Seq<crate::wm::Window>, flags: Seq<bool>, config: Config) -> Seq<Request>
    decreases list.len(),
{
    if list.len() == 0 {
        Seq::empty()
    } else {
        let k = list.len() - 1;
        row_border_requests(list.drop_last(), flags, config) + border_request(list.last(), flags[k], config)
            + if flags[k] { seq![Request::PlaceTop(list.last().id)] } else { Seq::empty() }
    }
}

/// Apply borders to one workspace: each window gets the border of its focus
/// state (`is_focused_at`); the focused one is raised. The requests are
/// appended to `out`.
fn borders_for_workspace(
    ws: &mut Workspace,
    config: &Config,
    is_focused_at: &Vec<bool>,
    out: &mut Vec<Request>,
)
    requires
        old(ws).wf(),
        is_focused_at@.len() == old(ws).window_list@.len(),
    ensures
        final(ws).wf(),
        final(ws).focused_window_idx == old(ws).focused_window_idx,
        final(ws).ids() == old(ws).ids(),
        final(ws).window_list@.len() == old(ws).window_list@.len(),
        forall|i: int| 0 <= i < final(ws).window_list@.len() ==> {
            &&& (#[trigger] final(ws).window_list@[i]).geom.sent_border_focused == Some(is_focused_at@[i])
            &&& final(ws).window_list@[i].geom.sent_border_width == Some(border_width_for(old(ws).window_list@[i].geom, *config))
            &&& final(ws).window_list@[i].geom.is_fullscreen == old(ws).window_list@[i].geom.is_fullscreen
            &&& final(ws).window_list@[i].geom.is_floating == old(ws).window_list@[i].geom.is_floating
        },
        final(out)@.subrange(0, old(out)@.len() as int) == old(out)@,
        final(out)@.len() >= old(out)@.len(),
        no_focus_requests(final(out)@.subrange(old(out)@.len() as int, final(out)@.len() as int)),
        final(out)@ == old(out)@ + row_border_requests(old(ws).window_list@, is_focused_at@, *config),
{
    let ghost ws0 = *ws;
    let ghost out0 = out@;
    let n = ws.window_list.len();
    let mut i: usize = 0;
    proof { assert(out0 + row_border_requests(ws0.window_list@.take(0), is_focused_at@, *config) =~= out0); }
    while i < n
        invariant
            n == ws0.window_list@.len(),
            ws.window_list@.len() == n,
            ws.focused_window_idx == ws0.focused_window_idx,
            ws.ids() == ws0.ids(),
            i <= n,
            is_focused_at@.len() == n,
            forall|k: int| 0 <= k < i ==> {
                &&& (#[trigger] ws.window_list@[k]).geom.sent_border_focused == Some(is_focused_at@[k])
                &&& ws.window_list@[k].geom.sent_border_width == Some(border_width_for(ws0.window_list@[k].geom, *config))
                &&& ws.window_list@[k].geom.is_fullscreen == ws0.window_list@[k].geom.is_fullscreen
                &&& ws.window_list@[k].geom.is_floating == ws0.window_list@[k].geom.is_floating
            },
            forall|k: int| i <= k < n ==> #[trigger] ws.window_list@[k] == ws0.window_list@[k],
            out@.len() >= out0.len(),
            out@.subrange(0, out0.len() as int) == out0,
            no_focus_requests(out@.subrange(out0.len() as int, out@.len() as int)),
            out@ == out0 + row_border_requests(ws0.window_list@.take(i as int), is_focused_at@, *config),
        decreases n - i,
    {
        let focused = is_focused_at[i];
        let id = ws.window_list[i].id;
        let ghost before = ws.window_list@;
        let r = apply_window_border(id, &mut ws.window_list[i].geom, focused, config);
        proof {
            assert(ws.ids() =~= ws0.ids()) by {
                assert forall|k: int| 0 <= k < n implies ws.window_list@[k].id == before[k].id by {}
            }
        }
        let ghost mark = out@;
        if let Some(req) = r {
            out.push(req);
        }
        if focused {
            out.push(Request::PlaceTop(id));
        }
        proof {
            let l = ws0.window_list@;
            assert(l.take(i + 1).drop_last() =~= l.take(i as int));
            assert(l.take(i + 1).last() == l[i as int]);
            assert(before[i as int] == l[i as int]);
            assert(out@ =~= out0 + row_border_requests(l.take(i + 1), is_focused_at@, *config));
        }
        proof {
            let s0 = out0.len() as int;
            assert(out@.subrange(0, s0) =~= out0) by {
                assert forall|k: int| 0 <= k < s0 implies out@[k] == out0[k] by {
                    assert(mark.subrange(0, s0)[k] == mark[k]);
                }
            }
            assert forall|k: int| 0 <= k < out@.subrange(s0, out@.len() as int).len() implies
                !(#[trigger] out@.subrange(s0, out@.len() as int)[k] is FocusWindow)
                && !(out@.subrange(s0, out@.len() as int)[k] is ClearFocus) by {
                if s0 + k < mark.len() {
                    assert(out@[s0 + k] == mark[s0 + k]);
                    assert(mark.subrange(s0, mark.len() as int)[k] == mark[s0 + k]);
                }
            }
        }
        i = i + 1;
    }
    proof { assert(ws0.window_list@.take(n as int) =~= ws0.window_list@); }
}


/// What `apply_borders_at` keeps of the whole state while it updates one
/// workspace.
pub open spec fn only_borders_at(before: WindowManager, after: WindowManager, o: int, w: int) -> bool {
    &&& others_equal(before, after)
    &&& after.outputs@.len() == before.outputs@.len()
    &&& forall|p: int| 0 <= p < before.outputs@.len() && p != o ==> #[trigger] after.outputs@[p] == before.outputs@[p]
    &&& after.outputs@[o].id == before.outputs@[o].id
    &&& after.outputs@[o].is_removed == before.outputs@[o].is_removed
    &&& after.outputs@[o].has_layer_shell == before.outputs@[o].has_layer_shell
    &&& after.outputs@[o].focused_workspace_idx == before.outputs@[o].focused_workspace_idx
    &&& after.outputs@[o].rectangle == before.outputs@[o].rectangle
    &&& after.outputs@[o].workspace_list@.len() == before.outputs@[o].workspace_list@.len()
    &&& forall|v: int| 0 <= v < NUM_WORKSPACES && v != w ==> #[trigger] after.ws(o, v) == before.ws(o, v)
    &&& after.ws(o, w).focused_window_idx == before.ws(o, w).focused_window_idx
    &&& after.ws(o, w).ids() == before.ws(o, w).ids()
    &&& after.ws(o, w).window_list@.len() == before.ws(o, w).window_list@.len()
}

/// Requests were only appended, and none of the new ones changes focus.
pub open spec fn appended_without_focus(before: Seq<Request>, after: Seq<Request>) -> bool {
    &&& after.len() >= before.len()
    &&& after.subrange(0, before.len() as int) == before
    &&& no_focus_requests(after.subrange(before.len() as int, after.len() as int))
}

proof fn lemma_appended_trans(a: Seq<Request>, b: Seq<Request>, c: Seq<Request>)
    requires
        appended_without_focus(a, b),
        appended_without_focus(b, c),
    ensures
        appended_without_focus(a, c),
{
    assert(c.subrange(0, a.len() as int) =~= a) by {
        assert forall|k: int| 0 <= k < a.len() implies c[k] == a[k] by {
            assert(c.subrange(0, b.len() as int)[k] == c[k]);
            assert(b.subrange(0, a.len() as int)[k] == b[k]);
        }
    }
    assert forall|k: int| 0 <= k < c.subrange(a.len() as int, c.len() as int).len() implies
        !(#[trigger] c.subrange(a.len() as int, c.len() as int)[k] is FocusWindow)
        && !(c.subrange(a.len() as int, c.len() as int)[k] is ClearFocus) by {
        if a.len() + k < b.len() {
            assert(c[a.len() + k] == b[a.len() + k]) by {
                assert(c.subrange(0, b.len() as int)[a.len() + k] == c[a.len() + k]);
            }
            assert(b.subrange(a.len() as int, b.len() as int)[k] == b[a.len() + k]);
        } else {
            assert(c.subrange(b.len() as int, c.len() as int)[a.len() + k - b.len()] == c[a.len() + k]);
        }
    }
}

proof fn lemma_appended_refl(a: Seq<Request>)
    ensures
        appended_without_focus(a, a),
{
    assert(a.subrange(0, a.len() as int) =~= a);
    assert(a.subrange(a.len() as int, a.len() as int).len() == 0);
}

/// The focus flags of one workspace, per `is_focused_window`.
fn focus_flags(wm: &WindowManager, o: usize, w: usize, foi: usize, overview_open: bool, ov_highlighted: Option<u32>, wm0: Ghost<WindowManager>) -> (flags: Vec<bool>)
    requires
        wm.wf(),
        wm0@.wf(),
        same_layout(wm0@, *wm),
        o < wm.outputs@.len(),
        w < NUM_WORKSPACES,
        overview_open == wm0@.overview_state is Some,
        overview_open ==> ov_highlighted == desired_focus(wm0@, foi as int),
    ensures
        flags@.len() == wm.ws(o as int, w as int).window_list@.len(),
        forall|k: int| 0 <= k < flags@.len() ==> #[trigger] flags@[k] == is_focused_window(wm0@, foi as int, o as int, w as int, k),
{
    proof {
        assert(wm0@.outputs@[o as int].wf());
        assert(wm.outputs@[o as int].id == wm0@.outputs@[o as int].id);
        assert(wm.ws(o as int, w as int).ids() == wm0@.ws(o as int, w as int).ids());
        assert(wm.ws(o as int, w as int).focused_window_idx == wm0@.ws(o as int, w as int).focused_window_idx);
    }
    proof { assert(wm.outputs@[o as int].wf()); }
    let fws = wm.outputs[o].focused_workspace_idx;
    let n = wm.outputs[o].workspace_list[w].window_list.len();
    let mut flags: Vec<bool> = Vec::new();
    let mut i: usize = 0;
    while i < n
        invariant
            wm.wf(),
            o < wm.outputs@.len(),
            w < NUM_WORKSPACES,
            wm.outputs@[o as int].workspace_list@.len() == NUM_WORKSPACES,
            fws == wm.outputs@[o as int].focused_workspace_idx,
            fws == wm0@.outputs@[o as int].focused_workspace_idx,
            o < wm0@.outputs@.len(),
            n == wm.ws(o as int, w as int).window_list@.len(),
            n == wm0@.ws(o as int, w as int).window_list@.len(),
            wm.ws(o as int, w as int).ids() == wm0@.ws(o as int, w as int).ids(),
            wm.ws(o as int, w as int).focused_window_idx == wm0@.ws(o as int, w as int).focused_window_idx,
            i <= n,
            flags@.len() == i,
            overview_open == wm0@.overview_state is Some,
            overview_open ==> ov_highlighted == desired_focus(wm0@, foi as int),
            forall|k: int| 0 <= k < i ==> #[trigger] flags@[k] == is_focused_window(wm0@, foi as int, o as int, w as int, k),
        decreases n - i,
    {
        let id = wm.outputs[o].workspace_list[w].window_list[i].id;
        let f = if overview_open {
            match ov_highlighted {
                Some(h) => h == id,
                None => false,
            }
        } else {
            o == foi && w == fws && match wm.outputs[o].workspace_list[w].focused_window_idx {
                Some(x) => x == i,
                None => false,
            }
        };
        proof {
            assert(wm.ws(o as int, w as int).ids()[i as int] == id);
            assert(wm0@.ws(o as int, w as int).ids()[i as int] == wm0@.ws(o as int, w as int).window_list@[i as int].id);
            assert(wm0@.ws(o as int, w as int).window_list@[i as int].id == id);
            if overview_open {
                let ov = wm0@.overview_state->0;
                if ov.highlighted < ov.entries@.len() && id == ov.entries@[ov.highlighted as int] {
                    assert(window_exists(wm0@, ov.entries@[ov.highlighted as int]));
                }
            }
        }
        flags.push(f);
        i = i + 1;
    }
    flags
}

/// Borders for the windows of workspace `(o, w)`.
fn apply_borders_at(wm: &mut WindowManager, o: usize, w: usize, flags: &Vec<bool>)
    requires
        old(wm).wf(),
        o < old(wm).outputs@.len(),
        w < NUM_WORKSPACES,
        flags@.len() == old(wm).ws(o as int, w as int).window_list@.len(),
    ensures
        final(wm).wf(),
        only_borders_at(*old(wm), *final(wm), o as int, w as int),
        appended_without_focus(old(wm).requests@, final(wm).requests@),
        final(wm).requests@ == old(wm).requests@ + row_border_requests(old(wm).ws(o as int, w as int).window_list@, flags@, old(wm).config),
        forall|i: int| 0 <= i < final(wm).ws(o as int, w as int).window_list@.len() ==> {
            &&& (#[trigger] final(wm).ws(o as int, w as int).window_list@[i]).geom.sent_border_focused == Some(flags@[i])
            &&& final(wm).ws(o as int, w as int).window_list@[i].geom.sent_border_width
                == Some(border_width_for(old(wm).ws(o as int, w as int).window_list@[i].geom, old(wm).config))
        },
{
    let mut ws = wm.take_workspace(o, w);
    assert(forall|v: int| 0 <= v < NUM_WORKSPACES && v != w ==> (#[trigger] wm.ws(o as int, v)) == old(wm).ws(o as int, v));
    let mut out: Vec<Request> = Vec::new();
    borders_for_workspace(&mut ws, &wm.config, flags, &mut out);
    let ghost mid = *wm;
    assert(forall|v: int| 0 <= v < NUM_WORKSPACES && v != w ==> (#[trigger] mid.ws(o as int, v)) == old(wm).ws(o as int, v));
    wm.put_workspace(o, w, ws);
    assert(forall|v: int| 0 <= v < NUM_WORKSPACES && v != w ==> (#[trigger] wm.ws(o as int, v)) == mid.ws(o as int, v));
    let ghost after_put = *wm;
    let ghost b = wm.requests@;
    let ghost added = out@;
    wm.requests.append(&mut out);
    proof {
        assert(wm.outputs@[o as int].wf());
        assert(old(wm).outputs@[o as int].wf());
        assert(wm.outputs == after_put.outputs);
        assert(wm.requests@ == b + added);
        assert(wm.requests@.subrange(0, b.len() as int) =~= b);
        assert(added.subrange(0, 0) =~= Seq::<Request>::empty());
        assert(wm.requests@.subrange(b.len() as int, wm.requests@.len() as int) =~= added.subrange(0, added.len() as int));
        assert forall|v: int| 0 <= v < NUM_WORKSPACES && v != w implies (#[trigger] wm.ws(o as int, v)) == old(wm).ws(o as int, v) by {
            assert(wm.ws(o as int, v) == after_put.ws(o as int, v));
            assert(after_put.ws(o as int, v) == mid.ws(o as int, v));
            assert(mid.ws(o as int, v) == old(wm).ws(o as int, v));
        }
        assert forall|p: int| 0 <= p < old(wm).outputs@.len() && p != o implies #[trigger] wm.outputs@[p] == old(wm).outputs@[p] by {
            assert(wm.outputs@[p] == after_put.outputs@[p]);
            assert(mid.outputs@[p] == old(wm).outputs@[p]);
        }
    }
}

/// Every output up to `o` is done; the rest untouched (the invariant of
/// the border pass).
pub open spec fn borders_done(wm0: WindowManager, wm: WindowManager, foi: int, o: int) -> bool {
    &&& forall|p: int, w: int, i: int|
        0 <= p < o && !wm0.outputs@[p].is_removed && 0 <= w < NUM_WORKSPACES
            && 0 <= i < wm0.ws(p, w).window_list@.len() ==> {
            &&& (#[trigger] wm.ws(p, w).window_list@[i]).geom.sent_border_focused == Some(is_focused_window(wm0, foi, p, w, i))
            &&& wm.ws(p, w).window_list@[i].geom.sent_border_width == Some(border_width_for(wm0.ws(p, w).window_list@[i].geom, wm0.config))
        }
    &&& forall|p: int| o <= p < wm0.outputs@.len() ==> #[trigger] wm.outputs@[p] == wm0.outputs@[p]
}

/// The border-pass invariants only look at the outputs and a few fields
/// that sending requests leaves alone.
proof fn lemma_pass_invariants_carry(wm0: WindowManager, a: WindowManager, b: WindowManager, foi: int, o: int)
    requires
        same_layout(wm0, a),
        borders_done(wm0, a, foi, o),
        b.outputs@ == a.outputs@,
        b.focused_output_idx == a.focused_output_idx,
        b.overview_state == a.overview_state,
        b.detached_outputs == a.detached_outputs,
        b.status == a.status,
        b.pending_windows == a.pending_windows,
        b.pending_ready == a.pending_ready,
        b.session_locked == a.session_locked,
        b.layer_shell_focus == a.layer_shell_focus,
        b.config == a.config,
    ensures
        same_layout(wm0, b),
        borders_done(wm0, b, foi, o),
{
    assert forall|p: int, w: int| 0 <= p < b.outputs@.len() && 0 <= w < NUM_WORKSPACES implies #[trigger] b.ws(p, w) == a.ws(p, w) by {}
    assert forall|p: int| 0 <= p < b.outputs@.len() implies #[trigger] b.outputs@[p] == a.outputs@[p] by {}
    assert forall|p: int, w: int, i: int|
        0 <= p < o && !wm0.outputs@[p].is_removed && 0 <= w < NUM_WORKSPACES
            && 0 <= i < wm0.ws(p, w).window_list@.len() implies {
            &&& (#[trigger] b.ws(p, w).window_list@[i]).geom.sent_border_focused == Some(is_focused_window(wm0, foi, p, w, i))
            &&& b.ws(p, w).window_list@[i].geom.sent_border_width == Some(border_width_for(wm0.ws(p, w).window_list@[i].geom, wm0.config))
        } by {
        assert(b.ws(p, w) == a.ws(p, w));
        assert(a.ws(p, w).window_list@[i] == b.ws(p, w).window_list@[i]);
    }
}

/// The focus flags of workspace `(o, w)` (see `is_focused_window`).
pub open spec fn focus_flags_of(wm0: WindowManager, foi: int, o: int, w: int) -> Seq<bool> {
    Seq::new(wm0.ws(o, w).window_list@.len(), |k: int| is_focused_window(wm0, foi, o, w, k))
}

/// The border requests for workspaces `0..n` of output `o`.
pub open spec fn output_border_requests(wm0: WindowManager, foi: int, o: int, n: int) -> Seq<Request>
    decreases n,
{
    if n <= 0 {
        Seq::empty()
    } else {
        output_border_requests(wm0, foi, o, n - 1)
            + row_border_requests(wm0.ws(o, n - 1).window_list@, focus_flags_of(wm0, foi, o, n - 1), wm0.config)
    }
}

/// Border pass over one output.
#[verifier::spinoff_prover]
#[verifier::rlimit(40)]
fn borders_for_output(wm: &mut WindowManager, o: usize, foi: usize, overview_open: bool, ov_highlighted: Option<u32>, wm0: Ghost<WindowManager>)
    requires
        old(wm).wf(),
        wm0@.wf(),
        o < old(wm).outputs@.len(),
        !old(wm).outputs@[o as int].is_removed,
        wm0@.focused_output_idx == Some(foi),
        overview_open == wm0@.overview_state is Some,
        overview_open ==> ov_highlighted == desired_focus(wm0@, foi as int),
        same_layout(wm0@, *old(wm)),
        others_equal(wm0@, *old(wm)),
        borders_done(wm0@, *old(wm), foi as int, o as int),
    ensures
        final(wm).wf(),
        same_layout(wm0@, *final(wm)),
        others_equal(wm0@, *final(wm)),
        appended_without_focus(old(wm).requests@, final(wm).requests@),
        borders_done(wm0@, *final(wm), foi as int, o + 1),
        final(wm).requests@ == old(wm).requests@ + output_border_requests(wm0@, foi as int, o as int, NUM_WORKSPACES as int),
{
    let ghost start = *wm;
    proof { assert(start.requests@ + output_border_requests(wm0@, foi as int, o as int, 0) =~= start.requests@); }
    proof {
        lemma_appended_refl(start.requests@);
        assert(start.outputs@[o as int] == wm0@.outputs@[o as int]);
        assert forall|v: int| 0 <= v < NUM_WORKSPACES implies (#[trigger] wm.ws(o as int, v)) == wm0@.ws(o as int, v) by {}
    }
    let mut w: usize = 0;
    while w < NUM_WORKSPACES
        invariant
            wm.wf(),
            wm0@.wf(),
            o < wm.outputs@.len(),
            start.outputs@[o as int] == wm0@.outputs@[o as int],
            !wm0@.outputs@[o as int].is_removed,
            wm0@.focused_output_idx == Some(foi),
            w <= NUM_WORKSPACES,
            overview_open == wm0@.overview_state is Some,
            overview_open ==> ov_highlighted == desired_focus(wm0@, foi as int),
            same_layout(wm0@, *wm),
            others_equal(wm0@, *wm),
            appended_without_focus(start.requests@, wm.requests@),
            wm.requests@ == start.requests@ + output_border_requests(wm0@, foi as int, o as int, w as int),
            borders_done(wm0@, start, foi as int, o as int),
            forall|p: int| 0 <= p < wm.outputs@.len() && p != o ==> #[trigger] wm.outputs@[p] == start.outputs@[p],
            wm.outputs@.len() == start.outputs@.len(),
            forall|v: int, i: int|
                0 <= v < w && 0 <= i < wm0@.ws(o as int, v).window_list@.len() ==> {
                    &&& (#[trigger] wm.ws(o as int, v).window_list@[i]).geom.sent_border_focused == Some(is_focused_window(wm0@, foi as int, o as int, v, i))
                    &&& wm.ws(o as int, v).window_list@[i].geom.sent_border_width == Some(border_width_for(wm0@.ws(o as int, v).window_list@[i].geom, wm0@.config))
                },
            forall|v: int| w <= v < NUM_WORKSPACES ==> #[trigger] wm.ws(o as int, v) == wm0@.ws(o as int, v),
        decreases NUM_WORKSPACES - w,
    {
        let flags = focus_flags(wm, o, w, foi, overview_open, ov_highlighted, wm0);
        proof {
            assert(wm.ws(o as int, w as int) == wm0@.ws(o as int, w as int));
        }
        let ghost before = *wm;
        apply_borders_at(wm, o, w, &flags);
        proof {
            assert(flags@ =~= focus_flags_of(wm0@, foi as int, o as int, w as int));
            assert(before.config == wm0@.config);
            assert(wm.requests@ =~= start.requests@ + output_border_requests(wm0@, foi as int, o as int, w + 1));
        }
        proof {
            lemma_appended_trans(start.requests@, before.requests@, wm.requests@);
            assert(wm0@.outputs@[o as int].wf());
            assert forall|p: int| 0 <= p < wm0@.outputs@.len() implies {
                &&& (#[trigger] wm.outputs@[p]).id == wm0@.outputs@[p].id
                &&& wm.outputs@[p].is_removed == wm0@.outputs@[p].is_removed
                &&& wm.outputs@[p].has_layer_shell == wm0@.outputs@[p].has_layer_shell
                &&& wm.outputs@[p].focused_workspace_idx == wm0@.outputs@[p].focused_workspace_idx
                &&& wm.outputs@[p].rectangle == wm0@.outputs@[p].rectangle
                &&& wm.outputs@[p].workspace_list@.len() == wm0@.outputs@[p].workspace_list@.len()
                &&& forall|v: int| 0 <= v < NUM_WORKSPACES ==> {
                    &&& (#[trigger] wm.ws(p, v)).focused_window_idx == wm0@.ws(p, v).focused_window_idx
                    &&& wm.ws(p, v).ids() == wm0@.ws(p, v).ids()
                    &&& wm.ws(p, v).window_list@.len() == wm0@.ws(p, v).window_list@.len()
                }
            } by {
                assert(before.outputs@[p].id == wm0@.outputs@[p].id);
                if p != o {
                    assert(wm.outputs@[p] == before.outputs@[p]);
                    assert forall|v: int| 0 <= v < NUM_WORKSPACES implies {
                        &&& (#[trigger] wm.ws(p, v)).focused_window_idx == wm0@.ws(p, v).focused_window_idx
                        &&& wm.ws(p, v).ids() == wm0@.ws(p, v).ids()
                        &&& wm.ws(p, v).window_list@.len() == wm0@.ws(p, v).window_list@.len()
                    } by {
                        assert(wm.ws(p, v) == before.ws(p, v));
                        assert(before.ws(p, v).focused_window_idx == wm0@.ws(p, v).focused_window_idx);
                        assert(before.ws(p, v).ids() == wm0@.ws(p, v).ids());
                        assert(before.ws(p, v).window_list@.len() == wm0@.ws(p, v).window_list@.len());
                    }
                } else {
                    assert forall|v: int| 0 <= v < NUM_WORKSPACES implies {
                        &&& (#[trigger] wm.ws(p, v)).focused_window_idx == wm0@.ws(p, v).focused_window_idx
                        &&& wm.ws(p, v).ids() == wm0@.ws(p, v).ids()
                        &&& wm.ws(p, v).window_list@.len() == wm0@.ws(p, v).window_list@.len()
                    } by {
                        assert(before.ws(p, v).focused_window_idx == wm0@.ws(p, v).focused_window_idx);
                        assert(before.ws(p, v).ids() == wm0@.ws(p, v).ids());
                        assert(before.ws(p, v).window_list@.len() == wm0@.ws(p, v).window_list@.len());
                        if v != w {
                            assert(wm.ws(o as int, v) == before.ws(o as int, v));
                        } else {
                            assert(wm.ws(o as int, w as int).ids() == before.ws(o as int, w as int).ids());
                            assert(wm.ws(o as int, w as int).focused_window_idx == before.ws(o as int, w as int).focused_window_idx);
                            assert(wm.ws(o as int, w as int).window_list@.len() == before.ws(o as int, w as int).window_list@.len());
                        }
                    }
                }
            }
            assert forall|v: int, i: int|
                0 <= v < w + 1 && 0 <= i < wm0@.ws(o as int, v).window_list@.len() implies {
                    &&& (#[trigger] wm.ws(o as int, v).window_list@[i]).geom.sent_border_focused == Some(is_focused_window(wm0@, foi as int, o as int, v, i))
                    &&& wm.ws(o as int, v).window_list@[i].geom.sent_border_width == Some(border_width_for(wm0@.ws(o as int, v).window_list@[i].geom, wm0@.config))
                } by {
                if v != w {
                    assert(wm.ws(o as int, v) == before.ws(o as int, v));
                }
            }
            assert forall|v: int| w + 1 <= v < NUM_WORKSPACES implies #[trigger] wm.ws(o as int, v) == wm0@.ws(o as int, v) by {
                assert(wm.ws(o as int, v) == before.ws(o as int, v));
            }
            assert forall|p: int| 0 <= p < wm.outputs@.len() && p != o implies #[trigger] wm.outputs@[p] == start.outputs@[p] by {
                assert(wm.outputs@[p] == before.outputs@[p]);
            }
        }
        w = w + 1;
    }
    proof {
        assert forall|p: int, v: int, i: int|
            0 <= p < o + 1 && !wm0@.outputs@[p].is_removed && 0 <= v < NUM_WORKSPACES
                && 0 <= i < wm0@.ws(p, v).window_list@.len() implies {
                &&& (#[trigger] wm.ws(p, v).window_list@[i]).geom.sent_border_focused == Some(is_focused_window(wm0@, foi as int, p, v, i))
                &&& wm.ws(p, v).window_list@[i].geom.sent_border_width == Some(border_width_for(wm0@.ws(p, v).window_list@[i].geom, wm0@.config))
            } by {
            if p < o {
                assert(wm.outputs@[p] == start.outputs@[p]);
                assert(wm.ws(p, v) == start.ws(p, v));
            }
        }
        assert forall|p: int| o + 1 <= p < wm0@.outputs@.len() implies #[trigger] wm.outputs@[p] == wm0@.outputs@[p] by {
            assert(wm.outputs@[p] == start.outputs@[p]);
        }
    }
}

/// The requests of the border pass over outputs `0..n`: each output still
/// present gets its border requests (see `output_border_requests`), and
/// the focused one, if it has a layer-shell output object, then becomes the
/// layer shell's default output.
pub open spec fn border_pass_requests(wm0: WindowManager, foi: int, n: int) -> Seq<Request>
    decreases n,
{
    if n <= 0 {
        Seq::empty()
    } else {
        border_pass_requests(wm0, foi, n - 1) + if wm0.outputs@[n - 1].is_removed {
            Seq::empty()
        } else {
            output_border_requests(wm0, foi, n - 1, NUM_WORKSPACES as int) + if n - 1 == foi && wm0.outputs@[n - 1].has_layer_shell {
                seq![Request::SetLayerShellDefault(wm0.outputs@[n - 1].id)]
            } else {
                Seq::empty()
            }
        }
    }
}

/// The focus request that ends the pass: none while focus is held back
/// (exclusive layer-shell focus, a locked session) or already on the
/// desired window; otherwise focus for the desired window, or clearing it
/// (unless a layer-shell surface holds non-exclusive focus).
pub open spec fn focus_request(wm0: WindowManager, foi: int) -> Seq<Request> {
    let d = desired_focus(wm0, foi);
    if wm0.layer_shell_focus == LayerShellFocus::Exclusive || wm0.session_locked || d == wm0.last_focused_window {
        Seq::empty()
    } else {
        match d {
            Some(id) => seq![Request::FocusWindow(id)],
            None => if wm0.layer_shell_focus != LayerShellFocus::NonExclusive { seq![Request::ClearFocus] } else { Seq::empty() },
        }
    }
}

/// `b` is `a` after the border and focus pass (see `apply_focus_and_borders`).
pub open spec fn borders_and_focus_set(a: WindowManager, b: WindowManager) -> bool {
    &&& (same_layout(a, b))
    &&& b == (WindowManager {
        outputs: b.outputs,
        requests: b.requests,
        last_focused_window: b.last_focused_window,
        needs_refocus: b.needs_refocus,
        ..a
    })
    &&& (b.requests@.len() >= a.requests@.len())
    &&& (b.requests@.subrange(0, a.requests@.len() as int) == a.requests@)
    &&& (a.focused_output_idx is None ==> b == a)
    &&& (a.focused_output_idx matches Some(foi) ==> b.requests@ == a.requests@
        + border_pass_requests(a, foi as int, a.outputs@.len() as int) + focus_request(a, foi as int))
    &&& ((a.layer_shell_focus == LayerShellFocus::Exclusive || a.session_locked) ==> {
        &&& no_focus_requests(b.requests@.subrange(a.requests@.len() as int, b.requests@.len() as int))
        &&& b.last_focused_window == a.last_focused_window
        &&& b.needs_refocus == a.needs_refocus
    })
    &&& (a.focused_output_idx matches Some(foi) ==> {
        &&& forall|o: int, w: int, i: int|
            0 <= o < a.outputs@.len() && !a.outputs@[o].is_removed && 0 <= w < NUM_WORKSPACES
                && 0 <= i < a.ws(o, w).window_list@.len() ==> {
                &&& (#[trigger] b.ws(o, w).window_list@[i]).geom.sent_border_focused == Some(is_focused_window(a, foi as int, o, w, i))
                &&& b.ws(o, w).window_list@[i].geom.sent_border_width == Some(border_width_for(a.ws(o, w).window_list@[i].geom, a.config))
            }
        &&& !(a.layer_shell_focus == LayerShellFocus::Exclusive || a.session_locked) ==> {
            let d = desired_focus(a, foi as int);
            let rs = b.requests@;
            &&& b.last_focused_window == d
            &&& !b.needs_refocus
            &&& (d != a.last_focused_window && d is Some) ==> {
                &&& appended_without_focus(a.requests@, rs.drop_last())
                &&& rs.len() > 0 && rs.last() == Request::FocusWindow(d->0)
            }
            &&& (d != a.last_focused_window && d is None && a.layer_shell_focus != LayerShellFocus::NonExclusive) ==> {
                &&& appended_without_focus(a.requests@, rs.drop_last())
                &&& rs.len() > 0 && rs.last() == Request::ClearFocus
            }
            &&& (d == a.last_focused_window || (d is None && a.layer_shell_focus == LayerShellFocus::NonExclusive))
                ==> appended_without_focus(a.requests@, rs)
        }
    })
}

/// Set border colours and keyboard focus to match the focused window and
/// output. Safe to call on every manage pass: redundant border and focus
/// requests are skipped (so input-method clients are not disturbed).
///
/// With no focused output nothing happens. Otherwise every window of every
/// output still present gets the border of its focus state and the focused
/// window is raised; the focused output's layer-shell output becomes the
/// default. Focus itself is left alone while a layer-shell surface holds
/// exclusive focus or the session is locked; otherwise, when the window
/// that should be focused differs from the one last focused, it is
/// focused (or focus is cleared, unless a layer-shell surface holds
/// non-exclusive focus) and remembered.
#[verifier::spinoff_prover]
#[verifier::rlimit(40)]
pub fn apply_focus_and_borders(wm: &mut WindowManager)
    requires
        old(wm).wf(),
    ensures
        final(wm).wf(),
        borders_and_focus_set(*old(wm), *final(wm)),
{
    let foi = match wm.focused_output_idx {
        Some(f) => f,
        None => {
            proof {
                lemma_appended_refl(wm.requests@);
                assert(no_focus_requests(wm.requests@.subrange(wm.requests@.len() as int, wm.requests@.len() as int)));
            }
            return;
        },
    };
    let ghost wm0 = *wm;
    let overview_open = wm.overview_state.is_some();
    let ov_highlighted: Option<u32> = match &wm.overview_state {
        Some(ov) => {
            if ov.highlighted < ov.entries.len() {
                let id = ov.entries[ov.highlighted];
                match wm.locate_window(id) {
                    Some(_) => Some(id),
                    None => None,
                }
            } else {
                None
            }
        }
        None => None,
    };
    proof {
        if overview_open {
            let ov = wm0.overview_state->0;
            if ov.highlighted < ov.entries@.len() && window_exists(wm0, ov.entries@[ov.highlighted as int]) {
                let (o, w, i) = choose|o: int, w: int, i: int|
                    0 <= o < wm0.outputs@.len() && 0 <= w < NUM_WORKSPACES && 0 <= i < wm0.ws(o, w).window_list@.len()
                        && #[trigger] wm0.ws(o, w).window_list@[i].id == ov.entries@[ov.highlighted as int];
                assert(wm0.ws(o, w).window_list@[i].id == ov.entries@[ov.highlighted as int]);
            }
        }
        lemma_appended_refl(wm0.requests@);
        assert(same_layout(wm0, wm0)) by {
            assert forall|p: int| 0 <= p < wm0.outputs@.len() implies (#[trigger] wm0.outputs@[p]).workspace_list@.len() == wm0.outputs@[p].workspace_list@.len() by {}
        }
    }
    let n_out = wm.outputs.len();
    let mut o: usize = 0;
    while o < n_out
        invariant
            wm.wf(),
            wm0.wf(),
            n_out == wm0.outputs@.len(),
            foi < n_out,
            wm0.focused_output_idx == Some(foi),
            o <= n_out,
            overview_open == wm0.overview_state is Some,
            overview_open ==> ov_highlighted == desired_focus(wm0, foi as int),
            same_layout(wm0, *wm),
            others_equal(wm0, *wm),
            appended_without_focus(wm0.requests@, wm.requests@),
            borders_done(wm0, *wm, foi as int, o as int),
            wm.requests@ == wm0.requests@ + border_pass_requests(wm0, foi as int, o as int),
        decreases n_out - o,
    {
        if !wm.outputs[o].is_removed {
            let ghost before = *wm;
            proof { assert(wm.outputs@[o as int] == wm0.outputs@[o as int]); }
            borders_for_output(wm, o, foi, overview_open, ov_highlighted, Ghost(wm0));
            proof { lemma_appended_trans(wm0.requests@, before.requests@, wm.requests@); }
            if o == foi && wm.outputs[o].has_layer_shell {
                let id = wm.outputs[o].id;
                let ghost b = *wm;
                wm.send(Request::SetLayerShellDefault(id));
                proof {
                    assert(id == wm0.outputs@[o as int].id);
                    assert(wm.requests@ =~= wm0.requests@ + border_pass_requests(wm0, foi as int, o + 1));
                }
                proof {
                    lemma_pass_invariants_carry(wm0, b, *wm, foi as int, o + 1);
                    assert(appended_without_focus(b.requests@, wm.requests@)) by {
                        assert(wm.requests@.subrange(0, b.requests@.len() as int) =~= b.requests@);
                        assert(wm.requests@.subrange(b.requests@.len() as int, wm.requests@.len() as int) =~= seq![Request::SetLayerShellDefault(id)]);
                    }
                    lemma_appended_trans(wm0.requests@, b.requests@, wm.requests@);
                }
            } else {
                proof {
                    assert(wm.requests@ =~= wm0.requests@ + border_pass_requests(wm0, foi as int, o + 1));
                }
            }
        } else {
            proof {
                assert(wm.outputs@[o as int] == wm0.outputs@[o as int]);
                assert(wm.requests@ =~= wm0.requests@ + border_pass_requests(wm0, foi as int, o + 1));
                assert forall|p: int, v: int, i: int|
                    0 <= p < o + 1 && !wm0.outputs@[p].is_removed && 0 <= v < NUM_WORKSPACES
                        && 0 <= i < wm0.ws(p, v).window_list@.len() implies {
                        &&& (#[trigger] wm.ws(p, v).window_list@[i]).geom.sent_border_focused == Some(is_focused_window(wm0, foi as int, p, v, i))
                        &&& wm.ws(p, v).window_list@[i].geom.sent_border_width == Some(border_width_for(wm0.ws(p, v).window_list@[i].geom, wm0.config))
                    } by {
                    if p == o {
                        assert(wm.outputs@[o as int] == wm0.outputs@[o as int]);
                    }
                }
            }
        }
        o = o + 1;
    }
    let ghost after_pass = *wm;
    if wm.layer_shell_focus == LayerShellFocus::Exclusive || wm.session_locked {
        proof {
            assert(focus_request(wm0, foi as int) =~= Seq::<Request>::empty());
            assert(wm.requests@ =~= wm0.requests@ + border_pass_requests(wm0, foi as int, n_out as int) + focus_request(wm0, foi as int));
        }
        return;
    }
    let desired: Option<u32> = if overview_open {
        ov_highlighted
    } else {
        proof { assert(wm.outputs@[foi as int].wf()); }
        let fws = wm.outputs[foi].focused_workspace_idx;
        proof {
            assert(wm.ws(foi as int, fws as int).wf());
            assert(wm0.outputs@[foi as int].wf());
        }
        match wm.outputs[foi].workspace_list[fws].focused_window_idx {
            Some(fwi) => {
                proof {
                    assert(wm.ws(foi as int, fws as int).ids() == wm0.ws(foi as int, fws as int).ids());
                    assert(wm.ws(foi as int, fws as int).ids()[fwi as int] == wm.ws(foi as int, fws as int).window_list@[fwi as int].id);
                }
                Some(wm.outputs[foi].workspace_list[fws].window_list[fwi].id)
            }
            None => None,
        }
    };
    let changed = match (desired, wm.last_focused_window) {
        (Some(a), Some(b)) => a != b,
        (None, None) => false,
        _ => true,
    };
    let ghost before_focus = wm.requests@;
    if changed {
        match desired {
            Some(id) => wm.send(Request::FocusWindow(id)),
            None => {
                if wm.layer_shell_focus != LayerShellFocus::NonExclusive {
                    wm.send(Request::ClearFocus);
                }
            }
        }
        wm.last_focused_window = desired;
    }
    wm.needs_refocus = false;
    proof {
        assert(wm.requests@ =~= wm0.requests@ + border_pass_requests(wm0, foi as int, n_out as int) + focus_request(wm0, foi as int));
    }
    proof {
        assert(before_focus == after_pass.requests@);
        if wm.requests@.len() > before_focus.len() {
            assert(wm.requests@.drop_last() =~= before_focus);
        } else {
            assert(wm.requests@ == before_focus);
        }
    }
    proof {
        lemma_pass_invariants_carry(wm0, after_pass, *wm, foi as int, n_out as int);
        assert(wm.requests@.subrange(0, wm0.requests@.len() as int) =~= wm0.requests@) by {
            assert forall|k: int| 0 <= k < wm0.requests@.len() implies wm.requests@[k] == wm0.requests@[k] by {}
        }
    }
}

/// `PlaceTop` for each floating window of a row, in order.
pub open spec fn raise_list(list: Seq<crate::wm::Window>) -> Seq<Request>
    decreases list.len(),
{
    if list.len() == 0 {
        Seq::empty()
    } else {
        raise_list(list.drop_last()) + if list.last().geom.is_floating {
            seq![Request::PlaceTop(list.last().id)]
        } else {
            Seq::empty()
        }
    }
}

/// The raise requests for workspaces `0..n` of output `o`.
pub open spec fn raise_workspaces(wm: WindowManager, o: int, n: int) -> Seq<Request>
    decreases n,
{
    if n <= 0 { Seq::empty() } else { raise_workspaces(wm, o, n - 1) + raise_list(wm.ws(o, n - 1).window_list@) }
}

/// The raise requests for outputs `0..n`.
pub open spec fn raise_requests(wm: WindowManager, n: int) -> Seq<Request>
    decreases n,
{
    if n <= 0 { Seq::empty() } else { raise_requests(wm, n - 1) + raise_workspaces(wm, n - 1, NUM_WORKSPACES as int) }
}

/// `b` is `a` with every floating window raised (see `raise_floating_windows`).
pub open spec fn floats_raised(a: WindowManager, b: WindowManager) -> bool {
    &&& (b == (WindowManager { requests: b.requests, ..a }))
    &&& (b.requests@ == a.requests@ + raise_requests(a, a.outputs@.len() as int))
}

/// Raise every floating window above the tiled ones (river only reorders
/// when the order changed, so doing it on every pass is free): one
/// `PlaceTop` per floating window, output by output, workspace by
/// workspace, in row order.
pub fn raise_floating_windows(wm: &mut WindowManager)
    requires
        old(wm).wf(),
    ensures
        final(wm).wf(),
        floats_raised(*old(wm), *final(wm)),
{
    let n_out = wm.outputs.len();
    let ghost r0 = wm.requests@;
    let mut o: usize = 0;
    while o < n_out
        invariant
            wm.wf(),
            n_out == wm.outputs@.len(),
            o <= n_out,
            *wm == (WindowManager { requests: wm.requests, ..*old(wm) }),
            r0 == old(wm).requests@,
            wm.requests@ == r0 + raise_requests(*old(wm), o as int),
        decreases n_out - o,
    {
        proof { assert(wm.outputs@[o as int].wf()); }
        let mut w: usize = 0;
        while w < NUM_WORKSPACES
            invariant
                wm.wf(),
                n_out == wm.outputs@.len(),
                o < n_out,
                w <= NUM_WORKSPACES,
                wm.outputs@[o as int].workspace_list@.len() == NUM_WORKSPACES,
                *wm == (WindowManager { requests: wm.requests, ..*old(wm) }),
                r0 == old(wm).requests@,
                wm.requests@ == r0 + raise_requests(*old(wm), o as int) + raise_workspaces(*old(wm), o as int, w as int),
            decreases NUM_WORKSPACES - w,
        {
            let n = wm.outputs[o].workspace_list[w].window_list.len();
            let ghost list = wm.ws(o as int, w as int).window_list@;
            let ghost base = wm.requests@;
            let mut i: usize = 0;
            while i < n
                invariant
                    wm.wf(),
                    n_out == wm.outputs@.len(),
                    o < n_out,
                    w < NUM_WORKSPACES,
                    wm.outputs@[o as int].workspace_list@.len() == NUM_WORKSPACES,
                    list == wm.ws(o as int, w as int).window_list@,
                    list == old(wm).ws(o as int, w as int).window_list@,
                    n == list.len(),
                    i <= n,
                    *wm == (WindowManager { requests: wm.requests, ..*old(wm) }),
                    r0 == old(wm).requests@,
                    base == r0 + raise_requests(*old(wm), o as int) + raise_workspaces(*old(wm), o as int, w as int),
                    wm.requests@ == base + raise_list(list.take(i as int)),
                decreases n - i,
            {
                let ghost b = wm.requests@;
                if wm.outputs[o].workspace_list[w].window_list[i].geom.is_floating {
                    let id = wm.outputs[o].workspace_list[w].window_list[i].id;
                    wm.send(Request::PlaceTop(id));
                }
                proof {
                    assert(list.take(i + 1).drop_last() =~= list.take(i as int));
                    assert(list.take(i + 1).last() == list[i as int]);
                    assert(wm.requests@ =~= base + raise_list(list.take(i + 1)));
                }
                i = i + 1;
            }
            proof {
                assert(list.take(n as int) =~= list);
                assert(wm.requests@ =~= r0 + raise_requests(*old(wm), o as int) + raise_workspaces(*old(wm), o as int, w + 1));
            }
            w = w + 1;
        }
        proof {
            assert(wm.requests@ =~= r0 + raise_requests(*old(wm), o + 1));
        }
        o = o + 1;
    }
}

} // verus!
