//! Output removal: migrating windows to a surviving output, and detaching
//! workspaces when no output is left.

use vstd::prelude::*;
use crate::geometry::Rect;
use crate::wm::{empty_workspaces, workspaces_wf, DetachedOutput, Request, Window, WindowGeom, WindowManager, Workspace, NUM_WORKSPACES};

verus! {

/// A copy of an optional name.
pub fn clone_name(n: &Option<String>) -> (r: Option<String>)
    ensures
        r == *n,
{
    match n {
        Some(s) => Some(s.clone()),
        None => None,
    }
}

/// Forget everything that was sent for this window, so the next commit
/// re-sends it in full (after moving to another output).
pub fn reset_sent_caches(geom: &mut WindowGeom)
    ensures
        final(geom).sent_visible is None,
        final(geom).sent_current is None,
        final(geom).sent_clip is None,
        final(geom).sent_border_focused is None,
        final(geom).sent_border_width is None,
        final(geom).sent_fullscreen is None,
        final(geom).is_floating == old(geom).is_floating,
        final(geom).is_fullscreen == old(geom).is_fullscreen,
        final(geom).is_closing == old(geom).is_closing,
        final(geom).proportion == old(geom).proportion,
        final(geom).floating == old(geom).floating,
        final(geom).current == old(geom).current,
        final(geom).finish == old(geom).finish,
        final(geom).former_output_name == old(geom).former_output_name,
        final(geom).drag_origin == old(geom).drag_origin,
{
    geom.sent_visible = None;
    geom.sent_current = None;
    geom.sent_clip = None;
    geom.sent_border_focused = None;
    geom.sent_border_width = None;
    geom.sent_fullscreen = None;
}

/// `a` and `b` differ by at most 4.
pub open spec fn near(a: i32, b: i32) -> bool {
    -4 <= a - b <= 4
}

/// A window sits at (or within a few pixels of) the output's rectangle, so
/// river may still hold it fullscreen.
pub open spec fn at_fullscreen_rect(w: Window, out: Rect) -> bool {
    ||| w.geom.is_fullscreen
    ||| {
        &&& near(w.geom.current.x, out.x)
        &&& near(w.geom.current.y, out.y)
        &&& near(w.geom.current.width, out.width)
        &&& near(w.geom.current.height, out.height)
    }
}

/// The requests that release one window of a removed output: leave
/// fullscreen where it may hold it, close it where a close was requested.
pub open spec fn release_requests(w: Window, out: Rect) -> Seq<Request> {
    (if at_fullscreen_rect(w, out) { seq![Request::ExitFullscreen(w.id)] } else { Seq::<Request>::empty() })
        + (if w.geom.is_closing { seq![Request::Close(w.id)] } else { Seq::<Request>::empty() })
}

/// `release_requests` for a row of windows, in order.
pub open spec fn release_requests_list(ws: Seq<Window>, out: Rect) -> Seq<Request>
    decreases ws.len(),
{
    if ws.len() == 0 {
        Seq::empty()
    } else {
        release_requests_list(ws.drop_last(), out) + release_requests(ws.last(), out)
    }
}

/// `release_requests` for every window of the first `n` workspaces.
pub open spec fn release_requests_upto(list: Seq<Workspace>, out: Rect, n: int) -> Seq<Request>
    decreases n,
{
    if n <= 0 {
        Seq::empty()
    } else {
        release_requests_upto(list, out, n - 1) + release_requests_list(list[n - 1].window_list@, out)
    }
}

fn is_near(a: i32, b: i32) -> (r: bool)
    ensures
        r == near(a, b),
{
    let d = a as i64 - b as i64;
    -4 <= d && d <= 4
}

/// Before an output's windows leave it: windows at (or near) its
/// fullscreen rectangle still hold compositor-side fullscreen and are told
/// to leave it (asking too often is harmless), and windows marked as
/// closing are closed.
#[verifier::spinoff_prover]
#[verifier::rlimit(60)]
pub fn exit_fullscreen_and_close_closing(wm: &mut WindowManager, output_idx: usize)
    requires
        old(wm).wf(),
        output_idx < old(wm).outputs@.len(),
    ensures
        final(wm).wf(),
        final(wm).outputs == old(wm).outputs,
        final(wm).focused_output_idx == old(wm).focused_output_idx,
        final(wm).detached_outputs == old(wm).detached_outputs,
        final(wm).overview_state == old(wm).overview_state,
        final(wm).status == old(wm).status,
        final(wm).pending_windows == old(wm).pending_windows,
        final(wm).requests@ == old(wm).requests@ + release_requests_upto(
            old(wm).outputs@[output_idx as int].workspace_list@,
            old(wm).outputs@[output_idx as int].rectangle,
            NUM_WORKSPACES as int,
        ),
        *final(wm) == (WindowManager { requests: final(wm).requests, ..*old(wm) }),
{
    let out = wm.outputs[output_idx].rectangle;
    let ghost list = wm.outputs@[output_idx as int].workspace_list@;
    let ghost start = wm.requests@;
    proof { assert(wm.outputs@[output_idx as int].wf()); }
    let mut j: usize = 0;
    while j < NUM_WORKSPACES
        invariant
            wm.wf(),
            output_idx < wm.outputs@.len(),
            wm.outputs == old(wm).outputs,
            wm.focused_output_idx == old(wm).focused_output_idx,
            wm.detached_outputs == old(wm).detached_outputs,
            wm.overview_state == old(wm).overview_state,
            wm.status == old(wm).status,
            wm.pending_windows == old(wm).pending_windows,
            *wm == (WindowManager { requests: wm.requests, ..*old(wm) }),
            list == wm.outputs@[output_idx as int].workspace_list@,
            list.len() == NUM_WORKSPACES,
            out == wm.outputs@[output_idx as int].rectangle,
            j <= NUM_WORKSPACES,
            wm.requests@ == start + release_requests_upto(list, out, j as int),
        decreases NUM_WORKSPACES - j,
    {
        let n = wm.outputs[output_idx].workspace_list[j].window_list.len();
        let ghost before = wm.requests@;
        let mut i: usize = 0;
        while i < n
            invariant
                wm.wf(),
                output_idx < wm.outputs@.len(),
                wm.outputs == old(wm).outputs,
                wm.focused_output_idx == old(wm).focused_output_idx,
                wm.detached_outputs == old(wm).detached_outputs,
                wm.overview_state == old(wm).overview_state,
                wm.status == old(wm).status,
                wm.pending_windows == old(wm).pending_windows,
                *wm == (WindowManager { requests: wm.requests, ..*old(wm) }),
                list == wm.outputs@[output_idx as int].workspace_list@,
                list.len() == NUM_WORKSPACES,
                j < NUM_WORKSPACES,
                out == wm.outputs@[output_idx as int].rectangle,
                n == list[j as int].window_list@.len(),
                i <= n,
                wm.requests@ == before + release_requests_list(list[j as int].window_list@.take(i as int), out),
            decreases n - i,
        {
            let id = wm.outputs[output_idx].workspace_list[j].window_list[i].id;
            let pos = wm.outputs[output_idx].workspace_list[j].window_list[i].geom.current;
            let fs = wm.outputs[output_idx].workspace_list[j].window_list[i].geom.is_fullscreen;
            let closing = wm.outputs[output_idx].workspace_list[j].window_list[i].geom.is_closing;
            let at_rect = fs || (is_near(pos.x, out.x) && is_near(pos.y, out.y)
                && is_near(pos.width, out.width) && is_near(pos.height, out.height));
            let ghost w = list[j as int].window_list@[i as int];
            let ghost mid = wm.requests@;
            if at_rect {
                wm.send(Request::ExitFullscreen(id));
            }
            if closing {
                wm.send(Request::Close(id));
            }
            proof {
                let l = list[j as int].window_list@;
                assert(l.take(i + 1).drop_last() =~= l.take(i as int));
                assert(l.take(i + 1).last() == w);
                assert(wm.requests@ =~= mid + release_requests(w, out));
            }
            i = i + 1;
        }
        proof {
            let l = list[j as int].window_list@;
            assert(l.take(n as int) =~= l);
        }
        j = j + 1;
    }
}


/// Spec of the focus a destination workspace ends with after windows were
/// appended to it: unchanged if it had one, else the first newcomer.
pub open spec fn focus_after_append(old_focus: Option<usize>, old_len: int, added: int) -> Option<usize> {
    match old_focus {
        Some(f) => Some(f),
        None => if added > 0 { Some(old_len as usize) } else { None },
    }
}

/// `ExitFullscreen` for each fullscreen window of a row, in order.
pub open spec fn leave_fullscreen(list: Seq<Window>) -> Seq<Request>
    decreases list.len(),
{
    if list.len() == 0 {
        Seq::empty()
    } else {
        leave_fullscreen(list.drop_last()) + if list.last().geom.is_fullscreen {
            seq![Request::ExitFullscreen(list.last().id)]
        } else {
            Seq::empty()
        }
    }
}

/// The `ExitFullscreen` requests for workspaces `0..n` of a list.
pub open spec fn leave_fullscreen_workspaces(list: Seq<Workspace>, n: int) -> Seq<Request>
    decreases n,
{
    if n <= 0 {
        Seq::empty()
    } else {
        leave_fullscreen_workspaces(list, n - 1) + leave_fullscreen(list[n - 1].window_list@)
    }
}

/// Append all of `src`'s windows to `dst`, tagging each with `tag` (only
/// where untagged, when `only_untagged`), forgetting what was sent for
/// them (the next commit sends them in full on their new output), and
/// asking fullscreen windows to leave fullscreen. `src` ends empty and
/// unfocused.
#[verifier::spinoff_prover]
#[verifier::rlimit(60)]
fn drain_into(
    wm: &mut WindowManager,
    src: &mut Workspace,
    dst: &mut Workspace,
    tag: &Option<String>,
    only_untagged: bool,
)
    requires
        old(dst).wf(),
    ensures
        final(dst).wf(),
        final(dst).ids() == old(dst).ids() + old(src).ids(),
        final(dst).focused_window_idx == focus_after_append(old(dst).focused_window_idx, old(dst).window_list@.len() as int, old(src).window_list@.len() as int),
        final(src).window_list@.len() == 0,
        final(src).focused_window_idx is None,
        forall|k: int| 0 <= k < old(src).window_list@.len() ==> {
            let w = #[trigger] final(dst).window_list@[old(dst).window_list@.len() + k];
            &&& w.geom.former_output_name == (if only_untagged && old(src).window_list@[k].geom.former_output_name is Some {
                old(src).window_list@[k].geom.former_output_name
            } else {
                *tag
            })
            &&& w.geom.is_floating == old(src).window_list@[k].geom.is_floating
            &&& w.geom.sent_visible is None && w.geom.sent_current is None && w.geom.sent_clip is None
        },
        *final(wm) == (WindowManager { requests: final(wm).requests, ..*old(wm) }),
        final(wm).requests@ == old(wm).requests@ + leave_fullscreen(old(src).window_list@),
{
    let ghost src0 = src.window_list@;
    let ghost r0 = wm.requests@;
    proof { assert(r0 + leave_fullscreen(src0.take(0)) =~= r0); }
    let ghost dst0_len = dst.window_list@.len();
    let ghost dst0_ids = dst.ids();
    let ghost dst0_focus = dst.focused_window_idx;
    let n0 = src.window_list.len();
    let mut k: usize = 0;
    while k < n0
        invariant
            dst.wf(),
            n0 == src0.len(),
            src.window_list@ == src0.skip(k as int),
            k <= src0.len(),
            dst.window_list@.len() == dst0_len + k,
            dst.ids() == dst0_ids + src0.take(k as int).map_values(|w: Window| w.id),
            dst.focused_window_idx == focus_after_append(dst0_focus, dst0_len as int, k as int),
            forall|m: int| 0 <= m < k ==> {
                let w = #[trigger] dst.window_list@[dst0_len + m];
                &&& w.geom.former_output_name == (if only_untagged && src0[m].geom.former_output_name is Some {
                    src0[m].geom.former_output_name
                } else {
                    *tag
                })
                &&& w.geom.is_floating == src0[m].geom.is_floating
                &&& w.geom.sent_visible is None && w.geom.sent_current is None && w.geom.sent_clip is None
            },
            *wm == (WindowManager { requests: wm.requests, ..*old(wm) }),
            r0 == old(wm).requests@,
            wm.requests@ == r0 + leave_fullscreen(src0.take(k as int)),
        decreases n0 - k,
    {
        let mut w = src.window_list.remove(0);
        proof {
            assert(w == src0[k as int]);
            assert(src0.take(k + 1).drop_last() =~= src0.take(k as int));
            assert(src0.take(k + 1).last() == src0[k as int]);
        }
        if w.geom.is_fullscreen {
            wm.send(Request::ExitFullscreen(w.id));
        }
        proof { assert(wm.requests@ =~= r0 + leave_fullscreen(src0.take(k + 1))); }
        reset_sent_caches(&mut w.geom);
        if !only_untagged || w.geom.former_output_name.is_none() {
            w.geom.former_output_name = clone_name(tag);
        }
        let ghost before = dst.window_list@;
        let ghost before_ids = dst.ids();
        dst.window_list.push(w);
        if dst.focused_window_idx.is_none() {
            dst.focused_window_idx = Some(dst.window_list.len() - 1);
        }
        proof {
            assert(src0.skip(k as int).drop_first() =~= src0.skip(k + 1));
            assert(src0.take(k + 1).map_values(|w: Window| w.id) =~= src0.take(k as int).map_values(|w: Window| w.id).push(src0[k as int].id));
            assert(dst.ids() =~= before_ids.push(src0[k as int].id));
            assert forall|m: int| 0 <= m < k + 1 implies {
                let w = #[trigger] dst.window_list@[dst0_len + m];
                &&& w.geom.former_output_name == (if only_untagged && src0[m].geom.former_output_name is Some {
                    src0[m].geom.former_output_name
                } else {
                    *tag
                })
                &&& w.geom.is_floating == src0[m].geom.is_floating
                &&& w.geom.sent_visible is None && w.geom.sent_current is None && w.geom.sent_clip is None
            } by {
                if m < k {
                    assert(dst.window_list@[dst0_len + m] == before[dst0_len + m]);
                }
            }
        }
        k = k + 1;
    }
    proof {
        assert(src0.take(k as int) =~= src0);
        assert(src0.map_values(|w: Window| w.id) =~= old(src).ids());
    }
    src.focused_window_idx = None;
}

/// `b` has the same identity, geometry, removal mark and shown workspace
/// as `a`.
pub open spec fn same_output_fields(a: crate::wm::Output, b: crate::wm::Output) -> bool {
    &&& b.id == a.id
    &&& b.name == a.name
    &&& b.rectangle == a.rectangle
    &&& b.non_exclusive == a.non_exclusive
    &&& b.has_layer_shell == a.has_layer_shell
    &&& b.is_removed == a.is_removed
    &&& b.focused_workspace_idx == a.focused_workspace_idx
}

/// Migrate all windows of a removed output to a surviving output,
/// workspace by workspace: each workspace of the removed output is appended
/// to the survivor's workspace with the same index, the windows remember
/// the removed output's name, fullscreen ones are asked to leave
/// fullscreen, and a survivor workspace without focus focuses its first
/// newcomer.
pub fn migrate_output_windows(wm: &mut WindowManager, removed_idx: usize, survivor_idx: usize)
    requires
        old(wm).wf(),
        removed_idx < old(wm).outputs@.len(),
        survivor_idx < old(wm).outputs@.len(),
        removed_idx != survivor_idx,
    ensures
        final(wm).wf(),
        final(wm).outputs@.len() == old(wm).outputs@.len(),
        forall|j: int| 0 <= j < NUM_WORKSPACES ==> {
            &&& (#[trigger] final(wm).ws(survivor_idx as int, j)).ids()
                == old(wm).ws(survivor_idx as int, j).ids() + old(wm).ws(removed_idx as int, j).ids()
            &&& final(wm).ws(survivor_idx as int, j).focused_window_idx == focus_after_append(
                old(wm).ws(survivor_idx as int, j).focused_window_idx,
                old(wm).ws(survivor_idx as int, j).window_list@.len() as int,
                old(wm).ws(removed_idx as int, j).window_list@.len() as int)
            &&& final(wm).ws(removed_idx as int, j).window_list@.len() == 0
            &&& forall|k: int| 0 <= k < old(wm).ws(removed_idx as int, j).window_list@.len() ==>
                (#[trigger] final(wm).ws(survivor_idx as int, j).window_list@[old(wm).ws(survivor_idx as int, j).window_list@.len() + k]).geom.former_output_name
                    == old(wm).outputs@[removed_idx as int].name
        },
        forall|i: int| 0 <= i < final(wm).outputs@.len() && i != removed_idx && i != survivor_idx ==> final(wm).outputs@[i] == old(wm).outputs@[i],
        final(wm).outputs@[removed_idx as int].is_removed == old(wm).outputs@[removed_idx as int].is_removed,
        final(wm).outputs@[survivor_idx as int].is_removed == old(wm).outputs@[survivor_idx as int].is_removed,
        final(wm).outputs@[survivor_idx as int].focused_workspace_idx == old(wm).outputs@[survivor_idx as int].focused_workspace_idx,
        final(wm).focused_output_idx == old(wm).focused_output_idx,
        final(wm).detached_outputs == old(wm).detached_outputs,
        final(wm).overview_state == old(wm).overview_state,
        final(wm).status == old(wm).status,
        final(wm).pending_windows == old(wm).pending_windows,
        same_output_fields(old(wm).outputs@[removed_idx as int], final(wm).outputs@[removed_idx as int]),
        same_output_fields(old(wm).outputs@[survivor_idx as int], final(wm).outputs@[survivor_idx as int]),
        *final(wm) == (WindowManager { outputs: final(wm).outputs, requests: final(wm).requests, ..*old(wm) }),
        final(wm).requests@ == old(wm).requests@
            + leave_fullscreen_workspaces(old(wm).outputs@[removed_idx as int].workspace_list@, NUM_WORKSPACES as int),
{
    let src_name = clone_name(&wm.outputs[removed_idx].name);
    proof {
        assert(old(wm).requests@ + leave_fullscreen_workspaces(old(wm).outputs@[removed_idx as int].workspace_list@, 0) =~= old(wm).requests@);
    }
    let mut j: usize = 0;
    while j < NUM_WORKSPACES
        invariant
            wm.wf(),
            removed_idx < wm.outputs@.len(),
            survivor_idx < wm.outputs@.len(),
            removed_idx != survivor_idx,
            wm.outputs@.len() == old(wm).outputs@.len(),
            src_name == old(wm).outputs@[removed_idx as int].name,
            j <= NUM_WORKSPACES,
            forall|v: int| 0 <= v < j ==> {
                &&& (#[trigger] wm.ws(survivor_idx as int, v)).ids()
                    == old(wm).ws(survivor_idx as int, v).ids() + old(wm).ws(removed_idx as int, v).ids()
                &&& wm.ws(survivor_idx as int, v).focused_window_idx == focus_after_append(
                    old(wm).ws(survivor_idx as int, v).focused_window_idx,
                    old(wm).ws(survivor_idx as int, v).window_list@.len() as int,
                    old(wm).ws(removed_idx as int, v).window_list@.len() as int)
                &&& wm.ws(removed_idx as int, v).window_list@.len() == 0
                &&& forall|k: int| 0 <= k < old(wm).ws(removed_idx as int, v).window_list@.len() ==>
                    (#[trigger] wm.ws(survivor_idx as int, v).window_list@[old(wm).ws(survivor_idx as int, v).window_list@.len() + k]).geom.former_output_name
                        == old(wm).outputs@[removed_idx as int].name
            },
            forall|v: int| j <= v < NUM_WORKSPACES ==> #[trigger] wm.ws(survivor_idx as int, v) == old(wm).ws(survivor_idx as int, v),
            forall|v: int| j <= v < NUM_WORKSPACES ==> #[trigger] wm.ws(removed_idx as int, v) == old(wm).ws(removed_idx as int, v),
            forall|i: int| 0 <= i < wm.outputs@.len() && i != removed_idx && i != survivor_idx ==> wm.outputs@[i] == old(wm).outputs@[i],
            wm.outputs@[removed_idx as int].is_removed == old(wm).outputs@[removed_idx as int].is_removed,
            wm.outputs@[survivor_idx as int].is_removed == old(wm).outputs@[survivor_idx as int].is_removed,
            wm.outputs@[survivor_idx as int].focused_workspace_idx == old(wm).outputs@[survivor_idx as int].focused_workspace_idx,
            wm.focused_output_idx == old(wm).focused_output_idx,
            wm.detached_outputs == old(wm).detached_outputs,
            wm.overview_state == old(wm).overview_state,
            wm.status == old(wm).status,
            wm.pending_windows == old(wm).pending_windows,
            same_output_fields(old(wm).outputs@[removed_idx as int], wm.outputs@[removed_idx as int]),
            same_output_fields(old(wm).outputs@[survivor_idx as int], wm.outputs@[survivor_idx as int]),
            *wm == (WindowManager { outputs: wm.outputs, requests: wm.requests, ..*old(wm) }),
            wm.requests@ == old(wm).requests@
                + leave_fullscreen_workspaces(old(wm).outputs@[removed_idx as int].workspace_list@, j as int),
        decreases NUM_WORKSPACES - j,
    {
        let ghost w0 = *wm;
        let mut src = wm.take_workspace(removed_idx, j);
        let ghost w1 = *wm;
        let mut dst = wm.take_workspace(survivor_idx, j);
        let ghost w2 = *wm;
        drain_into(wm, &mut src, &mut dst, &src_name, false);
        let ghost w3 = *wm;
        wm.put_workspace(survivor_idx, j, dst);
        let ghost w4 = *wm;
        wm.put_workspace(removed_idx, j, src);
        proof {
            assert(w1.outputs@[survivor_idx as int] == w0.outputs@[survivor_idx as int]);
            assert(w3.outputs == w2.outputs);
            assert(w4.outputs@[removed_idx as int] == w3.outputs@[removed_idx as int]);
            assert forall|v: int| 0 <= v < NUM_WORKSPACES && v != j implies
                #[trigger] wm.ws(survivor_idx as int, v) == w0.ws(survivor_idx as int, v) by {
                assert(w2.ws(survivor_idx as int, v) == w1.ws(survivor_idx as int, v));
                assert(w4.ws(survivor_idx as int, v) == w3.ws(survivor_idx as int, v));
            }
            assert forall|v: int| 0 <= v < NUM_WORKSPACES && v != j implies
                #[trigger] wm.ws(removed_idx as int, v) == w0.ws(removed_idx as int, v) by {
                assert(wm.ws(removed_idx as int, v) == w4.ws(removed_idx as int, v));
                assert(w1.ws(removed_idx as int, v) == w0.ws(removed_idx as int, v));
            }
            assert(wm.ws(survivor_idx as int, j as int) == w4.ws(survivor_idx as int, j as int));
            assert(w0.ws(survivor_idx as int, j as int) == old(wm).ws(survivor_idx as int, j as int));
            assert(w0.ws(removed_idx as int, j as int) == old(wm).ws(removed_idx as int, j as int));
            assert(w1.ws(survivor_idx as int, j as int) == w0.ws(survivor_idx as int, j as int));
            assert forall|i: int| 0 <= i < wm.outputs@.len() && i != removed_idx && i != survivor_idx
                implies wm.outputs@[i] == w0.outputs@[i] by {
                assert(w1.outputs@[i] == w0.outputs@[i]);
                assert(w2.outputs@[i] == w1.outputs@[i]);
                assert(w4.outputs@[i] == w3.outputs@[i]);
            }
            assert(wm.requests@ =~= old(wm).requests@
                + leave_fullscreen_workspaces(old(wm).outputs@[removed_idx as int].workspace_list@, j + 1));
        }
        j = j + 1;
    }
}

/// Preserve a removed output's workspaces under its name (the output keeps
/// ten empty workspaces). An entry already kept under the same name is
/// replaced and its windows are closed. An output without a name keeps its
/// windows and nothing is sent.
pub fn detach_output(wm: &mut WindowManager, removed_idx: usize)
    requires
        old(wm).wf(),
        removed_idx < old(wm).outputs@.len(),
    ensures
        final(wm).wf(),
        final(wm).outputs@.len() == old(wm).outputs@.len(),
        forall|i: int| 0 <= i < final(wm).outputs@.len() && i != removed_idx ==> final(wm).outputs@[i] == old(wm).outputs@[i],
        final(wm).outputs@[removed_idx as int].is_removed == old(wm).outputs@[removed_idx as int].is_removed,
        final(wm).focused_output_idx == old(wm).focused_output_idx,
        final(wm).overview_state == old(wm).overview_state,
        final(wm).status == old(wm).status,
        final(wm).pending_windows == old(wm).pending_windows,
        *final(wm) == (WindowManager {
            outputs: final(wm).outputs,
            detached_outputs: final(wm).detached_outputs,
            requests: final(wm).requests,
            ..*old(wm)
        }),
        match old(wm).outputs@[removed_idx as int].name {
            None => *final(wm) == *old(wm),
            Some(name) => {
                &&& (forall|d: int| 0 <= d < old(wm).detached_outputs@.len() ==> (#[trigger] old(wm).detached_outputs@[d]).name@ != name@)
                    ==> final(wm).requests == old(wm).requests
                &&& forall|k: int| 0 <= k < old(wm).detached_outputs@.len() && (#[trigger] old(wm).detached_outputs@[k]).name@ == name@
                    && (forall|j: int| 0 <= j < k ==> (#[trigger] old(wm).detached_outputs@[j]).name@ != name@)
                    ==> final(wm).requests@ == old(wm).requests@
                        + close_workspaces(old(wm).detached_outputs@[k].workspace_list@, old(wm).detached_outputs@[k].workspace_list@.len() as int)
                &&& exists|d: int| 0 <= d < final(wm).detached_outputs@.len() && {
                    let e = #[trigger] final(wm).detached_outputs@[d];
                    &&& e.name@ == name@
                    &&& e.workspace_list@ == old(wm).outputs@[removed_idx as int].workspace_list@
                    &&& e.focused_workspace_idx == old(wm).outputs@[removed_idx as int].focused_workspace_idx
                }
                &&& forall|j: int| 0 <= j < NUM_WORKSPACES ==> (#[trigger] final(wm).ws(removed_idx as int, j)).window_list@.len() == 0
                &&& forall|d: int| 0 <= d < old(wm).detached_outputs@.len() && old(wm).detached_outputs@[d].name@ != name@
                    ==> final(wm).detached_outputs@.contains(#[trigger] old(wm).detached_outputs@[d])
            }
        },
{
    let name = match &wm.outputs[removed_idx].name {
        Some(n) => n.clone(),
        None => return,
    };
    proof { assert(wm.outputs@[removed_idx as int].wf()); }
    let mut list = empty_workspaces();
    std::mem::swap(&mut list, &mut wm.outputs[removed_idx].workspace_list);
    assert(wm.outputs@[removed_idx as int].wf());
    let detached = DetachedOutput {
        name,
        workspace_list: list,
        focused_workspace_idx: wm.outputs[removed_idx].focused_workspace_idx,
    };
    assert(detached.wf());
    let old_entry = take_detached(wm, &detached.name);
    let ghost mid = wm.detached_outputs@;
    wm.detached_outputs.push(detached);
    proof {
        let d = wm.detached_outputs@.len() - 1;
        assert(wm.detached_outputs@[d as int] == detached);
        assert forall|k: int| 0 <= k < old(wm).detached_outputs@.len() && old(wm).detached_outputs@[k].name@ != detached.name@
            implies wm.detached_outputs@.contains(#[trigger] old(wm).detached_outputs@[k]) by {
            assert(mid.contains(old(wm).detached_outputs@[k]));
            let p = choose|p: int| 0 <= p < mid.len() && mid[p] == old(wm).detached_outputs@[k];
            assert(wm.detached_outputs@[p] == mid[p]);
        }
    }
    let ghost taken = old_entry;
    let ghost before_close = wm.requests@;
    proof { assert(before_close == old(wm).requests@); }
    if let Some(entry) = old_entry {
        close_detached(wm, entry);
    }
    proof {
        let n = detached.name;
        let ds = old(wm).detached_outputs@;
        match taken {
            Some(e) => {
                let k0 = choose|k: int| 0 <= k < ds.len() && #[trigger] ds[k] == e
                    && mid == ds.remove(k)
                    && forall|j: int| 0 <= j < k ==> (#[trigger] ds[j]).name@ != n@;
                assert forall|k: int| 0 <= k < ds.len() && (#[trigger] ds[k]).name@ == n@
                    && (forall|j: int| 0 <= j < k ==> (#[trigger] ds[j]).name@ != n@)
                    implies wm.requests@ == before_close + close_workspaces(ds[k].workspace_list@, ds[k].workspace_list@.len() as int) by {
                    if k < k0 {
                        assert(ds[k].name@ != n@);
                    } else if k0 < k {
                        assert(ds[k0].name@ != n@);
                    }
                }
            },
            None => {},
        }
    }
}

/// Remove and return the detached entry kept under `name`, if any; the
/// other entries stay.
pub fn take_detached(wm: &mut WindowManager, name: &String) -> (r: Option<DetachedOutput>)
    requires
        old(wm).wf(),
    ensures
        final(wm).wf(),
        r matches Some(e) ==> e.wf() && e.name@ == name@ && old(wm).detached_outputs@.contains(e),
        r matches Some(e) ==> exists|k: int| 0 <= k < old(wm).detached_outputs@.len()
            && #[trigger] old(wm).detached_outputs@[k] == e
            && final(wm).detached_outputs@ == old(wm).detached_outputs@.remove(k)
            && forall|j: int| 0 <= j < k ==> (#[trigger] old(wm).detached_outputs@[j]).name@ != name@,
        r is None <==> forall|d: int| 0 <= d < old(wm).detached_outputs@.len() ==> (#[trigger] old(wm).detached_outputs@[d]).name@ != name@,
        r is None ==> final(wm).detached_outputs == old(wm).detached_outputs,
        forall|d: int| 0 <= d < old(wm).detached_outputs@.len() && old(wm).detached_outputs@[d].name@ != name@
            ==> final(wm).detached_outputs@.contains(#[trigger] old(wm).detached_outputs@[d]),
        forall|d: int| 0 <= d < final(wm).detached_outputs@.len() ==> old(wm).detached_outputs@.contains(#[trigger] final(wm).detached_outputs@[d]),
        final(wm).detached_outputs@.len() <= old(wm).detached_outputs@.len(),
        *final(wm) == (WindowManager { detached_outputs: final(wm).detached_outputs, ..*old(wm) }),
        final(wm).outputs == old(wm).outputs,
        final(wm).focused_output_idx == old(wm).focused_output_idx,
        final(wm).overview_state == old(wm).overview_state,
        final(wm).status == old(wm).status,
        final(wm).requests == old(wm).requests,
        final(wm).pending_windows == old(wm).pending_windows,
        final(wm).pending_ready == old(wm).pending_ready,
{
    let mut d: usize = 0;
    while d < wm.detached_outputs.len()
        invariant
            *wm == *old(wm),
            wm.wf(),
            d <= wm.detached_outputs@.len(),
            forall|k: int| 0 <= k < d ==> (#[trigger] wm.detached_outputs@[k]).name@ != name@,
        decreases wm.detached_outputs@.len() - d,
    {
        if wm.detached_outputs[d].name.eq(name) {
            let ghost before = wm.detached_outputs@;
            let e = wm.detached_outputs.remove(d);
            proof {
                assert(before[d as int].wf());
                assert(before.contains(e));
                assert(wm.detached_outputs@ =~= before.remove(d as int));
                assert(old(wm).detached_outputs@[d as int] == e);
                assert forall|k: int| 0 <= k < before.len() && before[k].name@ != name@
                    implies wm.detached_outputs@.contains(#[trigger] before[k]) by {
                    if k < d {
                        assert(wm.detached_outputs@[k] == before[k]);
                    } else {
                        assert(k != d);
                        assert(wm.detached_outputs@[k - 1] == before[k]);
                    }
                }
                assert forall|k: int| 0 <= k < wm.detached_outputs@.len() implies before.contains(#[trigger] wm.detached_outputs@[k]) by {
                    if k < d {
                        assert(wm.detached_outputs@[k] == before[k]);
                    } else {
                        assert(wm.detached_outputs@[k] == before[k + 1]);
                    }
                }
                assert forall|k: int| 0 <= k < wm.detached_outputs@.len() implies #[trigger] wm.detached_outputs@[k].wf() by {
                    if k < d {
                        assert(wm.detached_outputs@[k] == before[k]);
                    } else {
                        assert(wm.detached_outputs@[k] == before[k + 1]);
                    }
                }
            }
            return Some(e);
        }
        d = d + 1;
    }
    proof {
        assert forall|k: int| 0 <= k < wm.detached_outputs@.len() implies old(wm).detached_outputs@.contains(#[trigger] wm.detached_outputs@[k]) by {
            assert(old(wm).detached_outputs@[k] == wm.detached_outputs@[k]);
        }
        assert forall|k: int| 0 <= k < old(wm).detached_outputs@.len() && old(wm).detached_outputs@[k].name@ != name@
            implies wm.detached_outputs@.contains(#[trigger] old(wm).detached_outputs@[k]) by {
            assert(wm.detached_outputs@[k] == old(wm).detached_outputs@[k]);
        }
    }
    None
}

/// A `Close` request for each window of a row, in order.
pub open spec fn close_row(list: Seq<Window>) -> Seq<Request>
    decreases list.len(),
{
    if list.len() == 0 {
        Seq::empty()
    } else {
        close_row(list.drop_last()) + seq![Request::Close(list.last().id)]
    }
}

/// The `Close` requests for every window of workspaces `0..n`.
pub open spec fn close_workspaces(list: Seq<Workspace>, n: int) -> Seq<Request>
    decreases n,
{
    if n <= 0 {
        Seq::empty()
    } else {
        close_workspaces(list, n - 1) + close_row(list[n - 1].window_list@)
    }
}

/// Close every window of a detached entry that is being dropped, workspace
/// by workspace; nothing but the request queue changes.
fn close_detached(wm: &mut WindowManager, entry: DetachedOutput)
    requires
        old(wm).wf(),
    ensures
        final(wm).wf(),
        final(wm).outputs == old(wm).outputs,
        final(wm).detached_outputs == old(wm).detached_outputs,
        final(wm).focused_output_idx == old(wm).focused_output_idx,
        final(wm).overview_state == old(wm).overview_state,
        final(wm).status == old(wm).status,
        final(wm).pending_windows == old(wm).pending_windows,
        *final(wm) == (WindowManager { requests: final(wm).requests, ..*old(wm) }),
        final(wm).requests@ == old(wm).requests@ + close_workspaces(entry.workspace_list@, entry.workspace_list@.len() as int),
{
    let ghost r0 = wm.requests@;
    let ghost wl = entry.workspace_list@;
    let mut j: usize = 0;
    proof { assert(r0 + close_workspaces(wl, 0) =~= r0); }
    while j < entry.workspace_list.len()
        invariant
            wm.wf(),
            *wm == (WindowManager { requests: wm.requests, ..*old(wm) }),
            r0 == old(wm).requests@,
            wl == entry.workspace_list@,
            j <= wl.len(),
            wm.requests@ == r0 + close_workspaces(wl, j as int),
        decreases entry.workspace_list@.len() - j,
    {
        let ghost row = wl[j as int].window_list@;
        let ghost base = wm.requests@;
        let mut i: usize = 0;
        proof { assert(base + close_row(row.take(0)) =~= base); }
        while i < entry.workspace_list[j].window_list.len()
            invariant
                wm.wf(),
                *wm == (WindowManager { requests: wm.requests, ..*old(wm) }),
                wl == entry.workspace_list@,
                j < wl.len(),
                row == wl[j as int].window_list@,
                i <= row.len(),
                base == r0 + close_workspaces(wl, j as int),
                r0 == old(wm).requests@,
                wm.requests@ == base + close_row(row.take(i as int)),
            decreases entry.workspace_list@[j as int].window_list@.len() - i,
        {
            wm.send(Request::Close(entry.workspace_list[j].window_list[i].id));
            proof {
                assert(row.take(i + 1).drop_last() =~= row.take(i as int));
                assert(row.take(i + 1).last() == row[i as int]);
                assert(wm.requests@ =~= base + close_row(row.take(i + 1)));
            }
            i = i + 1;
        }
        proof {
            assert(row.take(row.len() as int) =~= row);
            assert(wm.requests@ =~= r0 + close_workspaces(wl, j + 1));
        }
        j = j + 1;
    }
}

/// Move a detached output's windows into the target output's matching
/// workspaces. Windows that do not remember an output yet are tagged with
/// the detached output's name (`key`), so they can go back if it
/// reappears.
pub fn migrate_detached_into(wm: &mut WindowManager, target_idx: usize, key: &String, detached: DetachedOutput)
    requires
        old(wm).wf(),
        target_idx < old(wm).outputs@.len(),
        detached.wf(),
    ensures
        final(wm).wf(),
        final(wm).outputs@.len() == old(wm).outputs@.len(),
        forall|j: int| 0 <= j < NUM_WORKSPACES ==> {
            &&& (#[trigger] final(wm).ws(target_idx as int, j)).ids()
                == old(wm).ws(target_idx as int, j).ids() + detached.workspace_list@[j].ids()
            &&& final(wm).ws(target_idx as int, j).focused_window_idx == focus_after_append(
                old(wm).ws(target_idx as int, j).focused_window_idx,
                old(wm).ws(target_idx as int, j).window_list@.len() as int,
                detached.workspace_list@[j].window_list@.len() as int)
        },
        forall|i: int| 0 <= i < final(wm).outputs@.len() && i != target_idx ==> final(wm).outputs@[i] == old(wm).outputs@[i],
        final(wm).outputs@[target_idx as int].is_removed == old(wm).outputs@[target_idx as int].is_removed,
        final(wm).outputs@[target_idx as int].focused_workspace_idx == old(wm).outputs@[target_idx as int].focused_workspace_idx,
        final(wm).outputs@[target_idx as int].name == old(wm).outputs@[target_idx as int].name,
        final(wm).focused_output_idx == old(wm).focused_output_idx,
        final(wm).detached_outputs == old(wm).detached_outputs,
        final(wm).overview_state == old(wm).overview_state,
        final(wm).status == old(wm).status,
        final(wm).pending_windows == old(wm).pending_windows,
        same_output_fields(old(wm).outputs@[target_idx as int], final(wm).outputs@[target_idx as int]),
        *final(wm) == (WindowManager { outputs: final(wm).outputs, requests: final(wm).requests, ..*old(wm) }),
        final(wm).requests@ == old(wm).requests@ + leave_fullscreen_workspaces(detached.workspace_list@, NUM_WORKSPACES as int),
        forall|j: int, k: int| 0 <= j < NUM_WORKSPACES && 0 <= k < detached.workspace_list@[j].window_list@.len() ==>
            (#[trigger] final(wm).ws(target_idx as int, j).window_list@[old(wm).ws(target_idx as int, j).window_list@.len() + k]).geom.former_output_name
                == (if detached.workspace_list@[j].window_list@[k].geom.former_output_name is Some {
                    detached.workspace_list@[j].window_list@[k].geom.former_output_name
                } else {
                    Some(*key)
                }),
{
    let mut detached = detached;
    let tag = Some(key.clone());
    let ghost orig = detached.workspace_list@;
    proof { assert(old(wm).requests@ + leave_fullscreen_workspaces(orig, 0) =~= old(wm).requests@); }
    let mut j: usize = 0;
    while j < NUM_WORKSPACES
        invariant
            wm.wf(),
            target_idx < wm.outputs@.len(),
            wm.outputs@.len() == old(wm).outputs@.len(),
            workspaces_wf(orig),
            detached.workspace_list@.len() == NUM_WORKSPACES,
            forall|v: int| j <= v < NUM_WORKSPACES ==> #[trigger] detached.workspace_list@[v] == orig[v],
            j <= NUM_WORKSPACES,
            forall|v: int| 0 <= v < j ==> {
                &&& (#[trigger] wm.ws(target_idx as int, v)).ids()
                    == old(wm).ws(target_idx as int, v).ids() + orig[v].ids()
                &&& wm.ws(target_idx as int, v).focused_window_idx == focus_after_append(
                    old(wm).ws(target_idx as int, v).focused_window_idx,
                    old(wm).ws(target_idx as int, v).window_list@.len() as int,
                    orig[v].window_list@.len() as int)
            },
            forall|v: int| j <= v < NUM_WORKSPACES ==> #[trigger] wm.ws(target_idx as int, v) == old(wm).ws(target_idx as int, v),
            forall|i: int| 0 <= i < wm.outputs@.len() && i != target_idx ==> wm.outputs@[i] == old(wm).outputs@[i],
            wm.outputs@[target_idx as int].is_removed == old(wm).outputs@[target_idx as int].is_removed,
            wm.outputs@[target_idx as int].focused_workspace_idx == old(wm).outputs@[target_idx as int].focused_workspace_idx,
            wm.outputs@[target_idx as int].name == old(wm).outputs@[target_idx as int].name,
            wm.focused_output_idx == old(wm).focused_output_idx,
            wm.detached_outputs == old(wm).detached_outputs,
            wm.overview_state == old(wm).overview_state,
            wm.status == old(wm).status,
            wm.pending_windows == old(wm).pending_windows,
            tag == Some(*key),
            same_output_fields(old(wm).outputs@[target_idx as int], wm.outputs@[target_idx as int]),
            *wm == (WindowManager { outputs: wm.outputs, requests: wm.requests, ..*old(wm) }),
            wm.requests@ == old(wm).requests@ + leave_fullscreen_workspaces(orig, j as int),
            forall|v: int, k: int| 0 <= v < j && 0 <= k < orig[v].window_list@.len() ==>
                (#[trigger] wm.ws(target_idx as int, v).window_list@[old(wm).ws(target_idx as int, v).window_list@.len() + k]).geom.former_output_name
                    == (if orig[v].window_list@[k].geom.former_output_name is Some {
                        orig[v].window_list@[k].geom.former_output_name
                    } else {
                        Some(*key)
                    }),
        decreases NUM_WORKSPACES - j,
    {
        let ghost w0 = *wm;
        let ghost d0 = detached.workspace_list@;
        let mut src = Workspace::new();
        std::mem::swap(&mut src, &mut detached.workspace_list[j]);
        proof {
            assert(src == orig[j as int]);
            assert(orig[j as int].wf());
            assert forall|v: int| j < v < NUM_WORKSPACES implies #[trigger] detached.workspace_list@[v] == orig[v] by {
                assert(detached.workspace_list@[v] == d0[v]);
            }
        }
        let mut dst = wm.take_workspace(target_idx, j);
        let ghost w2 = *wm;
        drain_into(wm, &mut src, &mut dst, &tag, true);
        let ghost w3 = *wm;
        wm.put_workspace(target_idx, j, dst);
        proof {
            assert(w3.outputs == w2.outputs);
            assert forall|v: int| 0 <= v < NUM_WORKSPACES && v != j implies
                #[trigger] wm.ws(target_idx as int, v) == w0.ws(target_idx as int, v) by {
                assert(w2.ws(target_idx as int, v) == w0.ws(target_idx as int, v));
                assert(wm.ws(target_idx as int, v) == w3.ws(target_idx as int, v));
            }
            assert forall|i: int| 0 <= i < wm.outputs@.len() && i != target_idx
                implies wm.outputs@[i] == w0.outputs@[i] by {
                assert(w2.outputs@[i] == w0.outputs@[i]);
            }
            assert(wm.requests@ =~= old(wm).requests@ + leave_fullscreen_workspaces(orig, j + 1));
            assert forall|v: int, k: int| 0 <= v < j + 1 && 0 <= k < orig[v].window_list@.len() implies
                (#[trigger] wm.ws(target_idx as int, v).window_list@[old(wm).ws(target_idx as int, v).window_list@.len() + k]).geom.former_output_name
                    == (if orig[v].window_list@[k].geom.former_output_name is Some {
                        orig[v].window_list@[k].geom.former_output_name
                    } else {
                        Some(*key)
                    }) by {
                if v < j {
                    assert(wm.ws(target_idx as int, v) == w0.ws(target_idx as int, v));
                } else {
                    assert(w0.ws(target_idx as int, v) == old(wm).ws(target_idx as int, v));
                    assert(wm.ws(target_idx as int, v) == dst);
                }
            }
        }
        j = j + 1;
    }
}

/// The window remembers the output named `name`.
pub open spec fn tagged(w: Window, name: Seq<char>) -> bool {
    w.geom.former_output_name matches Some(n) && n@ == name
}

/// The focus left after the tagged windows of `list` are taken out: for
/// each removed index, from the highest down, a
/// focus at or after it moves one to the left (and is lost at 0).
pub open spec fn focus_after_removals(f: Option<usize>, list: Seq<Window>, name: Seq<char>) -> Option<usize>
    decreases list.len(),
{
    if list.len() == 0 {
        f
    } else {
        let i = list.len() - 1;
        let f2 = if tagged(list[i], name) && (f is Some && f->0 >= i) {
            if f->0 > 0 { Some((f->0 - 1) as usize) } else { None }
        } else {
            f
        };
        focus_after_removals(f2, list.drop_last(), name)
    }
}

/// The windows of `list` that do (or do not) remember `name`.
pub open spec fn tagged_part(list: Seq<Window>, name: Seq<char>, want: bool) -> Seq<Window> {
    list.filter(|w: Window| tagged(w, name) == want)
}

/// The tagged and the untagged windows together are the whole row.
proof fn lemma_parts_len(list: Seq<Window>, name: Seq<char>)
    ensures
        tagged_part(list, name, false).len() + tagged_part(list, name, true).len() == list.len(),
    decreases list.len(),
{
    reveal_with_fuel(Seq::filter, 2);
    if list.len() > 0 {
        let rest = list.drop_last();
        assert(list =~= rest.push(list.last()));
        rest.lemma_filter_push(list.last(), |w: Window| tagged(w, name) == false);
        rest.lemma_filter_push(list.last(), |w: Window| tagged(w, name) == true);
        lemma_parts_len(rest, name);
    }
}

/// A lost focus stays lost.
proof fn lemma_focus_none_stays(list: Seq<Window>, name: Seq<char>)
    ensures
        focus_after_removals(None, list, name) is None,
    decreases list.len(),
{
    if list.len() > 0 {
        lemma_focus_none_stays(list.drop_last(), name);
    }
}

/// A focus at or past the last window is moved left once per tagged
/// window (or lost).
proof fn lemma_focus_from_end(x: usize, list: Seq<Window>, name: Seq<char>)
    requires
        x + 1 >= list.len(),
    ensures
        focus_after_removals(Some(x), list, name) matches Some(y)
            ==> y == x - tagged_part(list, name, true).len(),
    decreases list.len(),
{
    reveal_with_fuel(Seq::filter, 2);
    if list.len() > 0 {
        let i = list.len() - 1;
        let rest = list.drop_last();
        assert(list =~= rest.push(list.last()));
        rest.lemma_filter_push(list.last(), |w: Window| tagged(w, name) == true);
        if tagged(list[i], name) {
            if x > 0 {
                lemma_focus_from_end((x - 1) as usize, rest, name);
            } else {
                lemma_focus_none_stays(rest, name);
            }
        } else {
            lemma_focus_from_end(x, rest, name);
        }
    }
}

/// The focus computed by `focus_after_removals` names a kept window.
proof fn lemma_focus_after_removals_valid(f: Option<usize>, list: Seq<Window>, name: Seq<char>)
    requires
        f matches Some(x) ==> x < list.len(),
    ensures
        focus_after_removals(f, list, name) matches Some(y) ==> y < tagged_part(list, name, false).len(),
    decreases list.len(),
{
    reveal_with_fuel(Seq::filter, 2);
    if list.len() > 0 {
        let i = list.len() - 1;
        let rest = list.drop_last();
        assert(list =~= rest.push(list.last()));
        rest.lemma_filter_push(list.last(), |w: Window| tagged(w, name) == false);
        rest.lemma_filter_push(list.last(), |w: Window| tagged(w, name) == true);
        match f {
            None => {
                lemma_focus_none_stays(list, name);
            }
            Some(x) => {
                if tagged(list[i], name) {
                    if x >= i {
                        if x > 0 {
                            lemma_focus_after_removals_valid(Some((x - 1) as usize), rest, name);
                        } else {
                            lemma_focus_none_stays(rest, name);
                        }
                    } else {
                        lemma_focus_after_removals_valid(f, rest, name);
                    }
                } else {
                    if x < i {
                        lemma_focus_after_removals_valid(f, rest, name);
                    } else {
                        lemma_focus_from_end(x, rest, name);
                        lemma_parts_len(rest, name);
                    }
                }
            }
        }
    }
}

/// Whether a window remembers the output named `name`.
fn is_tagged(w: &Window, name: &str) -> (r: bool)
    ensures
        r == tagged(*w, name@),
{
    match &w.geom.former_output_name {
        Some(n) => crate::text::str_equals(n.as_str(), name),
        None => false,
    }
}

/// The ids of a row of windows.
pub open spec fn window_ids(list: Seq<Window>) -> Seq<u32> {
    list.map_values(|w: Window| w.id)
}

/// Nothing tagged: the tagged part is empty.
pub proof fn lemma_none_tagged(list: Seq<Window>, name: Seq<char>)
    requires
        forall|m: int| 0 <= m < list.len() ==> !tagged(#[trigger] list[m], name),
    ensures
        tagged_part(list, name, true).len() == 0,
    decreases list.len(),
{
    reveal_with_fuel(Seq::filter, 2);
    if list.len() > 0 {
        let rest = list.drop_last();
        assert(list =~= rest.push(list.last()));
        rest.lemma_filter_push(list.last(), |w: Window| tagged(w, name) == true);
        assert forall|m: int| 0 <= m < rest.len() implies !tagged(#[trigger] rest[m], name) by {
            assert(rest[m] == list[m]);
        }
        lemma_none_tagged(rest, name);
    }
}

/// Something tagged: the tagged part is not empty.
proof fn lemma_some_tagged(list: Seq<Window>, name: Seq<char>, m: int)
    requires
        0 <= m < list.len(),
        tagged(list[m], name),
    ensures
        tagged_part(list, name, true).len() > 0,
{
    let p = |w: Window| tagged(w, name) == true;
    list.lemma_filter_contains(p, m);
    assert(list.filter(p).contains(list[m]));
}

/// The windows of a row with the remembered output forgotten; nothing
/// else about them changes.
pub open spec fn forgotten(list: Seq<Window>) -> Seq<Window> {
    list.map_values(|w: Window| Window { geom: WindowGeom { former_output_name: None, ..w.geom }, ..w })
}

/// Move the windows of workspace `ws_idx` on output `src_idx` that remember
/// the output named `dst_name` to the same workspace on `dst_idx`, in
/// front of the windows there and in their original order, and forget the
/// remembered name. The source focus follows
/// `focus_after_removals`; a destination without focus focuses its first
/// window (an existing destination focus index is kept as it is). Returns
/// whether anything moved; when nothing did, nothing changes.
pub fn migrate_windows_by_name(
    wm: &mut WindowManager,
    src_idx: usize,
    dst_idx: usize,
    ws_idx: usize,
    dst_name: &String,
) -> (moved_any: bool)
    requires
        old(wm).wf(),
        src_idx < old(wm).outputs@.len(),
        dst_idx < old(wm).outputs@.len(),
        src_idx != dst_idx,
        ws_idx < NUM_WORKSPACES,
    ensures
        final(wm).wf(),
        final(wm).outputs@.len() == old(wm).outputs@.len(),
        moved_any == (tagged_part(old(wm).ws(src_idx as int, ws_idx as int).window_list@, dst_name@, true).len() > 0),
        !moved_any ==> final(wm).outputs == old(wm).outputs,
        !moved_any ==> *final(wm) == *old(wm),
        *final(wm) == (WindowManager { outputs: final(wm).outputs, ..*old(wm) }),
        same_output_fields(old(wm).outputs@[src_idx as int], final(wm).outputs@[src_idx as int]),
        same_output_fields(old(wm).outputs@[dst_idx as int], final(wm).outputs@[dst_idx as int]),
        moved_any ==> final(wm).ws(dst_idx as int, ws_idx as int).window_list@
            == forgotten(tagged_part(old(wm).ws(src_idx as int, ws_idx as int).window_list@, dst_name@, true))
                + old(wm).ws(dst_idx as int, ws_idx as int).window_list@,
        moved_any ==> {
            let src0 = old(wm).ws(src_idx as int, ws_idx as int);
            let dst0 = old(wm).ws(dst_idx as int, ws_idx as int);
            &&& final(wm).ws(src_idx as int, ws_idx as int).ids()
                == window_ids(tagged_part(src0.window_list@, dst_name@, false))
            &&& final(wm).ws(src_idx as int, ws_idx as int).window_list@ == tagged_part(src0.window_list@, dst_name@, false)
            &&& final(wm).ws(dst_idx as int, ws_idx as int).ids()
                == window_ids(tagged_part(src0.window_list@, dst_name@, true)) + dst0.ids()
            &&& final(wm).ws(src_idx as int, ws_idx as int).focused_window_idx
                == focus_after_removals(src0.focused_window_idx, src0.window_list@, dst_name@)
            &&& final(wm).ws(dst_idx as int, ws_idx as int).focused_window_idx == (match dst0.focused_window_idx {
                Some(f) => Some(f),
                None => Some(0usize),
            })
        },
        forall|i: int| 0 <= i < final(wm).outputs@.len() && i != src_idx && i != dst_idx ==> final(wm).outputs@[i] == old(wm).outputs@[i],
        forall|j: int| 0 <= j < NUM_WORKSPACES && j != ws_idx ==> #[trigger] final(wm).ws(src_idx as int, j) == old(wm).ws(src_idx as int, j),
        forall|j: int| 0 <= j < NUM_WORKSPACES && j != ws_idx ==> #[trigger] final(wm).ws(dst_idx as int, j) == old(wm).ws(dst_idx as int, j),
        final(wm).outputs@[src_idx as int].is_removed == old(wm).outputs@[src_idx as int].is_removed,
        final(wm).outputs@[dst_idx as int].is_removed == old(wm).outputs@[dst_idx as int].is_removed,
        final(wm).outputs@[src_idx as int].name == old(wm).outputs@[src_idx as int].name,
        final(wm).outputs@[dst_idx as int].name == old(wm).outputs@[dst_idx as int].name,
        final(wm).outputs@[src_idx as int].focused_workspace_idx == old(wm).outputs@[src_idx as int].focused_workspace_idx,
        final(wm).outputs@[dst_idx as int].focused_workspace_idx == old(wm).outputs@[dst_idx as int].focused_workspace_idx,
        final(wm).focused_output_idx == old(wm).focused_output_idx,
        final(wm).detached_outputs == old(wm).detached_outputs,
        final(wm).overview_state == old(wm).overview_state,
        final(wm).status == old(wm).status,
        final(wm).requests == old(wm).requests,
        final(wm).pending_windows == old(wm).pending_windows,
        final(wm).pending_ready == old(wm).pending_ready,
{
    let target = dst_name.as_str();
    proof { assert(wm.outputs@[src_idx as int].wf()); }
    // Which windows remember the destination.
    let mut tags: Vec<bool> = Vec::new();
    let mut any = false;
    let n = wm.outputs[src_idx].workspace_list[ws_idx].window_list.len();
    let ghost list0 = wm.ws(src_idx as int, ws_idx as int).window_list@;
    let mut m: usize = 0;
    while m < n
        invariant
            *wm == *old(wm),
            target@ == dst_name@,
            src_idx < wm.outputs@.len(),
            ws_idx < NUM_WORKSPACES,
            wm.outputs@[src_idx as int].workspace_list@.len() == NUM_WORKSPACES,
            list0 == wm.ws(src_idx as int, ws_idx as int).window_list@,
            n == list0.len(),
            m <= n,
            tags@.len() == m,
            forall|q: int| 0 <= q < m ==> #[trigger] tags@[q] == tagged(list0[q], dst_name@),
            any == exists|q: int| 0 <= q < m && tagged(#[trigger] list0[q], dst_name@),
        decreases n - m,
    {
        let t = is_tagged(&wm.outputs[src_idx].workspace_list[ws_idx].window_list[m], target);
        tags.push(t);
        if t {
            any = true;
        }
        m = m + 1;
    }
    if !any {
        proof { lemma_none_tagged(list0, dst_name@); }
        return false;
    }
    proof {
        let q = choose|q: int| 0 <= q < n && tagged(#[trigger] list0[q], dst_name@);
        lemma_some_tagged(list0, dst_name@, q);
    }

    let mut src = wm.take_workspace(src_idx, ws_idx);
    let ghost src0 = src;
    let src_focus = src.focused_window_idx;
    let mut moved: Vec<Window> = Vec::new();
    let mut kept: Vec<Window> = Vec::new();
    let mut k: usize = 0;
    while k < n
        invariant
            src.window_list@ == list0.skip(k as int),
            list0 == src0.window_list@,
            n == list0.len(),
            tags@.len() == n,
            forall|q: int| 0 <= q < n ==> #[trigger] tags@[q] == tagged(list0[q], dst_name@),
            k <= n,
            window_ids(moved@) == window_ids(tagged_part(list0.take(k as int), dst_name@, true)),
            window_ids(kept@) == window_ids(tagged_part(list0.take(k as int), dst_name@, false)),
            kept@ == tagged_part(list0.take(k as int), dst_name@, false),
            moved@ == forgotten(tagged_part(list0.take(k as int), dst_name@, true)),
        decreases n - k,
    {
        let mut w = src.window_list.remove(0);
        let ghost w0 = list0[k as int];
        proof {
            assert(list0.skip(k as int)[0] == w0);
            assert(list0.take(k + 1) =~= list0.take(k as int).push(w0));
            list0.take(k as int).lemma_filter_push(w0, |x: Window| tagged(x, dst_name@) == true);
            list0.take(k as int).lemma_filter_push(w0, |x: Window| tagged(x, dst_name@) == false);
            assert(list0.skip(k as int).drop_first() =~= list0.skip(k + 1));
        }
        if tags[k] {
            w.geom.former_output_name = None;
            let ghost mv = moved@;
            moved.push(w);
            proof {
                assert(window_ids(moved@) =~= window_ids(mv).push(w0.id));
                assert(moved@ =~= forgotten(tagged_part(list0.take(k + 1), dst_name@, true)));
            }
        } else {
            let ghost kp = kept@;
            kept.push(w);
            proof {
                assert(window_ids(kept@) =~= window_ids(kp).push(w0.id));
                assert(w == w0);
            }
        }
        k = k + 1;
    }
    proof { assert(list0.take(n as int) =~= list0); }

    // The indices are removed from the highest down, fixing the focus after
    // each removal.
    let mut focus = src_focus;
    let mut i: usize = n;
    while i > 0
        invariant
            i <= n,
            n == list0.len(),
            tags@.len() == n,
            forall|q: int| 0 <= q < n ==> #[trigger] tags@[q] == tagged(list0[q], dst_name@),
            focus_after_removals(focus, list0.take(i as int), dst_name@)
                == focus_after_removals(src0.focused_window_idx, list0, dst_name@),
        decreases i,
    {
        i = i - 1;
        proof {
            assert(list0.take(i + 1).drop_last() =~= list0.take(i as int));
            assert(list0.take(i + 1)[i as int] == list0[i as int]);
        }
        if tags[i] {
            if let Some(f) = focus {
                if f >= i {
                    focus = if f > 0 { Some(f - 1) } else { None };
                }
            }
        }
    }
    proof {
        assert(list0.take(0) =~= Seq::<Window>::empty());
        assert(list0.take(n as int) =~= list0);
        lemma_focus_after_removals_valid(src0.focused_window_idx, list0, dst_name@);
        assert(kept@.len() == window_ids(kept@).len());
        assert(tagged_part(list0, dst_name@, false).len() == window_ids(tagged_part(list0, dst_name@, false)).len());
    }
    src.window_list = kept;
    src.focused_window_idx = focus;
    let ghost w1 = *wm;
    wm.put_workspace(src_idx, ws_idx, src);
    let ghost w2 = *wm;

    let mut dst = wm.take_workspace(dst_idx, ws_idx);
    let ghost w3 = *wm;
    let ghost dst0 = dst;
    let mut rest = Vec::new();
    std::mem::swap(&mut rest, &mut dst.window_list);
    let mut front = moved;
    let ghost fr = front@;
    front.append(&mut rest);
    proof {
        assert(window_ids(front@) =~= window_ids(fr) + dst0.ids());
    }
    dst.window_list = front;
    if dst.focused_window_idx.is_none() {
        dst.focused_window_idx = Some(0);
    }
    proof {
        assert(dst.ids() == window_ids(dst.window_list@));
        assert(window_ids(fr).len() > 0);
    }
    wm.put_workspace(dst_idx, ws_idx, dst);
    proof {
        assert forall|j: int| 0 <= j < NUM_WORKSPACES && j != ws_idx implies
            #[trigger] wm.ws(src_idx as int, j) == old(wm).ws(src_idx as int, j) by {
            assert(w1.ws(src_idx as int, j) == old(wm).ws(src_idx as int, j));
            assert(w2.ws(src_idx as int, j) == w1.ws(src_idx as int, j));
            assert(w3.outputs@[src_idx as int] == w2.outputs@[src_idx as int]);
            assert(wm.outputs@[src_idx as int] == w3.outputs@[src_idx as int]);
        }
        assert forall|j: int| 0 <= j < NUM_WORKSPACES && j != ws_idx implies
            #[trigger] wm.ws(dst_idx as int, j) == old(wm).ws(dst_idx as int, j) by {
            assert(w1.outputs@[dst_idx as int] == old(wm).outputs@[dst_idx as int]);
            assert(w2.outputs@[dst_idx as int] == w1.outputs@[dst_idx as int]);
            assert(w3.ws(dst_idx as int, j) == w2.ws(dst_idx as int, j));
            assert(wm.ws(dst_idx as int, j) == w3.ws(dst_idx as int, j));
        }
    }
    true
}

/// A focus index after the entry at `removed_idx` was swap-removed from a
/// list of `old_len` entries (the last entry moved into its slot): a focus
/// on the removed entry moves to the entry now in its place (the new last
/// one when it was last, none when the list is now empty); a focus on the
/// last entry follows it to `removed_idx`; others stay.
pub open spec fn swap_fixed(f: Option<usize>, removed_idx: usize, old_len: usize) -> Option<usize> {
    match f {
        Some(f) => if f == removed_idx {
            if old_len > 1 {
                Some(if removed_idx <= old_len - 2 { removed_idx } else { (old_len - 2) as usize })
            } else {
                None::<usize>
            }
        } else if f + 1 == old_len {
            Some(removed_idx)
        } else {
            Some(f)
        },
        None => None::<usize>,
    }
}

/// Fix a focused output index after the output at `removed_idx` was
/// swap-removed from a list of `old_len` entries (see `swap_fixed`).
pub fn fixup_indices_after_output_removal(focused: &mut Option<usize>, removed_idx: usize, old_len: usize)
    ensures
        *final(focused) == swap_fixed(*old(focused), removed_idx, old_len),
{
    if let Some(foi) = *focused {
        if foi == removed_idx {
            if old_len > 1 {
                let last = old_len - 2;
                *focused = Some(if removed_idx <= last { removed_idx } else { last });
            } else {
                *focused = None;
            }
        } else if old_len > 0 && foi == old_len - 1 {
            *focused = Some(removed_idx);
        }
    }
}

/// Law: after swap-removing one entry of a list, a fixed-up index still
/// names an entry of the shorter list.
pub proof fn law_fixup_stays_in_bounds(f: usize, removed_idx: usize, old_len: usize)
    requires
        f < old_len,
        removed_idx < old_len,
    ensures
        (match swap_fixed(Some(f), removed_idx, old_len) {
            Some(g) => g < old_len - 1,
            None => old_len == 1,
        }),
{
}

} // verus!
