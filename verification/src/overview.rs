//! The overview: every window of every output in a grid on the focused
//! output, navigated with the keyboard.

use vstd::prelude::*;
use crate::actions::{is_overview_only, overview_only};
use crate::wm::{OverviewHome, OverviewState, Request, Status, WindowManager, XkbBinding, NUM_WORKSPACES};

verus! {

/// The window ids of workspaces `0..k` of output `o`, in order.
pub open spec fn output_ids(wm: WindowManager, o: int, k: int) -> Seq<u32>
    decreases k,
{
    if k <= 0 {
        Seq::empty()
    } else {
        output_ids(wm, o, k - 1) + wm.ws(o, k - 1).ids()
    }
}

/// The window ids of outputs `0..k` still present, output by output.
pub open spec fn all_ids(wm: WindowManager, k: int) -> Seq<u32>
    decreases k,
{
    if k <= 0 {
        Seq::empty()
    } else {
        all_ids(wm, k - 1) + if wm.outputs@[k - 1].is_removed { Seq::empty() } else { output_ids(wm, k - 1, NUM_WORKSPACES as int) }
    }
}

/// Every window id the overview shows.
pub open spec fn overview_entries(wm: WindowManager) -> Seq<u32> {
    all_ids(wm, wm.outputs@.len() as int)
}

/// The number of grid columns for `n` entries: the smallest `c >= 1` with
/// `c * c >= n`.
pub open spec fn is_grid_columns(c: int, n: int) -> bool {
    &&& c >= 1
    &&& c * c >= n
    &&& (c == 1 || (c - 1) * (c - 1) < n)
}

/// `c * c < n`, without overflow.
fn square_less(c: usize, n: usize) -> (r: bool)
    ensures
        r == (c * c < n),
{
    proof {
        assert((c as int) * (c as int) <= 0xffff_ffff_ffff_ffff * 0xffff_ffff_ffff_ffff) by (nonlinear_arith)
            requires 0 <= c <= 0xffff_ffff_ffff_ffff;
    }
    (c as u128) * (c as u128) < n as u128
}

/// See `is_grid_columns`.
pub fn grid_columns(n: usize) -> (c: usize)
    ensures
        is_grid_columns(c as int, n as int),
{
    let mut c: usize = 1;
    while square_less(c, n)
        invariant
            1 <= c,
            c == 1 || (c - 1) * (c - 1) < n,
            c <= n + 1,
        decreases n + 1 - c,
    {
        proof {
            assert(c < n) by (nonlinear_arith)
                requires c >= 1, c * c < n;
        }
        c = c + 1;
    }
    c
}

/// The requests that enable (or disable) the overview-only bindings among
/// `bindings[0..k]`.
pub open spec fn overview_toggle_requests(bindings: Seq<XkbBinding>, enabled: bool, k: int) -> Seq<Request>
    decreases k,
{
    if k <= 0 {
        Seq::empty()
    } else {
        overview_toggle_requests(bindings, enabled, k - 1) + if is_overview_only(bindings[k - 1].action) {
            seq![if enabled { Request::EnableXkbBinding((k - 1) as usize) } else { Request::DisableXkbBinding((k - 1) as usize) }]
        } else {
            Seq::empty()
        }
    }
}

/// Enable or disable the bare-key bindings that only mean something while
/// the overview is open (confirm, cancel, navigation); the others are left
/// alone.
pub fn set_overview_keybinds(wm: &mut WindowManager, enabled: bool)
    ensures
        final(wm).requests@ == old(wm).requests@ + overview_toggle_requests(old(wm).xkb_bindings@, enabled, old(wm).xkb_bindings@.len() as int),
        final(wm).outputs == old(wm).outputs,
        crate::wm::others_equal(*old(wm), *final(wm)),
        final(wm).focused_output_idx == old(wm).focused_output_idx,
        final(wm).overview_state == old(wm).overview_state,
        final(wm).detached_outputs == old(wm).detached_outputs,
        final(wm).status == old(wm).status,
        final(wm).pending_windows == old(wm).pending_windows,
        final(wm).pending_ready == old(wm).pending_ready,
        final(wm).config == old(wm).config,
{
    let n = wm.xkb_bindings.len();
    let ghost r0 = wm.requests@;
    let mut i: usize = 0;
    while i < n
        invariant
            n == wm.xkb_bindings@.len(),
            wm.xkb_bindings == old(wm).xkb_bindings,
            wm.outputs == old(wm).outputs,
            crate::wm::others_equal(*old(wm), *wm),
            wm.focused_output_idx == old(wm).focused_output_idx,
            wm.overview_state == old(wm).overview_state,
            wm.detached_outputs == old(wm).detached_outputs,
            wm.status == old(wm).status,
            wm.pending_windows == old(wm).pending_windows,
            wm.pending_ready == old(wm).pending_ready,
            wm.config == old(wm).config,
            r0 == old(wm).requests@,
            i <= n,
            wm.requests@ == r0 + overview_toggle_requests(wm.xkb_bindings@, enabled, i as int),
        decreases n - i,
    {
        if overview_only(&wm.xkb_bindings[i].action) {
            if enabled {
                wm.send(Request::EnableXkbBinding(i));
            } else {
                wm.send(Request::DisableXkbBinding(i));
            }
        }
        proof {
            assert(wm.requests@ =~= r0 + overview_toggle_requests(wm.xkb_bindings@, enabled, i + 1));
        }
        i = i + 1;
    }
}

/// Collect every window id (see `overview_entries`).
fn collect_entries(wm: &WindowManager) -> (r: Vec<u32>)
    requires
        wm.wf(),
    ensures
        r@ == overview_entries(*wm),
{
    let mut r: Vec<u32> = Vec::new();
    let mut o: usize = 0;
    while o < wm.outputs.len()
        invariant
            wm.wf(),
            o <= wm.outputs@.len(),
            r@ == all_ids(*wm, o as int),
        decreases wm.outputs@.len() - o,
    {
        if !wm.outputs[o].is_removed {
            proof { assert(wm.outputs@[o as int].wf()); }
            let ghost base = r@;
            let mut w: usize = 0;
            while w < NUM_WORKSPACES
                invariant
                    wm.wf(),
                    o < wm.outputs@.len(),
                    wm.outputs@[o as int].workspace_list@.len() == NUM_WORKSPACES,
                    w <= NUM_WORKSPACES,
                    r@ == base + output_ids(*wm, o as int, w as int),
                decreases NUM_WORKSPACES - w,
            {
                let list = &wm.outputs[o].workspace_list[w].window_list;
                let ghost mid = r@;
                let mut i: usize = 0;
                while i < list.len()
                    invariant
                        *list == wm.ws(o as int, w as int).window_list,
                        i <= list@.len(),
                        r@ == mid + wm.ws(o as int, w as int).ids().take(i as int),
                    decreases list@.len() - i,
                {
                    r.push(list[i].id);
                    proof {
                        assert(wm.ws(o as int, w as int).ids().take(i + 1) =~= wm.ws(o as int, w as int).ids().take(i as int).push(list@[i as int].id));
                    }
                    i = i + 1;
                }
                proof {
                    assert(wm.ws(o as int, w as int).ids().take(list@.len() as int) =~= wm.ws(o as int, w as int).ids());
                    assert(r@ =~= base + output_ids(*wm, o as int, w + 1));
                }
                w = w + 1;
            }
            proof {
                assert(r@ =~= all_ids(*wm, o + 1));
            }
        } else {
            proof {
                assert(r@ =~= all_ids(*wm, o + 1));
            }
        }
        o = o + 1;
    }
    r
}

/// The overview cannot open: it is open already, no output is focused,
/// or there is no window.
pub open spec fn cannot_enter(a: WindowManager) -> bool {
    a.overview_state is Some || a.focused_output_idx is None || overview_entries(a).len() == 0
}

/// What opening the overview does: where it cannot open nothing changes;
/// otherwise the grid holds every window (`overview_entries`), in the
/// fewest columns that make it square or wider, with the first entry
/// highlighted, remembers where it was opened from, and the overview-only
/// bindings are enabled.
pub open spec fn enter_effect(a: WindowManager, b: WindowManager) -> bool {
    if cannot_enter(a) {
        b == a
    } else {
        &&& b.overview_state matches Some(ov) && {
            &&& ov.entries@ == overview_entries(a)
            &&& is_grid_columns(ov.columns as int, ov.entries@.len() as int)
            &&& ov.home == (OverviewHome {
                output_idx: a.focused_output_idx->0,
                workspace_idx: a.outputs@[a.focused_output_idx->0 as int].focused_workspace_idx,
            })
            &&& ov.highlighted == 0
        }
        &&& b.requests@ == a.requests@ + overview_toggle_requests(a.xkb_bindings@, true, a.xkb_bindings@.len() as int)
        &&& b == (WindowManager { overview_state: b.overview_state, requests: b.requests, ..a })
    }
}

/// Open the overview (see `enter_effect`).
pub fn enter(wm: &mut WindowManager)
    requires
        old(wm).wf(),
    ensures
        final(wm).wf(),
        enter_effect(*old(wm), *final(wm)),
{
    if wm.overview_state.is_some() {
        return;
    }
    let foi = match wm.focused_output_idx {
        Some(f) => f,
        None => return,
    };
    let entries = collect_entries(wm);
    if entries.len() == 0 {
        return;
    }
    proof { assert(wm.outputs@[foi as int].wf()); }
    let highlighted: usize = 0;
    let columns = grid_columns(entries.len());
    let home = OverviewHome { output_idx: foi, workspace_idx: wm.outputs[foi].focused_workspace_idx };
    wm.overview_state = Some(OverviewState { entries, columns, highlighted, home });
    set_overview_keybinds(wm, true);
}

/// Close the overview and go back to where it was opened (when that
/// output and workspace still exist); the overview-only bindings are
/// disabled.
pub fn cancel(wm: &mut WindowManager)
    requires
        old(wm).wf(),
    ensures
        final(wm).wf(),
        final(wm).overview_state is None,
        final(wm).outputs@.len() == old(wm).outputs@.len(),
        final(wm).status == old(wm).status,
        final(wm).pending_windows == old(wm).pending_windows,
        final(wm).detached_outputs == old(wm).detached_outputs,
        final(wm).xkb_bindings == old(wm).xkb_bindings,
        old(wm).overview_state matches Some(ov) ==> (ov.home.output_idx < old(wm).outputs@.len() && ov.home.workspace_idx < NUM_WORKSPACES
            && !old(wm).outputs@[ov.home.output_idx as int].is_removed ==> {
            &&& final(wm).focused_output_idx == Some(ov.home.output_idx)
            &&& final(wm).outputs@[ov.home.output_idx as int].focused_workspace_idx == ov.home.workspace_idx
        }),
        forall|o: int, w: int| 0 <= o < final(wm).outputs@.len() && 0 <= w < NUM_WORKSPACES ==> #[trigger] final(wm).ws(o, w) == old(wm).ws(o, w),
        forall|o: int| 0 <= o < final(wm).outputs@.len() ==> (#[trigger] final(wm).outputs@[o]).is_removed == old(wm).outputs@[o].is_removed,
        final(wm).requests@ == old(wm).requests@ + overview_toggle_requests(old(wm).xkb_bindings@, false, old(wm).xkb_bindings@.len() as int),
        cancelled(*old(wm), *final(wm)),
{
    let home = match &wm.overview_state {
        Some(ov) => Some(ov.home),
        None => None,
    };
    wm.overview_state = None;
    if let Some(h) = home {
        if h.output_idx < wm.outputs.len() && h.workspace_idx < NUM_WORKSPACES && !wm.outputs[h.output_idx].is_removed {
            let ghost before = wm.outputs@;
            wm.outputs[h.output_idx].focused_workspace_idx = h.workspace_idx;
            wm.focused_output_idx = Some(h.output_idx);
            proof {
                assert forall|o: int| 0 <= o < wm.outputs@.len() implies #[trigger] wm.outputs@[o].wf() by {
                    assert(before[o].wf());
                }
                assert(wm.outputs@ =~= before.update(h.output_idx as int,
                    crate::wm::Output { focused_workspace_idx: h.workspace_idx, ..before[h.output_idx as int] }));
            }
        }
    }
    set_overview_keybinds(wm, false);
}

/// `b` is `a` with the overview closed where it was opened (when that
/// place still exists); requests aside, nothing else differs.
pub open spec fn cancelled(a: WindowManager, b: WindowManager) -> bool {
    if home_ok(a) {
        let h = a.overview_state->0.home;
        &&& b.outputs@ == a.outputs@.update(h.output_idx as int,
            crate::wm::Output { focused_workspace_idx: h.workspace_idx, ..a.outputs@[h.output_idx as int] })
        &&& b == (WindowManager {
            overview_state: None,
            outputs: b.outputs,
            focused_output_idx: Some(h.output_idx),
            requests: b.requests,
            ..a
        })
    } else {
        b == (WindowManager { overview_state: None, requests: b.requests, ..a })
    }
}

/// `b` is `a` with the overview closed on window `i` of workspace
/// `(o, w)`: the window is focused, the workspace shown, the output
/// focused; requests aside, nothing else differs.
pub open spec fn selected(a: WindowManager, b: WindowManager, o: int, w: int, i: int) -> bool {
    &&& b.outputs@.len() == a.outputs@.len()
    &&& forall|q: int| 0 <= q < a.outputs@.len() && q != o ==> #[trigger] b.outputs@[q] == a.outputs@[q]
    &&& b.outputs@[o].id == a.outputs@[o].id
    &&& b.outputs@[o].name == a.outputs@[o].name
    &&& b.outputs@[o].rectangle == a.outputs@[o].rectangle
    &&& b.outputs@[o].non_exclusive == a.outputs@[o].non_exclusive
    &&& b.outputs@[o].has_layer_shell == a.outputs@[o].has_layer_shell
    &&& b.outputs@[o].is_removed == a.outputs@[o].is_removed
    &&& b.outputs@[o].focused_workspace_idx == w
    &&& forall|v: int| 0 <= v < NUM_WORKSPACES && v != w ==> #[trigger] b.ws(o, v) == a.ws(o, v)
    &&& b.ws(o, w).window_list == a.ws(o, w).window_list
    &&& b.ws(o, w).focused_window_idx == Some(i as usize)
    &&& b == (WindowManager { overview_state: None, outputs: b.outputs, focused_output_idx: Some(o as usize), requests: b.requests, ..a })
}

/// `b` is `a` after confirming the overview: the highlighted window is
/// focused (see `selected`) when it still exists; otherwise the overview
/// closes as on cancel.
pub open spec fn select_result(a: WindowManager, b: WindowManager) -> bool {
    if a.overview_state matches Some(ov) && crate::focus::window_exists(a, ov.entries@[ov.highlighted as int]) {
        exists|o: int, w: int, i: int|
            0 <= o < a.outputs@.len() && 0 <= w < NUM_WORKSPACES && 0 <= i < a.ws(o, w).window_list@.len()
                && #[trigger] a.ws(o, w).window_list@[i].id == a.overview_state->0.entries@[a.overview_state->0.highlighted as int]
                && selected(a, b, o, w, i)
    } else {
        cancelled(a, b)
    }
}

/// The overview is open and the place it was opened from still exists.
pub open spec fn home_ok(wm: WindowManager) -> bool {
    wm.overview_state matches Some(ov) && {
        &&& ov.home.output_idx < wm.outputs@.len()
        &&& ov.home.workspace_idx < NUM_WORKSPACES
        &&& !wm.outputs@[ov.home.output_idx as int].is_removed
    }
}

/// Close the overview on the highlighted window: its output, workspace
/// and window get focus (when it still exists); the overview-only
/// bindings are disabled.
pub fn select(wm: &mut WindowManager)
    requires
        old(wm).wf(),
    ensures
        final(wm).wf(),
        final(wm).overview_state is None,
        final(wm).outputs@.len() == old(wm).outputs@.len(),
        final(wm).status == old(wm).status,
        final(wm).pending_windows == old(wm).pending_windows,
        forall|o: int| 0 <= o < final(wm).outputs@.len() ==> (#[trigger] final(wm).outputs@[o]).is_removed == old(wm).outputs@[o].is_removed,
        old(wm).overview_state matches Some(ov) ==> (crate::focus::window_exists(*old(wm), ov.entries@[ov.highlighted as int])
            ==> final(wm).spec_focused_window_id() == Some(ov.entries@[ov.highlighted as int])),
        final(wm).requests@ == old(wm).requests@ + overview_toggle_requests(old(wm).xkb_bindings@, false, old(wm).xkb_bindings@.len() as int),
        select_result(*old(wm), *final(wm)),
{
    let target = match &wm.overview_state {
        Some(ov) => Some(ov.entries[ov.highlighted]),
        None => None,
    };
    let id = match target {
        Some(id) => id,
        None => {
            cancel(wm);
            return;
        }
    };
    match wm.locate_window(id) {
        Some((o, w, i)) => {
            let ghost before = *wm;
            wm.overview_state = None;
            set_overview_keybinds(wm, false);
            let ghost x1 = *wm;
            crate::ops::set_window_focus(wm, o, w, Some(i));
            let ghost x2 = *wm;
            let ghost mid = wm.outputs@;
            wm.outputs[o].focused_workspace_idx = w;
            wm.focused_output_idx = Some(o);
            proof {
                assert forall|p: int| 0 <= p < wm.outputs@.len() implies #[trigger] wm.outputs@[p].wf() by {
                    assert(mid[p].wf());
                }
                assert forall|p: int| 0 <= p < wm.outputs@.len() implies (#[trigger] wm.outputs@[p]).is_removed == old(wm).outputs@[p].is_removed by {
                    assert(mid[p].is_removed == old(wm).outputs@[p].is_removed);
                }
                assert(wm.ws(o as int, w as int).window_list@[i as int].id == id);
                assert(old(wm).ws(o as int, w as int).window_list@[i as int].id == id);
                assert(wm.ws(o as int, w as int) == (crate::wm::Workspace { window_list: old(wm).ws(o as int, w as int).window_list, focused_window_idx: Some(i) }));
                assert forall|v: int| 0 <= v < NUM_WORKSPACES && v != w implies #[trigger] wm.ws(o as int, v) == old(wm).ws(o as int, v) by {
                    assert(wm.ws(o as int, v) == mid[o as int].workspace_list@[v]);
                    assert(x2.ws(o as int, v) == x1.ws(o as int, v));
                    assert(x1.outputs == old(wm).outputs);
                }
                assert forall|q: int| 0 <= q < old(wm).outputs@.len() && q != o implies #[trigger] wm.outputs@[q] == old(wm).outputs@[q] by {
                    assert(wm.outputs@[q] == mid[q]);
                }
                assert(selected(*old(wm), *wm, o as int, w as int, i as int));
            }
        }
        None => {
            proof {
                let ov = old(wm).overview_state->0;
                assert(!crate::focus::window_exists(*old(wm), ov.entries@[ov.highlighted as int]));
            }
            cancel(wm);
        }
    }
}

/// The entries of `s` whose windows still exist, in order.
pub open spec fn live_entries(wm: WindowManager, s: Seq<u32>) -> Seq<u32>
    decreases s.len(),
{
    if s.len() == 0 {
        Seq::empty()
    } else {
        live_entries(wm, s.drop_last()) + if crate::focus::window_exists(wm, s.last()) { seq![s.last()] } else { Seq::empty() }
    }
}

/// What dropping the entries of closed windows does: with no overview
/// open nothing; when no entry is left the overview closes as `cancel`
/// closes it (home restored, overview keys disabled); otherwise only the live entries stay, and the highlight
/// stays on its window (or the nearest live entry before it).
pub open spec fn prune_effect(a: WindowManager, b: WindowManager) -> bool {
    match a.overview_state {
        None => b == a,
        Some(ov) => {
            let live = live_entries(a, ov.entries@);
            if live.len() == 0 {
                &&& cancelled(a, b)
                &&& b.requests@ == a.requests@ + overview_toggle_requests(a.xkb_bindings@, false, a.xkb_bindings@.len() as int)
            } else {
                let before = live_entries(a, ov.entries@.take(ov.highlighted as int)).len();
                &&& b.overview_state matches Some(nov) && {
                    &&& nov.entries@ == live
                    &&& nov.columns == ov.columns
                    &&& nov.home == ov.home
                    &&& nov.highlighted == (if before < live.len() { before as int } else { live.len() - 1 })
                }
                &&& b == (WindowManager { overview_state: b.overview_state, ..a })
            }
        },
    }
}

proof fn lemma_live_len(wm: WindowManager, s: Seq<u32>)
    ensures
        live_entries(wm, s).len() <= s.len(),
    decreases s.len(),
{
    if s.len() > 0 {
        lemma_live_len(wm, s.drop_last());
    }
}

/// Drop the overview entries of windows that closed (see `prune_effect`).
pub fn prune(wm: &mut WindowManager)
    requires
        old(wm).wf(),
    ensures
        final(wm).wf(),
        prune_effect(*old(wm), *final(wm)),
        final(wm).xkb_bindings == old(wm).xkb_bindings,
        forall|o: int, w: int| 0 <= o < final(wm).outputs@.len() && 0 <= w < NUM_WORKSPACES ==> #[trigger] final(wm).ws(o, w) == old(wm).ws(o, w),
        final(wm).outputs@.len() == old(wm).outputs@.len(),
        final(wm).status == old(wm).status,
        final(wm).pending_windows == old(wm).pending_windows,
        forall|o: int| 0 <= o < final(wm).outputs@.len() ==> (#[trigger] final(wm).outputs@[o]).is_removed == old(wm).outputs@[o].is_removed,
{
    let (entries, highlighted, columns, home) = match &wm.overview_state {
        Some(ov) => (crate::layout::copy_ids(&ov.entries), ov.highlighted, ov.columns, ov.home),
        None => return,
    };
    let ghost a = *wm;
    let mut kept: Vec<u32> = Vec::new();
    let mut new_hl: usize = 0;
    let mut i: usize = 0;
    while i < entries.len()
        invariant
            *wm == a,
            a.wf(),
            i <= entries@.len(),
            a.overview_state matches Some(ov) && ov.entries@ == entries@ && ov.highlighted == highlighted,
            kept@ == live_entries(a, entries@.take(i as int)),
            i > highlighted ==> new_hl == live_entries(a, entries@.take(highlighted as int)).len(),
        decreases entries@.len() - i,
    {
        if i == highlighted {
            new_hl = kept.len();
        }
        let id = entries[i];
        proof {
            assert(entries@.take(i + 1).drop_last() =~= entries@.take(i as int));
            assert(entries@.take(i + 1).last() == id);
        }
        match wm.locate_window(id) {
            Some((o, w, k)) => {
                proof {
                    assert(a.ws(o as int, w as int).window_list@[k as int].id == id);
                    assert(crate::focus::window_exists(a, id));
                }
                kept.push(id);
                proof { assert(kept@ =~= live_entries(a, entries@.take(i + 1))); }
            }
            None => {
                proof {
                    assert(!crate::focus::window_exists(a, id));
                    assert(kept@ =~= live_entries(a, entries@.take(i + 1)));
                }
            }
        }
        i = i + 1;
    }
    proof { assert(entries@.take(entries@.len() as int) =~= entries@); }
    if kept.len() == 0 {
        cancel(wm);
        return;
    }
    let n = kept.len();
    let hl = if new_hl < n { new_hl } else { n - 1 };
    proof {
        let ov = a.overview_state->0;
        assert(ov.highlighted < ov.entries@.len());
    }
    wm.overview_state = Some(OverviewState { entries: kept, columns, highlighted: hl, home });
}

} // verus!
