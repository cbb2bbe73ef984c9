//! The output part of a layout pass: outputs river removed are taken out
//! (their windows migrate to a surviving output, or are kept detached
//! when none is left), and windows go back to outputs that return.

use vstd::prelude::*;
use crate::migrate::{
    detach_output, exit_fullscreen_and_close_closing, fixup_indices_after_output_removal,
    migrate_detached_into, migrate_output_windows, migrate_windows_by_name, take_detached,
};
use crate::migrate::{same_output_fields, tagged, tagged_part, window_ids};
use crate::wm::{OverviewHome, Window, WindowManager, NUM_WORKSPACES};

verus! {

/// No output is marked removed.
pub open spec fn none_removed(wm: WindowManager) -> bool {
    forall|o: int| 0 <= o < wm.outputs@.len() ==> !(#[trigger] wm.outputs@[o]).is_removed
}

/// The first output marked removed.
fn find_removed(wm: &WindowManager) -> (r: Option<usize>)
    ensures
        r matches Some(i) ==> i < wm.outputs@.len() && wm.outputs@[i as int].is_removed,
        r is None ==> none_removed(*wm),
{
    let mut i: usize = 0;
    while i < wm.outputs.len()
        invariant
            i <= wm.outputs@.len(),
            forall|k: int| 0 <= k < i ==> !(#[trigger] wm.outputs@[k]).is_removed,
        decreases wm.outputs@.len() - i,
    {
        if wm.outputs[i].is_removed {
            return Some(i);
        }
        i = i + 1;
    }
    None
}

/// The first output other than `skip` still present.
fn find_survivor(wm: &WindowManager, skip: usize) -> (r: Option<usize>)
    ensures
        r matches Some(s) ==> s < wm.outputs@.len() && s != skip && !wm.outputs@[s as int].is_removed,
        r is None ==> forall|k: int| 0 <= k < wm.outputs@.len() && k != skip ==> (#[trigger] wm.outputs@[k]).is_removed,
{
    let mut i: usize = 0;
    while i < wm.outputs.len()
        invariant
            i <= wm.outputs@.len(),
            forall|k: int| 0 <= k < i && k != skip ==> (#[trigger] wm.outputs@[k]).is_removed,
        decreases wm.outputs@.len() - i,
    {
        if i != skip && !wm.outputs[i].is_removed {
            return Some(i);
        }
        i = i + 1;
    }
    None
}

/// Number of outputs marked removed.
pub open spec fn removed_count(outs: Seq<crate::wm::Output>) -> nat
    decreases outs.len(),
{
    if outs.len() == 0 {
        0
    } else {
        removed_count(outs.drop_last()) + if outs.last().is_removed { 1nat } else { 0nat }
    }
}

/// Where the entry at index `k` of a list of `old_len` entries came from,
/// after the entry at `removed_idx` was swap-removed (the last entry moved
/// into its slot).
pub open spec fn swap_source(k: int, removed_idx: int, old_len: int) -> int {
    if k == removed_idx { old_len - 1 } else { k }
}

/// Window `id` is on a workspace of an output.
pub open spec fn on_output(wm: WindowManager, id: u32) -> bool {
    exists|o: int, w: int|
        0 <= o < wm.outputs@.len() && 0 <= w < NUM_WORKSPACES && (#[trigger] wm.ws(o, w).ids()).contains(id)
}

/// Window `id` is on a workspace of an output other than `r`.
pub open spec fn on_output_except(wm: WindowManager, r: int, id: u32) -> bool {
    exists|o: int, w: int|
        0 <= o < wm.outputs@.len() && o != r && 0 <= w < NUM_WORKSPACES && (#[trigger] wm.ws(o, w).ids()).contains(id)
}

/// Window `id` is on a workspace kept for an output that went away.
pub open spec fn in_detached(wm: WindowManager, id: u32) -> bool {
    exists|d: int, w: int|
        0 <= d < wm.detached_outputs@.len() && 0 <= w < NUM_WORKSPACES
            && (#[trigger] wm.detached_outputs@[d].workspace_list@[w].ids()).contains(id)
}

/// The state still holds window `id`, on an output or detached.
pub open spec fn holds(wm: WindowManager, id: u32) -> bool {
    on_output(wm, id) || in_detached(wm, id)
}

/// Every window `a` holds, `b` holds too.
pub open spec fn keeps_windows(a: WindowManager, b: WindowManager) -> bool {
    forall|id: u32| #[trigger] holds(a, id) ==> holds(b, id)
}

/// Taking out removed output `r` loses no window: another output is still
/// present to take its windows, or `r` has a name no detached entry uses
/// yet, so they are kept under it.
pub open spec fn drop_keeps_windows(wm: WindowManager, r: int) -> bool {
    ||| exists|s: int| 0 <= s < wm.outputs@.len() && s != r && !(#[trigger] wm.outputs@[s]).is_removed
    ||| wm.outputs@[r].name matches Some(n) && forall|d: int|
        0 <= d < wm.detached_outputs@.len() ==> (#[trigger] wm.detached_outputs@[d]).name@ != n@
}

proof fn lemma_concat_contains(a: Seq<u32>, b: Seq<u32>, id: u32)
    ensures
        (a + b).contains(id) <==> (a.contains(id) || b.contains(id)),
{
    broadcast use vstd::seq_lib::lemma_seq_concat_contains_all_elements;
}

/// Keeping windows chains.
pub proof fn lemma_keeps_trans(a: WindowManager, b: WindowManager, c: WindowManager)
    requires
        keeps_windows(a, b),
        keeps_windows(b, c),
    ensures
        keeps_windows(a, c),
{
    assert forall|id: u32| #[trigger] holds(a, id) implies holds(c, id) by {
        assert(holds(b, id));
    }
}

/// The same outputs and detached entries hold the same windows.
pub proof fn lemma_same_places(a: WindowManager, b: WindowManager)
    requires
        b.outputs == a.outputs,
        b.detached_outputs == a.detached_outputs,
    ensures
        keeps_windows(a, b),
{
    assert forall|id: u32| #[trigger] holds(a, id) implies holds(b, id) by {
        if on_output(a, id) {
            let (o, w) = choose|o: int, w: int|
                0 <= o < a.outputs@.len() && 0 <= w < NUM_WORKSPACES && (#[trigger] a.ws(o, w).ids()).contains(id);
            assert(b.ws(o, w) == a.ws(o, w));
        } else {
            let (d, w) = choose|d: int, w: int|
                0 <= d < a.detached_outputs@.len() && 0 <= w < NUM_WORKSPACES
                    && (#[trigger] a.detached_outputs@[d].workspace_list@[w].ids()).contains(id);
            assert(b.detached_outputs@[d] == a.detached_outputs@[d]);
        }
    }
}

/// After the windows of `r` migrated to `s`, every window is on an output
/// other than `r`, or detached as before.
proof fn lemma_migration_keeps(a: WindowManager, b: WindowManager, r: int, s: int)
    requires
        0 <= r < a.outputs@.len(),
        0 <= s < a.outputs@.len(),
        r != s,
        b.outputs@.len() == a.outputs@.len(),
        b.detached_outputs == a.detached_outputs,
        forall|j: int| 0 <= j < NUM_WORKSPACES ==> (#[trigger] b.ws(s, j)).ids() == a.ws(s, j).ids() + a.ws(r, j).ids(),
        forall|i: int| 0 <= i < b.outputs@.len() && i != r && i != s ==> b.outputs@[i] == a.outputs@[i],
    ensures
        forall|id: u32| #[trigger] holds(a, id) ==> on_output_except(b, r, id) || in_detached(b, id),
{
    assert forall|id: u32| #[trigger] holds(a, id) implies on_output_except(b, r, id) || in_detached(b, id) by {
        if on_output(a, id) {
            let (o, w) = choose|o: int, w: int|
                0 <= o < a.outputs@.len() && 0 <= w < NUM_WORKSPACES && (#[trigger] a.ws(o, w).ids()).contains(id);
            if o == r || o == s {
                lemma_concat_contains(a.ws(s, w).ids(), a.ws(r, w).ids(), id);
                assert(b.ws(s, w).ids().contains(id));
            } else {
                assert(b.ws(o, w) == a.ws(o, w));
            }
        } else {
            let (d, w) = choose|d: int, w: int|
                0 <= d < a.detached_outputs@.len() && 0 <= w < NUM_WORKSPACES
                    && (#[trigger] a.detached_outputs@[d].workspace_list@[w].ids()).contains(id);
            assert(b.detached_outputs@[d] == a.detached_outputs@[d]);
        }
    }
}

/// After output `r` was detached (its workspaces kept whole, every earlier
/// entry kept too), every window is on an output other than `r`, or
/// detached.
proof fn lemma_detach_keeps(a: WindowManager, b: WindowManager, r: int)
    requires
        0 <= r < a.outputs@.len(),
        b.outputs@.len() == a.outputs@.len(),
        forall|i: int| 0 <= i < b.outputs@.len() && i != r ==> b.outputs@[i] == a.outputs@[i],
        exists|d: int| 0 <= d < b.detached_outputs@.len()
            && (#[trigger] b.detached_outputs@[d]).workspace_list@ == a.outputs@[r].workspace_list@,
        forall|d: int| 0 <= d < a.detached_outputs@.len() ==> b.detached_outputs@.contains(#[trigger] a.detached_outputs@[d]),
    ensures
        forall|id: u32| #[trigger] holds(a, id) ==> on_output_except(b, r, id) || in_detached(b, id),
{
    let e = choose|d: int| 0 <= d < b.detached_outputs@.len()
        && (#[trigger] b.detached_outputs@[d]).workspace_list@ == a.outputs@[r].workspace_list@;
    assert forall|id: u32| #[trigger] holds(a, id) implies on_output_except(b, r, id) || in_detached(b, id) by {
        if on_output(a, id) {
            let (o, w) = choose|o: int, w: int|
                0 <= o < a.outputs@.len() && 0 <= w < NUM_WORKSPACES && (#[trigger] a.ws(o, w).ids()).contains(id);
            if o == r {
                assert(b.detached_outputs@[e].workspace_list@[w].ids().contains(id));
            } else {
                assert(b.ws(o, w) == a.ws(o, w));
            }
        } else {
            let (d, w) = choose|d: int, w: int|
                0 <= d < a.detached_outputs@.len() && 0 <= w < NUM_WORKSPACES
                    && (#[trigger] a.detached_outputs@[d].workspace_list@[w].ids()).contains(id);
            assert(b.detached_outputs@.contains(a.detached_outputs@[d]));
            let k = choose|k: int| 0 <= k < b.detached_outputs@.len() && b.detached_outputs@[k] == a.detached_outputs@[d];
            assert(b.detached_outputs@[k].workspace_list@[w].ids().contains(id));
        }
    }
}

/// Taking output `r` out of the list loses only what was on it.
proof fn lemma_removal_keeps(b: WindowManager, c: WindowManager, r: int)
    requires
        0 <= r < b.outputs@.len(),
        c.outputs@ == b.outputs@.update(r, b.outputs@.last()).drop_last(),
        c.detached_outputs == b.detached_outputs,
    ensures
        forall|id: u32| on_output_except(b, r, id) || in_detached(b, id) ==> #[trigger] holds(c, id),
{
    assert forall|id: u32| on_output_except(b, r, id) || in_detached(b, id) implies #[trigger] holds(c, id) by {
        if on_output_except(b, r, id) {
            let (o, w) = choose|o: int, w: int|
                0 <= o < b.outputs@.len() && o != r && 0 <= w < NUM_WORKSPACES && (#[trigger] b.ws(o, w).ids()).contains(id);
            let k = if o == b.outputs@.len() - 1 { r } else { o };
            assert(c.outputs@[k] == b.outputs@[o]);
            assert(c.ws(k, w).ids().contains(id));
        } else {
            let (d, w) = choose|d: int, w: int|
                0 <= d < b.detached_outputs@.len() && 0 <= w < NUM_WORKSPACES
                    && (#[trigger] b.detached_outputs@[d].workspace_list@[w].ids()).contains(id);
            assert(c.detached_outputs@[d] == b.detached_outputs@[d]);
        }
    }
}

/// A pass that leaves every workspace's windows and the detached entries
/// as they were loses no window.
pub proof fn lemma_same_layout_keeps(a: WindowManager, b: WindowManager)
    requires
        crate::focus::same_layout(a, b),
    ensures
        keeps_windows(a, b),
{
    assert forall|id: u32| #[trigger] holds(a, id) implies holds(b, id) by {
        if on_output(a, id) {
            let (o, w) = choose|o: int, w: int|
                0 <= o < a.outputs@.len() && 0 <= w < NUM_WORKSPACES && (#[trigger] a.ws(o, w).ids()).contains(id);
            assert(b.ws(o, w).ids() == a.ws(o, w).ids());
        } else {
            let (d, w) = choose|d: int, w: int|
                0 <= d < a.detached_outputs@.len() && 0 <= w < NUM_WORKSPACES
                    && (#[trigger] a.detached_outputs@[d].workspace_list@[w].ids()).contains(id);
            assert(b.detached_outputs@[d] == a.detached_outputs@[d]);
        }
    }
}

/// Appending windows to workspace `(o, w)` loses no window.
pub proof fn lemma_appended_keeps(a: WindowManager, b: WindowManager, o: int, w: int, more: Seq<Window>)
    requires
        0 <= o < a.outputs@.len(),
        0 <= w < NUM_WORKSPACES,
        b.outputs@.len() == a.outputs@.len(),
        b.detached_outputs == a.detached_outputs,
        forall|q: int| 0 <= q < a.outputs@.len() && q != o ==> b.outputs@[q] == a.outputs@[q],
        forall|v: int| 0 <= v < NUM_WORKSPACES && v != w ==> #[trigger] b.ws(o, v) == a.ws(o, v),
        b.ws(o, w).window_list@ == a.ws(o, w).window_list@ + more,
    ensures
        keeps_windows(a, b),
{
    assert forall|id: u32| #[trigger] holds(a, id) implies holds(b, id) by {
        if on_output(a, id) {
            let (q, v) = choose|q: int, v: int|
                0 <= q < a.outputs@.len() && 0 <= v < NUM_WORKSPACES && (#[trigger] a.ws(q, v).ids()).contains(id);
            if q == o && v == w {
                let ids = a.ws(o, w).ids();
                let k = choose|k: int| 0 <= k < ids.len() && #[trigger] ids[k] == id;
                assert(b.ws(o, w).window_list@[k] == a.ws(o, w).window_list@[k]);
                assert(b.ws(o, w).ids()[k] == id);
            } else if q == o {
                assert(b.ws(o, v) == a.ws(o, v));
            } else {
                assert(b.ws(q, v) == a.ws(q, v));
            }
        } else {
            let (d, v) = choose|d: int, v: int|
                0 <= d < a.detached_outputs@.len() && 0 <= v < NUM_WORKSPACES
                    && (#[trigger] a.detached_outputs@[d].workspace_list@[v].ids()).contains(id);
            assert(b.detached_outputs@[d] == a.detached_outputs@[d]);
        }
    }
}

/// Take the removed output `r` out: closing windows are closed, windows
/// at its fullscreen rectangle leave fullscreen, its windows migrate to
/// the first output still present (or are detached when there is none),
/// and it is swap-removed from the list (the last output moves into its
/// slot); the focused output index and the previous workspace follow.
pub fn drop_output(wm: &mut WindowManager, r: usize)
    requires
        old(wm).wf(),
        r < old(wm).outputs@.len(),
        old(wm).outputs@[r as int].is_removed,
    ensures
        final(wm).wf(),
        final(wm).outputs@.len() == old(wm).outputs@.len() - 1,
        forall|k: int| 0 <= k < final(wm).outputs@.len() ==>
            (#[trigger] final(wm).outputs@[k]).is_removed == old(wm).outputs@[swap_source(k, r as int, old(wm).outputs@.len() as int)].is_removed,
        final(wm).focused_output_idx == crate::migrate::swap_fixed(old(wm).focused_output_idx, r, old(wm).outputs@.len() as usize),
        final(wm).overview_state == old(wm).overview_state,
        final(wm).status == old(wm).status,
        final(wm).pending_windows == old(wm).pending_windows,
        drop_keeps_windows(*old(wm), r as int) ==> keeps_windows(*old(wm), *final(wm)),
{
    exit_fullscreen_and_close_closing(wm, r);
    let ghost w1 = *wm;
    match find_survivor(wm, r) {
        Some(s) => {
            migrate_output_windows(wm, r, s);
            proof { lemma_migration_keeps(w1, *wm, r as int, s as int); }
        }
        None => {
            detach_output(wm, r);
            proof {
                if drop_keeps_windows(*old(wm), r as int) {
                    assert(!exists|s: int| 0 <= s < old(wm).outputs@.len() && s != r && !(#[trigger] old(wm).outputs@[s]).is_removed);
                    assert forall|d: int| 0 <= d < w1.detached_outputs@.len() implies
                        wm.detached_outputs@.contains(#[trigger] w1.detached_outputs@[d]) by {
                        assert(old(wm).detached_outputs@[d] == w1.detached_outputs@[d]);
                    }
                    lemma_detach_keeps(w1, *wm, r as int);
                }
            }
        }
    }
    let ghost w2 = *wm;
    let ghost mid = wm.outputs@;
    let old_len = wm.outputs.len();
    let _gone = wm.outputs.swap_remove(r);
    proof {
        lemma_removal_keeps(w2, *wm, r as int);
        lemma_same_places(*old(wm), w1);
    }
    let ghost w3 = *wm;
    proof {
        assert forall|k: int| 0 <= k < wm.outputs@.len() implies
            (#[trigger] wm.outputs@[k]).is_removed == old(wm).outputs@[swap_source(k, r as int, old_len as int)].is_removed by {
            assert(wm.outputs@[k] == mid[swap_source(k, r as int, old_len as int)]);
        }
        assert forall|k: int| 0 <= k < wm.outputs@.len() implies #[trigger] wm.outputs@[k].wf() by {
            assert(wm.outputs@[k] == mid[swap_source(k, r as int, old_len as int)]);
        }
    }
    let mut focus = wm.focused_output_idx;
    proof {
        if focus is Some {
            crate::migrate::law_fixup_stays_in_bounds(focus->0, r, old_len);
        }
    }
    fixup_indices_after_output_removal(&mut focus, r, old_len);
    wm.focused_output_idx = focus;
    let prev = wm.previous_workspace;
    wm.previous_workspace = match prev {
        Some(p) => {
            if p.output_idx == r {
                None
            } else if p.output_idx == old_len - 1 {
                Some(OverviewHome { output_idx: r, workspace_idx: p.workspace_idx })
            } else {
                Some(p)
            }
        }
        None => None,
    };
    proof {
        if drop_keeps_windows(*old(wm), r as int) {
            lemma_same_places(w3, *wm);
            assert forall|id: u32| #[trigger] holds(*old(wm), id) implies holds(*wm, id) by {
                assert(holds(w1, id));
                assert(holds(w3, id));
            }
        }
    }
}

/// Some output is not marked removed.
pub open spec fn some_present(wm: WindowManager) -> bool {
    exists|s: int| 0 <= s < wm.outputs@.len() && !(#[trigger] wm.outputs@[s]).is_removed
}

/// What taking out every removed output leaves (see `drop_removed_outputs`).
pub open spec fn outputs_dropped(a: WindowManager, b: WindowManager) -> bool {
    &&& (none_removed(b))
    &&& (b.outputs@.len() <= a.outputs@.len())
    &&& (b.outputs@.len() > 0 ==> b.focused_output_idx is Some)
    &&& (b.overview_state == a.overview_state)
    &&& (b.status == a.status)
    &&& (b.pending_windows == a.pending_windows)
    &&& (none_removed(a) ==> b.outputs@.len() == a.outputs@.len())
    &&& (none_removed(a) ==> b == (WindowManager {
                focused_output_idx: if a.focused_output_idx is None && a.outputs@.len() > 0 {
                    Some(0usize)
                } else {
                    a.focused_output_idx
                },
                ..a
            }))
    &&& (some_present(a) || none_removed(a) ==> keeps_windows(a, b))
}

/// Take out every output marked removed (see `drop_output`); afterwards
/// none is left and, when any output is, one is focused. While some output
/// stays (or none was removed), no window is lost.
pub fn drop_removed_outputs(wm: &mut WindowManager)
    requires
        old(wm).wf(),
    ensures
        final(wm).wf(),
        outputs_dropped(*old(wm), *final(wm)),
{
    proof { lemma_same_places(*old(wm), *old(wm)); }
    loop
        invariant
            wm.wf(),
            wm.outputs@.len() <= old(wm).outputs@.len(),
            wm.overview_state == old(wm).overview_state,
            wm.status == old(wm).status,
            wm.pending_windows == old(wm).pending_windows,
            none_removed(*old(wm)) ==> *wm == *old(wm),
            some_present(*old(wm)) ==> some_present(*wm) && keeps_windows(*old(wm), *wm),
        ensures
            none_removed(*wm),
        decreases wm.outputs@.len(),
    {
        match find_removed(wm) {
            Some(r) => {
                let ghost before = *wm;
                proof {
                    if some_present(*old(wm)) {
                        let s = choose|s: int| 0 <= s < before.outputs@.len() && !(#[trigger] before.outputs@[s]).is_removed;
                        assert(s != r);
                        assert(drop_keeps_windows(before, r as int));
                    }
                }
                drop_output(wm, r);
                proof {
                    if some_present(*old(wm)) {
                        let s = choose|s: int| 0 <= s < before.outputs@.len() && !(#[trigger] before.outputs@[s]).is_removed;
                        let k = if s == before.outputs@.len() - 1 { r as int } else { s };
                        assert(!wm.outputs@[k].is_removed);
                        lemma_keeps_trans(*old(wm), before, *wm);
                    }
                }
            }
            None => {
                break;
            }
        }
    }
    let ghost looped = *wm;
    if wm.focused_output_idx.is_none() && wm.outputs.len() > 0 {
        wm.focused_output_idx = Some(0);
    }
    proof {
        lemma_same_places(looped, *wm);
        if some_present(*old(wm)) {
            lemma_keeps_trans(*old(wm), looped, *wm);
        } else if none_removed(*old(wm)) {
            lemma_same_places(*old(wm), looped);
            lemma_keeps_trans(*old(wm), looped, *wm);
        }
    }
}

/// A detached entry taken out of the list (at `k`) and merged into output
/// `o` loses no window.
proof fn lemma_return_keeps(a: WindowManager, b: WindowManager, c: WindowManager, o: int, k: int)
    requires
        0 <= k < a.detached_outputs@.len(),
        b.detached_outputs@ == a.detached_outputs@.remove(k),
        b.outputs == a.outputs,
        0 <= o < a.outputs@.len(),
        c.outputs@.len() == b.outputs@.len(),
        c.detached_outputs == b.detached_outputs,
        forall|j: int| 0 <= j < NUM_WORKSPACES ==> (#[trigger] c.ws(o, j)).ids()
            == b.ws(o, j).ids() + a.detached_outputs@[k].workspace_list@[j].ids(),
        forall|i: int| 0 <= i < c.outputs@.len() && i != o ==> c.outputs@[i] == b.outputs@[i],
    ensures
        keeps_windows(a, c),
{
    assert forall|id: u32| #[trigger] holds(a, id) implies holds(c, id) by {
        if on_output(a, id) {
            let (p, w) = choose|p: int, w: int|
                0 <= p < a.outputs@.len() && 0 <= w < NUM_WORKSPACES && (#[trigger] a.ws(p, w).ids()).contains(id);
            assert(b.ws(p, w) == a.ws(p, w));
            if p == o {
                lemma_concat_contains(b.ws(o, w).ids(), a.detached_outputs@[k].workspace_list@[w].ids(), id);
                assert(c.ws(o, w).ids().contains(id));
            } else {
                assert(c.ws(p, w) == b.ws(p, w));
            }
        } else {
            let (d, w) = choose|d: int, w: int|
                0 <= d < a.detached_outputs@.len() && 0 <= w < NUM_WORKSPACES
                    && (#[trigger] a.detached_outputs@[d].workspace_list@[w].ids()).contains(id);
            if d == k {
                lemma_concat_contains(b.ws(o, w).ids(), a.detached_outputs@[k].workspace_list@[w].ids(), id);
                assert(c.ws(o, w).ids().contains(id));
            } else {
                let e = if d < k { d } else { d - 1 };
                assert(c.detached_outputs@[e] == a.detached_outputs@[d]);
                assert(c.detached_outputs@[e].workspace_list@[w].ids().contains(id));
            }
        }
    }
}

/// The windows of a row that do and do not remember `name` together hold
/// every window of the row.
proof fn lemma_parts_hold(list: Seq<Window>, name: Seq<char>, id: u32)
    requires
        list.map_values(|w: Window| w.id).contains(id),
    ensures
        window_ids(tagged_part(list, name, true)).contains(id) || window_ids(tagged_part(list, name, false)).contains(id),
{
    let ids = list.map_values(|w: Window| w.id);
    let m = choose|m: int| 0 <= m < ids.len() && #[trigger] ids[m] == id;
    assert(list[m].id == id);
    let want = tagged(list[m], name);
    list.lemma_filter_contains(|w: Window| tagged(w, name) == want, m);
    let part = tagged_part(list, name, want);
    assert(part.contains(list[m]));
    let q = choose|q: int| 0 <= q < part.len() && part[q] == list[m];
    assert(window_ids(part)[q] == id);
}

/// Moving the windows that remember output `dst`'s name from `src` to
/// `dst` (workspace `w`) loses no window.
proof fn lemma_by_name_keeps(a: WindowManager, b: WindowManager, src: int, dst: int, w: int, name: Seq<char>)
    requires
        0 <= src < a.outputs@.len(),
        0 <= dst < a.outputs@.len(),
        src != dst,
        0 <= w < NUM_WORKSPACES,
        b.outputs@.len() == a.outputs@.len(),
        b.detached_outputs == a.detached_outputs,
        b.ws(src, w).ids() == window_ids(tagged_part(a.ws(src, w).window_list@, name, false)),
        b.ws(dst, w).ids() == window_ids(tagged_part(a.ws(src, w).window_list@, name, true)) + a.ws(dst, w).ids(),
        forall|i: int| 0 <= i < b.outputs@.len() && i != src && i != dst ==> b.outputs@[i] == a.outputs@[i],
        forall|j: int| 0 <= j < NUM_WORKSPACES && j != w ==> #[trigger] b.ws(src, j) == a.ws(src, j),
        forall|j: int| 0 <= j < NUM_WORKSPACES && j != w ==> #[trigger] b.ws(dst, j) == a.ws(dst, j),
    ensures
        keeps_windows(a, b),
{
    assert forall|id: u32| #[trigger] holds(a, id) implies holds(b, id) by {
        if on_output(a, id) {
            let (p, v) = choose|p: int, v: int|
                0 <= p < a.outputs@.len() && 0 <= v < NUM_WORKSPACES && (#[trigger] a.ws(p, v).ids()).contains(id);
            if v == w && p == src {
                lemma_parts_hold(a.ws(src, w).window_list@, name, id);
                lemma_concat_contains(window_ids(tagged_part(a.ws(src, w).window_list@, name, true)), a.ws(dst, w).ids(), id);
                if b.ws(src, w).ids().contains(id) {
                    assert(on_output(b, id));
                } else {
                    assert(b.ws(dst, w).ids().contains(id));
                }
            } else if v == w && p == dst {
                lemma_concat_contains(window_ids(tagged_part(a.ws(src, w).window_list@, name, true)), a.ws(dst, w).ids(), id);
                assert(b.ws(dst, w).ids().contains(id));
            } else if p == src || p == dst {
                assert(b.ws(p, v) == a.ws(p, v));
            } else {
                assert(b.outputs@[p] == a.outputs@[p]);
                assert(b.ws(p, v) == a.ws(p, v));
            }
        } else {
            let (d, v) = choose|d: int, v: int|
                0 <= d < a.detached_outputs@.len() && 0 <= v < NUM_WORKSPACES
                    && (#[trigger] a.detached_outputs@[d].workspace_list@[v].ids()).contains(id);
            assert(b.detached_outputs@[d] == a.detached_outputs@[d]);
        }
    }
}

/// No window on an output other than `o` remembers the output named
/// `name`.
pub open spec fn none_remember(wm: WindowManager, o: int, name: Seq<char>) -> bool {
    forall|p: int, w: int, i: int|
        0 <= p < wm.outputs@.len() && p != o && 0 <= w < NUM_WORKSPACES && 0 <= i < wm.ws(p, w).window_list@.len()
            ==> !tagged(#[trigger] wm.ws(p, w).window_list@[i], name)
}

/// The untagged part of a row remembers nothing of `name`.
proof fn lemma_untagged_part(l: Seq<Window>, name: Seq<char>)
    ensures
        forall|i: int| 0 <= i < tagged_part(l, name, false).len() ==> !tagged(#[trigger] tagged_part(l, name, false)[i], name),
{
    assert forall|i: int| 0 <= i < tagged_part(l, name, false).len() implies !tagged(#[trigger] tagged_part(l, name, false)[i], name) by {
        l.lemma_filter_pred(|w: Window| tagged(w, name) == false, i);
    }
}

/// A row whose tagged part is empty has no tagged window.
proof fn lemma_nothing_tagged(l: Seq<Window>, name: Seq<char>)
    requires
        tagged_part(l, name, true).len() == 0,
    ensures
        forall|i: int| 0 <= i < l.len() ==> !tagged(#[trigger] l[i], name),
{
    assert forall|i: int| 0 <= i < l.len() implies !tagged(#[trigger] l[i], name) by {
        if tagged(l[i], name) {
            l.lemma_filter_contains(|w: Window| tagged(w, name) == true, i);
            assert(tagged_part(l, name, true).contains(l[i]));
        }
    }
}

/// `b` differs from `a` only in where windows sit, the detached entries
/// and the queued requests: every output keeps its identity, geometry,
/// removal mark and shown workspace, and nothing else changes.
pub open spec fn restore_frame(a: WindowManager, b: WindowManager) -> bool {
    &&& b.outputs@.len() == a.outputs@.len()
    &&& forall|k: int| 0 <= k < a.outputs@.len() ==> same_output_fields(a.outputs@[k], #[trigger] b.outputs@[k])
    &&& b == (WindowManager { outputs: b.outputs, detached_outputs: b.detached_outputs, requests: b.requests, ..a })
}

/// Nothing can come back to an output: nothing is detached and no window
/// remembers an output.
pub open spec fn nothing_to_return(wm: WindowManager) -> bool {
    &&& wm.detached_outputs@.len() == 0
    &&& forall|o: int, w: int, i: int|
        0 <= o < wm.outputs@.len() && 0 <= w < NUM_WORKSPACES && 0 <= i < wm.ws(o, w).window_list@.len()
            ==> (#[trigger] wm.ws(o, w).window_list@[i]).geom.former_output_name is None
}

/// The frame chains.
proof fn lemma_frame_trans(a: WindowManager, b: WindowManager, c: WindowManager)
    requires
        restore_frame(a, b),
        restore_frame(b, c),
    ensures
        restore_frame(a, c),
{
    assert forall|k: int| 0 <= k < a.outputs@.len() implies same_output_fields(a.outputs@[k], #[trigger] c.outputs@[k]) by {
        assert(same_output_fields(a.outputs@[k], b.outputs@[k]));
        assert(same_output_fields(b.outputs@[k], c.outputs@[k]));
    }
}

/// A step that keeps every output's fields but two keeps the frame.
proof fn lemma_frame_step(a: WindowManager, b: WindowManager, c: WindowManager, p: int, q: int)
    requires
        restore_frame(a, b),
        c.outputs@.len() == b.outputs@.len(),
        forall|i: int| 0 <= i < c.outputs@.len() && i != p && i != q ==> c.outputs@[i] == b.outputs@[i],
        0 <= p < b.outputs@.len() ==> same_output_fields(b.outputs@[p], c.outputs@[p]),
        0 <= q < b.outputs@.len() ==> same_output_fields(b.outputs@[q], c.outputs@[q]),
        c == (WindowManager { outputs: c.outputs, detached_outputs: c.detached_outputs, requests: c.requests, ..b }),
    ensures
        restore_frame(a, c),
{
    assert forall|k: int| 0 <= k < a.outputs@.len() implies same_output_fields(a.outputs@[k], #[trigger] c.outputs@[k]) by {
        assert(same_output_fields(a.outputs@[k], b.outputs@[k]));
        if k != p && k != q {
            assert(c.outputs@[k] == b.outputs@[k]);
        }
    }
}

/// Bring windows back to output `o`: the detached workspaces kept under
/// its name are merged into it, and windows that other outputs hold for
/// it (they remember its name) move back. No window is lost.
#[verifier::spinoff_prover]
#[verifier::rlimit(80)]
pub fn restore_to_output(wm: &mut WindowManager, o: usize)
    requires
        old(wm).wf(),
        o < old(wm).outputs@.len(),
    ensures
        final(wm).wf(),
        final(wm).outputs@.len() == old(wm).outputs@.len(),
        forall|k: int| 0 <= k < final(wm).outputs@.len() ==>
            (#[trigger] final(wm).outputs@[k]).is_removed == old(wm).outputs@[k].is_removed,
        final(wm).focused_output_idx == old(wm).focused_output_idx,
        final(wm).detached_outputs@.len() <= old(wm).detached_outputs@.len(),
        final(wm).overview_state == old(wm).overview_state,
        final(wm).status == old(wm).status,
        final(wm).pending_windows == old(wm).pending_windows,
        keeps_windows(*old(wm), *final(wm)),
        old(wm).outputs@[o as int].name matches Some(n) ==> none_remember(*final(wm), o as int, n@),
        restore_frame(*old(wm), *final(wm)),
        nothing_to_return(*old(wm)) ==> *final(wm) == *old(wm),
{
    proof {
        lemma_same_places(*old(wm), *old(wm));
        assert forall|k: int| 0 <= k < old(wm).outputs@.len() implies
            same_output_fields(old(wm).outputs@[k], #[trigger] old(wm).outputs@[k]) by {}
    }
    let name = match &wm.outputs[o].name {
        Some(n) => n.clone(),
        None => return,
    };
    proof { assert(old(wm).outputs@[o as int].name == Some(name)); }
    let ghost w0 = *wm;
    match take_detached(wm, &name) {
        Some(d) => {
            let ghost w1 = *wm;
            let ghost k = choose|k: int| 0 <= k < w0.detached_outputs@.len()
                && #[trigger] w0.detached_outputs@[k] == d
                && w1.detached_outputs@ == w0.detached_outputs@.remove(k);
            proof { lemma_frame_step(*old(wm), w0, w1, -1, -1); }
            migrate_detached_into(wm, o, &name, d);
            proof {
                lemma_return_keeps(w0, w1, *wm, o as int, k);
                lemma_frame_step(*old(wm), w1, *wm, o as int, -1);
            }
        }
        None => {
            proof {
                lemma_same_places(w0, *wm);
                lemma_frame_step(*old(wm), w0, *wm, -1, -1);
            }
        }
    }
    let n_out = wm.outputs.len();
    let mut p: usize = 0;
    while p < n_out
        invariant
            wm.wf(),
            n_out == wm.outputs@.len(),
            n_out == old(wm).outputs@.len(),
            o < n_out,
            p <= n_out,
            forall|k: int| 0 <= k < wm.outputs@.len() ==>
                (#[trigger] wm.outputs@[k]).is_removed == old(wm).outputs@[k].is_removed,
            wm.focused_output_idx == old(wm).focused_output_idx,
            wm.detached_outputs@.len() <= old(wm).detached_outputs@.len(),
            wm.overview_state == old(wm).overview_state,
            wm.status == old(wm).status,
            wm.pending_windows == old(wm).pending_windows,
            keeps_windows(*old(wm), *wm),
            old(wm).outputs@[o as int].name == Some(name),
            restore_frame(*old(wm), *wm),
            nothing_to_return(*old(wm)) ==> *wm == *old(wm),
            forall|q: int, v: int, i: int|
                0 <= q < p && q != o && 0 <= v < NUM_WORKSPACES && 0 <= i < wm.ws(q, v).window_list@.len()
                    ==> !tagged(#[trigger] wm.ws(q, v).window_list@[i], name@),
        decreases n_out - p,
    {
        if p != o {
            let mut w: usize = 0;
            while w < NUM_WORKSPACES
                invariant
                    wm.wf(),
                    n_out == wm.outputs@.len(),
                    n_out == old(wm).outputs@.len(),
                    o < n_out,
                    p < n_out,
                    p != o,
                    w <= NUM_WORKSPACES,
                    forall|k: int| 0 <= k < wm.outputs@.len() ==>
                        (#[trigger] wm.outputs@[k]).is_removed == old(wm).outputs@[k].is_removed,
                    wm.focused_output_idx == old(wm).focused_output_idx,
                    wm.detached_outputs@.len() <= old(wm).detached_outputs@.len(),
                    wm.overview_state == old(wm).overview_state,
                    wm.status == old(wm).status,
                    wm.pending_windows == old(wm).pending_windows,
                    keeps_windows(*old(wm), *wm),
                    old(wm).outputs@[o as int].name == Some(name),
                    restore_frame(*old(wm), *wm),
                    nothing_to_return(*old(wm)) ==> *wm == *old(wm),
                    forall|q: int, v: int, i: int|
                        ((0 <= q < p && q != o) || (q == p && v < w)) && 0 <= v < NUM_WORKSPACES && 0 <= i < wm.ws(q, v).window_list@.len()
                            ==> !tagged(#[trigger] wm.ws(q, v).window_list@[i], name@),
                decreases NUM_WORKSPACES - w,
            {
                let ghost before = *wm;
                proof {
                    if nothing_to_return(*old(wm)) {
                        assert forall|m: int| 0 <= m < before.ws(p as int, w as int).window_list@.len() implies
                            !tagged(#[trigger] before.ws(p as int, w as int).window_list@[m], name@) by {
                            assert(before.ws(p as int, w as int).window_list@[m].geom.former_output_name is None);
                        }
                        crate::migrate::lemma_none_tagged(before.ws(p as int, w as int).window_list@, name@);
                    }
                }
                let moved = migrate_windows_by_name(wm, p, o, w, &name);
                proof { lemma_frame_step(*old(wm), before, *wm, p as int, o as int); }
                proof {
                    if moved {
                        lemma_untagged_part(before.ws(p as int, w as int).window_list@, name@);
                    } else {
                        lemma_nothing_tagged(before.ws(p as int, w as int).window_list@, name@);
                    }
                    assert forall|q: int, v: int, i: int|
                        ((0 <= q < p && q != o) || (q == p && v < w + 1)) && 0 <= v < NUM_WORKSPACES && 0 <= i < wm.ws(q, v).window_list@.len()
                            implies !tagged(#[trigger] wm.ws(q, v).window_list@[i], name@) by {
                        if q == p && v == w {
                        } else if q == p {
                            assert(wm.ws(q, v) == before.ws(q, v));
                        } else {
                            assert(wm.outputs@[q] == before.outputs@[q]);
                            assert(wm.ws(q, v) == before.ws(q, v));
                        }
                    }
                }
                proof {
                    if moved {
                        lemma_by_name_keeps(before, *wm, p as int, o as int, w as int, name@);
                    } else {
                        lemma_same_places(before, *wm);
                    }
                    lemma_keeps_trans(*old(wm), before, *wm);
                }
                w = w + 1;
            }
        }
        p = p + 1;
    }
}

/// Merge every detached workspace still kept into output `target`.
fn merge_leftover_detached(wm: &mut WindowManager, target: usize)
    requires
        old(wm).wf(),
        target < old(wm).outputs@.len(),
    ensures
        final(wm).wf(),
        final(wm).detached_outputs@.len() == 0,
        final(wm).outputs@.len() == old(wm).outputs@.len(),
        forall|k: int| 0 <= k < final(wm).outputs@.len() ==>
            (#[trigger] final(wm).outputs@[k]).is_removed == old(wm).outputs@[k].is_removed,
        final(wm).focused_output_idx == old(wm).focused_output_idx,
        final(wm).overview_state == old(wm).overview_state,
        final(wm).status == old(wm).status,
        final(wm).pending_windows == old(wm).pending_windows,
        keeps_windows(*old(wm), *final(wm)),
        restore_frame(*old(wm), *final(wm)),
        old(wm).detached_outputs@.len() == 0 ==> *final(wm) == *old(wm),
{
    proof {
        lemma_same_places(*old(wm), *old(wm));
        assert forall|k: int| 0 <= k < old(wm).outputs@.len() implies
            same_output_fields(old(wm).outputs@[k], #[trigger] old(wm).outputs@[k]) by {}
    }
    while wm.detached_outputs.len() > 0
        invariant
            wm.wf(),
            target < wm.outputs@.len(),
            wm.outputs@.len() == old(wm).outputs@.len(),
            forall|k: int| 0 <= k < wm.outputs@.len() ==>
                (#[trigger] wm.outputs@[k]).is_removed == old(wm).outputs@[k].is_removed,
            wm.focused_output_idx == old(wm).focused_output_idx,
            wm.overview_state == old(wm).overview_state,
            wm.status == old(wm).status,
            wm.pending_windows == old(wm).pending_windows,
            keeps_windows(*old(wm), *wm),
            restore_frame(*old(wm), *wm),
            old(wm).detached_outputs@.len() == 0 ==> *wm == *old(wm),
        decreases wm.detached_outputs@.len(),
    {
        let ghost before = wm.detached_outputs@;
        let ghost w0 = *wm;
        match wm.detached_outputs.pop() {
            Some(d) => {
                let ghost w1 = *wm;
                proof {
                    assert(w1.detached_outputs@ =~= w0.detached_outputs@.remove(before.len() - 1));
                    assert(before[before.len() - 1].wf());
                    assert forall|i: int| 0 <= i < wm.detached_outputs@.len() implies #[trigger] wm.detached_outputs@[i].wf() by {
                        assert(wm.detached_outputs@[i] == before[i]);
                    }
                }
                let key = d.name.clone();
                proof { lemma_frame_step(*old(wm), w0, w1, -1, -1); }
                migrate_detached_into(wm, target, &key, d);
                proof { lemma_frame_step(*old(wm), w1, *wm, target as int, -1); }
                proof {
                    lemma_return_keeps(w0, w1, *wm, target as int, before.len() - 1);
                    lemma_keeps_trans(*old(wm), w0, *wm);
                }
            }
            None => {}
        }
    }
}

/// What bringing windows back to every output leaves (see `restore_outputs`).
pub open spec fn outputs_restored(a: WindowManager, b: WindowManager) -> bool {
    &&& (b.outputs@.len() == a.outputs@.len())
    &&& (forall|k: int| 0 <= k < b.outputs@.len() ==>
        (#[trigger] b.outputs@[k]).is_removed == a.outputs@[k].is_removed)
    &&& (b.focused_output_idx == a.focused_output_idx)
    &&& (b.overview_state == a.overview_state)
    &&& (b.status == a.status)
    &&& (b.pending_windows == a.pending_windows)
    &&& (a.focused_output_idx is Some ==> b.detached_outputs@.len() == 0)
    &&& (a.focused_output_idx is None ==> b.detached_outputs@.len() <= a.detached_outputs@.len())
    &&& (keeps_windows(a, b))
    &&& restore_frame(a, b)
    &&& (nothing_to_return(a) ==> b == a)
}

/// Bring windows back to every output (see `restore_to_output`); what is
/// still detached afterwards is merged into the focused output, so while
/// any output exists nothing stays detached. No window is lost.
pub fn restore_outputs(wm: &mut WindowManager)
    requires
        old(wm).wf(),
    ensures
        final(wm).wf(),
        outputs_restored(*old(wm), *final(wm)),
{
    proof {
        lemma_same_places(*old(wm), *old(wm));
        assert forall|k: int| 0 <= k < old(wm).outputs@.len() implies
            same_output_fields(old(wm).outputs@[k], #[trigger] old(wm).outputs@[k]) by {}
    }
    let n_out = wm.outputs.len();
    let mut o: usize = 0;
    while o < n_out
        invariant
            wm.wf(),
            n_out == wm.outputs@.len(),
            n_out == old(wm).outputs@.len(),
            o <= n_out,
            forall|k: int| 0 <= k < wm.outputs@.len() ==>
                (#[trigger] wm.outputs@[k]).is_removed == old(wm).outputs@[k].is_removed,
            wm.focused_output_idx == old(wm).focused_output_idx,
            wm.detached_outputs@.len() <= old(wm).detached_outputs@.len(),
            wm.overview_state == old(wm).overview_state,
            wm.status == old(wm).status,
            wm.pending_windows == old(wm).pending_windows,
            keeps_windows(*old(wm), *wm),
            restore_frame(*old(wm), *wm),
            nothing_to_return(*old(wm)) ==> *wm == *old(wm),
        decreases n_out - o,
    {
        let ghost before = *wm;
        restore_to_output(wm, o);
        proof {
            lemma_keeps_trans(*old(wm), before, *wm);
            lemma_frame_trans(*old(wm), before, *wm);
        }
        o = o + 1;
    }
    let ghost before = *wm;
    match wm.focused_output_idx {
        Some(f) => {
            merge_leftover_detached(wm, f);
            proof {
                lemma_keeps_trans(*old(wm), before, *wm);
                lemma_frame_trans(*old(wm), before, *wm);
            }
        }
        None => {}
    }
}

} // verus!
