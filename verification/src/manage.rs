//! The manage sequence: river sends events, then asks for a manage
//! sequence, and the state machine answers with its requests.

use vstd::prelude::*;
use crate::apply::{
    drop_removed_outputs, keeps_windows, lemma_keeps_trans, lemma_same_layout_keeps, lemma_same_places, none_removed,
    outputs_dropped, outputs_restored, restore_outputs, some_present,
};
use crate::bindings::{keys_set_up, pointers_set_up, setup_keybindings, setup_pointer_bindings};
use crate::events::{place_ready_pending, ready_placed};
use crate::focus::{apply_focus_and_borders, borders_and_focus_set, floats_raised, raise_floating_windows};
use crate::layout::{committed, is_updated, snap_to_finish, update};
use crate::wm::{Request, Status, WindowManager};

verus! {

/// The status a manage sequence leaves: a layout or overview pass is
/// done; a drag, an exit or idleness stays.
pub open spec fn status_after_manage(s: Status) -> Status {
    match s {
        Status::Layout | Status::Overview => Status::Idle,
        _ => s,
    }
}

/// The outputs, their removal marks and the focused output are as before.
pub open spec fn outputs_kept(a: WindowManager, b: WindowManager) -> bool {
    &&& b.outputs@.len() == a.outputs@.len()
    &&& forall|o: int| 0 <= o < b.outputs@.len() ==> (#[trigger] b.outputs@[o]).is_removed == a.outputs@[o].is_removed
    &&& b.focused_output_idx == a.focused_output_idx
}

/// `b` is `a` after a layout pass: the windows waiting for an output are
/// mapped, windows go back to returning outputs, every target is
/// recomputed, borders and focus are set, everything is committed and the
/// floating windows are raised, in that order.
pub open spec fn layout_passed(a: WindowManager, b: WindowManager) -> bool {
    exists|s1: WindowManager, s2: WindowManager, s3: WindowManager, s4: WindowManager, s5: WindowManager|
        #![trigger ready_placed(a, s1), outputs_restored(s1, s2), is_updated(s2, s3), borders_and_focus_set(s3, s4), committed(s4, s5)]
        ready_placed(a, s1) && outputs_restored(s1, s2) && is_updated(s2, s3) && borders_and_focus_set(s3, s4)
            && committed(s4, s5) && floats_raised(s5, b)
}

/// `b` is `a` after an overview pass: every target recomputed (the grid),
/// borders and focus set, everything committed.
pub open spec fn overview_passed(a: WindowManager, b: WindowManager) -> bool {
    exists|s1: WindowManager, s2: WindowManager|
        #![trigger is_updated(a, s1), borders_and_focus_set(s1, s2)]
        is_updated(a, s1) && borders_and_focus_set(s1, s2) && committed(s2, b)
}

/// `b` is `a` after a pass during a drag: the drag is started with river
/// once (`OpStartPointer`), then every target is recomputed and committed.
pub open spec fn drag_passed(a: WindowManager, b: WindowManager) -> bool {
    exists|s0: WindowManager, s1: WindowManager|
        #![trigger is_updated(s0, s1)]
        {
            &&& (a.pointer_op_started ==> s0 == a)
            &&& (!a.pointer_op_started ==> s0.requests@ == a.requests@.push(Request::OpStartPointer)
                && s0 == (WindowManager { requests: s0.requests, pointer_op_started: true, ..a }))
            &&& is_updated(s0, s1)
            &&& committed(s1, b)
        }
}

/// `b` is `a` after the status part of a manage sequence: a layout or
/// overview pass (then idle), a pass during a drag, ending the session, or,
/// when idle, sending focus again if an earlier pass could not and ending
/// any pointer operation.
pub open spec fn status_passed(a: WindowManager, b: WindowManager) -> bool {
    match a.status {
        Status::Layout => exists|x: WindowManager| #[trigger] layout_passed(a, x) && b == (WindowManager { status: Status::Idle, ..x }),
        Status::Overview => exists|x: WindowManager| #[trigger] overview_passed(a, x) && b == (WindowManager { status: Status::Idle, ..x }),
        Status::PointerAction(_) => drag_passed(a, b),
        Status::Exit => {
            &&& b.requests@ == a.requests@.push(Request::ExitSession)
            &&& b == (WindowManager { should_exit_loop: true, requests: b.requests, ..a })
        },
        Status::Idle => if a.needs_refocus {
            exists|x: WindowManager| {
                &&& #[trigger] borders_and_focus_set(a, x)
                &&& b.requests@ == x.requests@.push(Request::OpEnd)
                &&& b == (WindowManager { requests: b.requests, ..x })
            }
        } else {
            &&& b.requests@ == a.requests@.push(Request::OpEnd)
            &&& b == (WindowManager { requests: b.requests, ..a })
        },
    }
}

/// `b` is `a` after the bindings are created, when they are still wanted
/// and a seat and an output exist; otherwise `b` is `a`.
pub open spec fn bindings_ready(a: WindowManager, b: WindowManager) -> bool {
    if a.needs_setup_bindings && a.has_seat && a.outputs@.len() > 0 {
        exists|k: WindowManager, p: WindowManager|
            #![trigger keys_set_up(a, k), pointers_set_up(k, p)]
            keys_set_up(a, k) && pointers_set_up(k, p) && b == (WindowManager { needs_setup_bindings: false, ..p })
    } else {
        b == a
    }
}

/// `b` is `a` after one manage sequence: removed outputs taken out, the
/// status part done, then the bindings created when wanted; the result
/// is consistent (the focused output, if any, is one still present).
pub open spec fn managed(a: WindowManager, b: WindowManager) -> bool {
    &&& exists|d: WindowManager, s: WindowManager|
        #![trigger outputs_dropped(a, d), status_passed(d, s)]
        outputs_dropped(a, d) && status_passed(d, s) && bindings_ready(s, b)
    &&& b.consistent()
}

/// Whatever action is dispatched on a well-formed state, the manage
/// sequence that follows leaves a consistent state.
pub proof fn law_action_then_manage_consistent(a: WindowManager, b: WindowManager, c: WindowManager,
    action: crate::actions::KeybindingAction)
    requires
        a.wf(),
        crate::dispatch::dispatch_effect(a, b, action),
        managed(b, c),
    ensures
        c.consistent(),
{
}

/// The layout pass of a manage sequence.
fn layout_pass(wm: &mut WindowManager)
    requires
        old(wm).wf(),
    ensures
        final(wm).wf(),
        outputs_kept(*old(wm), *final(wm)),
        keeps_windows(*old(wm), *final(wm)),
        layout_passed(*old(wm), *final(wm)),
{
    place_ready_pending(wm);
    let ghost w1 = *wm;
    restore_outputs(wm);
    let ghost w2 = *wm;
    update(wm);
    let ghost w3 = *wm;
    apply_focus_and_borders(wm);
    let ghost w4 = *wm;
    snap_to_finish(wm);
    let ghost w5 = *wm;
    raise_floating_windows(wm);
    proof {
        lemma_keeps_trans(*old(wm), w1, w2);
        lemma_same_layout_keeps(w2, w3);
        lemma_keeps_trans(*old(wm), w2, w3);
        lemma_same_layout_keeps(w3, w4);
        lemma_keeps_trans(*old(wm), w3, w4);
        lemma_same_layout_keeps(w4, w5);
        lemma_keeps_trans(*old(wm), w4, w5);
        lemma_same_places(w5, *wm);
        lemma_keeps_trans(*old(wm), w5, *wm);
        assert(ready_placed(*old(wm), w1) && outputs_restored(w1, w2) && is_updated(w2, w3)
            && borders_and_focus_set(w3, w4) && committed(w4, w5) && floats_raised(w5, *wm));
    }
}

/// The overview pass of a manage sequence.
fn overview_pass(wm: &mut WindowManager)
    requires
        old(wm).wf(),
    ensures
        final(wm).wf(),
        outputs_kept(*old(wm), *final(wm)),
        keeps_windows(*old(wm), *final(wm)),
        overview_passed(*old(wm), *final(wm)),
{
    update(wm);
    let ghost w1 = *wm;
    apply_focus_and_borders(wm);
    let ghost w2 = *wm;
    snap_to_finish(wm);
    proof {
        assert(is_updated(*old(wm), w1) && borders_and_focus_set(w1, w2) && committed(w2, *wm));
        lemma_same_layout_keeps(*old(wm), w1);
        lemma_same_layout_keeps(w1, w2);
        lemma_keeps_trans(*old(wm), w1, w2);
        lemma_same_layout_keeps(w2, *wm);
        lemma_keeps_trans(*old(wm), w2, *wm);
    }
}

/// The pass of a manage sequence during a pointer drag.
fn drag_pass(wm: &mut WindowManager)
    requires
        old(wm).wf(),
    ensures
        final(wm).wf(),
        outputs_kept(*old(wm), *final(wm)),
        final(wm).status == old(wm).status,
        keeps_windows(*old(wm), *final(wm)),
        drag_passed(*old(wm), *final(wm)),
{
    if !wm.pointer_op_started {
        wm.send(Request::OpStartPointer);
        wm.pointer_op_started = true;
    }
    let ghost w0 = *wm;
    update(wm);
    let ghost w1 = *wm;
    snap_to_finish(wm);
    proof {
        assert(is_updated(w0, w1) && committed(w1, *wm));
        lemma_same_places(*old(wm), w0);
        lemma_same_layout_keeps(w0, w1);
        lemma_keeps_trans(*old(wm), w0, w1);
        lemma_same_layout_keeps(w1, *wm);
        lemma_keeps_trans(*old(wm), w1, *wm);
    }
}

/// Create the bindings when they are still wanted and a seat and an
/// output exist.
fn setup_bindings_when_ready(wm: &mut WindowManager)
    requires
        old(wm).wf(),
    ensures
        final(wm).wf(),
        outputs_kept(*old(wm), *final(wm)),
        final(wm).outputs == old(wm).outputs,
        final(wm).detached_outputs == old(wm).detached_outputs,
        final(wm).status == old(wm).status,
        final(wm).overview_state == old(wm).overview_state,
        final(wm).has_seat == old(wm).has_seat,
        final(wm).has_seat && final(wm).outputs@.len() > 0 ==> !final(wm).needs_setup_bindings,
        forall|r: Request| old(wm).requests@.contains(r) ==> final(wm).requests@.contains(r),
        bindings_ready(*old(wm), *final(wm)),
{
    if wm.needs_setup_bindings && wm.has_seat && wm.outputs.len() > 0 {
        let ghost r0 = wm.requests@;
        setup_keybindings(wm);
        let ghost k = *wm;
        let ghost r1 = wm.requests@;
        setup_pointer_bindings(wm);
        let ghost p = *wm;
        wm.needs_setup_bindings = false;
        proof { assert(keys_set_up(*old(wm), k) && pointers_set_up(k, p)); }
        proof {
            assert forall|r: Request| r0.contains(r) implies wm.requests@.contains(r) by {
                let k = choose|k: int| 0 <= k < r0.len() && r0[k] == r;
                assert(r1[k] == r0[k]);
                assert(wm.requests@[k] == r1[k]);
            }
        }
    }
}

/// The status pass of a manage sequence (see `manage`).
#[verifier::spinoff_prover]
#[verifier::rlimit(60)]
fn status_pass(wm: &mut WindowManager)
    requires
        old(wm).wf(),
    ensures
        final(wm).wf(),
        outputs_kept(*old(wm), *final(wm)),
        final(wm).status == status_after_manage(old(wm).status),
        old(wm).status == Status::Exit ==> final(wm).requests@.contains(Request::ExitSession),
        old(wm).status == Status::Idle ==> final(wm).requests@.contains(Request::OpEnd),
        keeps_windows(*old(wm), *final(wm)),
        status_passed(*old(wm), *final(wm)),
{
    match wm.status {
        Status::Layout => {
            layout_pass(wm);
            let ghost w1 = *wm;
            wm.status = Status::Idle;
            proof {
                assert(layout_passed(*old(wm), w1));
                assert(*wm == (WindowManager { status: Status::Idle, ..w1 }));
                assert(old(wm).status == Status::Layout);
                assert(exists|x: WindowManager| #[trigger] layout_passed(*old(wm), x) && *wm == (WindowManager { status: Status::Idle, ..x }));
                assert(status_passed(*old(wm), *wm));
                lemma_same_places(w1, *wm);
                lemma_keeps_trans(*old(wm), w1, *wm);
            }
        }
        Status::Overview => {
            overview_pass(wm);
            let ghost w1 = *wm;
            wm.status = Status::Idle;
            proof {
                assert(overview_passed(*old(wm), w1));
                lemma_same_places(w1, *wm);
                lemma_keeps_trans(*old(wm), w1, *wm);
            }
        }
        Status::PointerAction(_) => {
            drag_pass(wm);
            proof { assert(status_passed(*old(wm), *wm)); }
        }
        Status::Exit => {
            wm.should_exit_loop = true;
            wm.send(Request::ExitSession);
            proof {
                assert(wm.requests@[wm.requests@.len() - 1] == Request::ExitSession);
                lemma_same_places(*old(wm), *wm);
                assert(status_passed(*old(wm), *wm));
            }
        }
        Status::Idle => {
            let ghost w0 = *wm;
            if wm.needs_refocus {
                apply_focus_and_borders(wm);
            }
            let ghost w1 = *wm;
            wm.send(Request::OpEnd);
            proof {
                assert(wm.requests@ =~= w1.requests@.push(Request::OpEnd));
                if w0.needs_refocus {
                    assert(borders_and_focus_set(w0, w1));
                }
                assert(wm.requests@[wm.requests@.len() - 1] == Request::OpEnd);
                if w0.needs_refocus {
                    lemma_same_layout_keeps(w0, w1);
                } else {
                    lemma_same_places(w0, w1);
                }
                lemma_same_places(w1, *wm);
                lemma_keeps_trans(w0, w1, *wm);
                assert(status_passed(*old(wm), *wm));
            }
        }
    }
}

/// One manage sequence. Outputs river removed are taken out first (their
/// windows migrate, or are detached when no output is left). Then, by
/// status:
/// - `Layout`: windows that waited for an output are mapped, windows go
///   back to returning outputs, targets are recomputed, borders and focus
///   set, everything committed and floating windows raised;
/// - `Overview`: the grid is laid out, bordered and committed;
/// - a pointer drag: the drag is started with river once, and the dragged
///   window committed;
/// - `Exit`: the session is ended;
/// - idle: any pointer operation is ended (and focus sent again if an
///   earlier pass could not).
///
/// Last, bindings are created when they are still wanted and a seat and
/// an output exist. Every manage sequence leaves the state consistent, and
/// loses no window while some output stays (or none was removed).
pub fn manage(wm: &mut WindowManager)
    requires
        old(wm).wf(),
    ensures
        final(wm).wf(),
        final(wm).consistent(),
        crate::apply::none_removed(*final(wm)),
        final(wm).status == status_after_manage(old(wm).status),
        final(wm).has_seat && final(wm).outputs@.len() > 0 ==> !final(wm).needs_setup_bindings,
        old(wm).status == Status::Exit ==> final(wm).requests@.contains(Request::ExitSession),
        old(wm).status == Status::Idle ==> final(wm).requests@.contains(Request::OpEnd),
        some_present(*old(wm)) || none_removed(*old(wm)) ==> keeps_windows(*old(wm), *final(wm)),
        managed(*old(wm), *final(wm)),
{
    drop_removed_outputs(wm);
    let ghost start = *wm;
    status_pass(wm);
    let ghost mid = *wm;
    setup_bindings_when_ready(wm);
    proof {
        assert(outputs_dropped(*old(wm), start) && status_passed(start, mid));
        assert(outputs_kept(start, mid));
        assert(outputs_kept(start, *wm));
        lemma_same_places(mid, *wm);
        lemma_keeps_trans(start, mid, *wm);
        if some_present(*old(wm)) || none_removed(*old(wm)) {
            lemma_keeps_trans(*old(wm), start, *wm);
        }
    }
}

} // verus!
