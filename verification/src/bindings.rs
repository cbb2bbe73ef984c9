//! Creating the key and pointer bindings river delivers presses for, and
//! routing a press to its action.

use vstd::prelude::*;
use crate::actions::{spec_button_code, button_code, KeybindingAction, PointerAction};
use crate::config::{Keybinding, PointerBinding};
use crate::dispatch::copy_strings;
use crate::keybinding::{parse_modifiers, spec_parse_modifiers, strings_view};
use crate::overview::{overview_toggle_requests, set_overview_keybinds};
use crate::wm::{BoundPointer, Request, WindowManager, XkbBinding};

verus! {

/// `b` is a copy of `a` (argument lists compared by their text).
pub open spec fn same_action(a: KeybindingAction, b: KeybindingAction) -> bool {
    match (a, b) {
        (KeybindingAction::Spawn(x), KeybindingAction::Spawn(y)) => strings_view(x@) == strings_view(y@),
        _ => a == b,
    }
}

/// A copy of an action.
pub fn copy_action(a: &KeybindingAction) -> (r: KeybindingAction)
    ensures
        same_action(*a, r),
{
    match a {
        KeybindingAction::CloseWindow => KeybindingAction::CloseWindow,
        KeybindingAction::ToggleFullscreen => KeybindingAction::ToggleFullscreen,
        KeybindingAction::ToggleMaximizeColumn => KeybindingAction::ToggleMaximizeColumn,
        KeybindingAction::FocusWindowLeft => KeybindingAction::FocusWindowLeft,
        KeybindingAction::FocusWindowOrOutputLeft => KeybindingAction::FocusWindowOrOutputLeft,
        KeybindingAction::FocusWindowRight => KeybindingAction::FocusWindowRight,
        KeybindingAction::FocusWindowOrOutputRight => KeybindingAction::FocusWindowOrOutputRight,
        KeybindingAction::MoveWindowLeft => KeybindingAction::MoveWindowLeft,
        KeybindingAction::MoveWindowRight => KeybindingAction::MoveWindowRight,
        KeybindingAction::MoveFloatingWindowLeft => KeybindingAction::MoveFloatingWindowLeft,
        KeybindingAction::MoveFloatingWindowRight => KeybindingAction::MoveFloatingWindowRight,
        KeybindingAction::MoveFloatingWindowUp => KeybindingAction::MoveFloatingWindowUp,
        KeybindingAction::MoveFloatingWindowDown => KeybindingAction::MoveFloatingWindowDown,
        KeybindingAction::MoveWindowLeftOrToOutputLeft => KeybindingAction::MoveWindowLeftOrToOutputLeft,
        KeybindingAction::MoveWindowRightOrToOutputRight => KeybindingAction::MoveWindowRightOrToOutputRight,
        KeybindingAction::ToggleWorkspaceFloating => KeybindingAction::ToggleWorkspaceFloating,
        KeybindingAction::FocusWorkspaceAbove => KeybindingAction::FocusWorkspaceAbove,
        KeybindingAction::FocusWorkspaceBelow => KeybindingAction::FocusWorkspaceBelow,
        KeybindingAction::FocusWorkspaceOrOutputAbove => KeybindingAction::FocusWorkspaceOrOutputAbove,
        KeybindingAction::FocusWorkspaceOrOutputBelow => KeybindingAction::FocusWorkspaceOrOutputBelow,
        KeybindingAction::FocusWorkspacePrevious => KeybindingAction::FocusWorkspacePrevious,
        KeybindingAction::MoveWindowToWorkspaceAbove => KeybindingAction::MoveWindowToWorkspaceAbove,
        KeybindingAction::MoveWindowToWorkspaceBelow => KeybindingAction::MoveWindowToWorkspaceBelow,
        KeybindingAction::MoveWindowToWorkspaceOrOutputAbove => KeybindingAction::MoveWindowToWorkspaceOrOutputAbove,
        KeybindingAction::MoveWindowToWorkspaceOrOutputBelow => KeybindingAction::MoveWindowToWorkspaceOrOutputBelow,
        KeybindingAction::FocusOutputLeft => KeybindingAction::FocusOutputLeft,
        KeybindingAction::FocusOutputRight => KeybindingAction::FocusOutputRight,
        KeybindingAction::FocusOutputAbove => KeybindingAction::FocusOutputAbove,
        KeybindingAction::FocusOutputBelow => KeybindingAction::FocusOutputBelow,
        KeybindingAction::MoveWindowToOutputLeft => KeybindingAction::MoveWindowToOutputLeft,
        KeybindingAction::MoveWindowToOutputRight => KeybindingAction::MoveWindowToOutputRight,
        KeybindingAction::MoveWindowToOutputAbove => KeybindingAction::MoveWindowToOutputAbove,
        KeybindingAction::MoveWindowToOutputBelow => KeybindingAction::MoveWindowToOutputBelow,
        KeybindingAction::Exit => KeybindingAction::Exit,
        KeybindingAction::ReloadConfig => KeybindingAction::ReloadConfig,
        KeybindingAction::EnterOverview => KeybindingAction::EnterOverview,
        KeybindingAction::OverviewCancel => KeybindingAction::OverviewCancel,
        KeybindingAction::OverviewConfirm => KeybindingAction::OverviewConfirm,
        KeybindingAction::OverviewNavUp => KeybindingAction::OverviewNavUp,
        KeybindingAction::OverviewNavDown => KeybindingAction::OverviewNavDown,
        KeybindingAction::OverviewNavLeft => KeybindingAction::OverviewNavLeft,
        KeybindingAction::OverviewNavRight => KeybindingAction::OverviewNavRight,
        KeybindingAction::AdjustWindowWidth(x) => KeybindingAction::AdjustWindowWidth(*x),
        KeybindingAction::SetWindowWidth(x) => KeybindingAction::SetWindowWidth(*x),
        KeybindingAction::AdjustFloatingWindowSize(x) => KeybindingAction::AdjustFloatingWindowSize(*x),
        KeybindingAction::SetFloatingWindowHeight(x) => KeybindingAction::SetFloatingWindowHeight(*x),
        KeybindingAction::FocusWorkspaceNumber(x) => KeybindingAction::FocusWorkspaceNumber(*x),
        KeybindingAction::MoveWindowToWorkspaceNumber(x) => KeybindingAction::MoveWindowToWorkspaceNumber(*x),
        KeybindingAction::Spawn(argv) => KeybindingAction::Spawn(copy_strings(argv)),
    }
}

/// The looked-up keysym of the `j`-th configured keybinding.
pub open spec fn keysym_at(keysyms: Seq<Option<u32>>, j: int) -> Option<u32> {
    if 0 <= j < keysyms.len() { keysyms[j] } else { None }
}

/// A configured keybinding river can be asked for: its key was looked up
/// to a keysym and its modifiers are all modifier names.
pub open spec fn key_binds(kb: Keybinding, keysym: Option<u32>) -> bool {
    &&& keysym is Some
    &&& spec_parse_modifiers(strings_view(kb.modifiers@)) is Ok
}

/// The keybindings among the first `n` of `kbs` that can be created, in
/// order, with their keysyms.
pub open spec fn bindable_keys(kbs: Seq<Keybinding>, keysyms: Seq<Option<u32>>, n: int) -> Seq<(Keybinding, u32)>
    decreases n,
{
    if n <= 0 {
        Seq::empty()
    } else {
        bindable_keys(kbs, keysyms, n - 1) + if key_binds(kbs[n - 1], keysym_at(keysyms, n - 1)) {
            seq![(kbs[n - 1], keysym_at(keysyms, n - 1)->0)]
        } else {
            Seq::empty()
        }
    }
}

/// The requests that create and enable the `k`-th binding.
pub open spec fn key_requests(k: int, kb: Keybinding, keysym: u32) -> Seq<Request> {
    seq![
        Request::GetXkbBinding {
            index: k as usize,
            keysym,
            modifiers: crate::keybinding::Modifiers { bits: spec_parse_modifiers(strings_view(kb.modifiers@))->Ok_0 },
        },
        Request::EnableXkbBinding(k as usize),
    ]
}

/// The requests that destroy bindings `0..n`.
pub open spec fn destroy_requests(n: int) -> Seq<Request>
    decreases n,
{
    if n <= 0 { Seq::empty() } else { destroy_requests(n - 1).push(Request::DestroyXkbBinding((n - 1) as usize)) }
}

/// The requests that create bindings for `keys` (already filtered), in
/// order.
pub open spec fn create_requests(keys: Seq<(Keybinding, u32)>) -> Seq<Request>
    decreases keys.len(),
{
    if keys.len() == 0 {
        Seq::empty()
    } else {
        create_requests(keys.drop_last()) + key_requests(keys.len() - 1, keys.last().0, keys.last().1)
    }
}

/// The bindings the configuration asks for.
pub open spec fn wanted_keys(wm: WindowManager) -> Seq<(Keybinding, u32)> {
    bindable_keys(wm.config.keybindings@, wm.keysyms@, wm.config.keybindings@.len() as int)
}

/// `b` is `a` with the key bindings rebuilt (see `setup_keybindings`).
pub open spec fn keys_set_up(a: WindowManager, b: WindowManager) -> bool {
    &&& (b.xkb_bindings@.len() == wanted_keys(a).len())
    &&& (forall|k: int| 0 <= k < b.xkb_bindings@.len() ==>
                same_action(wanted_keys(a)[k].0.action, #[trigger] b.xkb_bindings@[k].action))
    &&& (b.requests@ == a.requests@ + destroy_requests(a.xkb_bindings@.len() as int)
                + create_requests(wanted_keys(a))
                + overview_toggle_requests(b.xkb_bindings@, false, b.xkb_bindings@.len() as int))
    &&& (b == (WindowManager { xkb_bindings: b.xkb_bindings, requests: b.requests, ..a }))
}

/// Rebuild the key bindings from the configuration: every existing one is
/// destroyed; each configured keybinding whose key was looked up and whose
/// modifiers parse is created (numbered from 0, in configuration order)
/// and enabled, the others are skipped; then the overview-only ones are
/// disabled until the overview opens.
#[verifier::spinoff_prover]
#[verifier::rlimit(40)]
pub fn setup_keybindings(wm: &mut WindowManager)
    ensures
        keys_set_up(*old(wm), *final(wm)),
{
    let ghost r0 = wm.requests@;
    let n_old = wm.xkb_bindings.len();
    let mut i: usize = 0;
    while i < n_old
        invariant
            n_old == old(wm).xkb_bindings@.len(),
            i <= n_old,
            *wm == (WindowManager { requests: wm.requests, ..*old(wm) }),
            wm.requests@ == r0 + destroy_requests(i as int),
            r0 == old(wm).requests@,
        decreases n_old - i,
    {
        wm.send(Request::DestroyXkbBinding(i));
        i = i + 1;
    }
    wm.xkb_bindings.clear();
    let ghost r1 = wm.requests@;
    let ghost kbs = wm.config.keybindings@;
    let ghost syms = wm.keysyms@;
    let n = wm.config.keybindings.len();
    let mut j: usize = 0;
    while j < n
        invariant
            n == kbs.len(),
            kbs == old(wm).config.keybindings@,
            syms == old(wm).keysyms@,
            j <= n,
            *wm == (WindowManager { requests: wm.requests, xkb_bindings: wm.xkb_bindings, ..*old(wm) }),
            wm.xkb_bindings@.len() == bindable_keys(kbs, syms, j as int).len(),
            forall|k: int| 0 <= k < wm.xkb_bindings@.len() ==>
                same_action(bindable_keys(kbs, syms, j as int)[k].0.action, #[trigger] wm.xkb_bindings@[k].action),
            wm.requests@ == r1 + create_requests(bindable_keys(kbs, syms, j as int)),
            r1 == old(wm).requests@ + destroy_requests(old(wm).xkb_bindings@.len() as int),
        decreases n - j,
    {
        let ghost before = wm.xkb_bindings@;
        let keysym: Option<u32> = if j < wm.keysyms.len() { wm.keysyms[j] } else { None };
        let kb = &wm.config.keybindings[j];
        match keysym {
            Some(keysym) => {
                match parse_modifiers(kb.modifiers.as_slice()) {
                    Ok(mods) => {
                        let index = wm.xkb_bindings.len();
                        let action = copy_action(&kb.action);
                        let ghost b = bindable_keys(kbs, syms, j as int);
                        wm.send(Request::GetXkbBinding { index, keysym, modifiers: mods });
                        wm.send(Request::EnableXkbBinding(index));
                        wm.xkb_bindings.push(XkbBinding { action });
                        proof {
                            let b1 = bindable_keys(kbs, syms, j + 1);
                            assert(b1 =~= b.push((kbs[j as int], keysym)));
                            assert(b1.drop_last() =~= b);
                            assert(wm.requests@ =~= r1 + create_requests(b1));
                            assert forall|k: int| 0 <= k < wm.xkb_bindings@.len() implies
                                same_action(b1[k].0.action, #[trigger] wm.xkb_bindings@[k].action) by {
                                if k < before.len() {
                                    assert(wm.xkb_bindings@[k] == before[k]);
                                }
                            }
                        }
                    }
                    Err(_) => {
                        proof { assert(bindable_keys(kbs, syms, j + 1) =~= bindable_keys(kbs, syms, j as int)); }
                    }
                }
            }
            None => {
                proof { assert(bindable_keys(kbs, syms, j + 1) =~= bindable_keys(kbs, syms, j as int)); }
            }
        }
        j = j + 1;
    }
    set_overview_keybinds(wm, false);
}

/// A configured pointer binding river can be asked for: its modifiers are
/// all modifier names.
pub open spec fn pointer_binds(pb: PointerBinding) -> bool {
    spec_parse_modifiers(strings_view(pb.modifiers@)) is Ok
}

/// The pointer bindings of `pbs` that can be created, in order.
pub open spec fn bindable_pointers(pbs: Seq<PointerBinding>) -> Seq<PointerBinding>
    decreases pbs.len(),
{
    if pbs.len() == 0 {
        Seq::empty()
    } else {
        bindable_pointers(pbs.drop_last()) + if pointer_binds(pbs.last()) { seq![pbs.last()] } else { Seq::empty() }
    }
}

/// The requests that create pointer bindings for `pbs` (already
/// filtered), in order.
pub open spec fn pointer_requests(pbs: Seq<PointerBinding>) -> Seq<Request>
    decreases pbs.len(),
{
    if pbs.len() == 0 {
        Seq::empty()
    } else {
        pointer_requests(pbs.drop_last()).push(Request::GetPointerBinding {
            index: (pbs.len() - 1) as usize,
            button: spec_button_code(pbs.last().button),
            modifiers: crate::keybinding::Modifiers { bits: spec_parse_modifiers(strings_view(pbs.last().modifiers@))->Ok_0 },
        })
    }
}

/// `b` is `a` with the pointer bindings created (see `setup_pointer_bindings`).
pub open spec fn pointers_set_up(a: WindowManager, b: WindowManager) -> bool {
    &&& (b.pointer_bindings@.len() == bindable_pointers(a.config.pointer_bindings@).len())
    &&& (forall|k: int| 0 <= k < b.pointer_bindings@.len() ==>
                (#[trigger] b.pointer_bindings@[k]).action == bindable_pointers(a.config.pointer_bindings@)[k].action)
    &&& (b.requests@ == a.requests@ + pointer_requests(bindable_pointers(a.config.pointer_bindings@)))
    &&& (b == (WindowManager { pointer_bindings: b.pointer_bindings, requests: b.requests, ..a }))
}

/// Create the pointer bindings of the configuration whose modifiers
/// parse (numbered from 0, in order); the others are skipped.
pub fn setup_pointer_bindings(wm: &mut WindowManager)
    ensures
        pointers_set_up(*old(wm), *final(wm)),
{
    wm.pointer_bindings.clear();
    let ghost r0 = wm.requests@;
    let ghost pbs = wm.config.pointer_bindings@;
    let n = wm.config.pointer_bindings.len();
    let mut j: usize = 0;
    while j < n
        invariant
            n == pbs.len(),
            pbs == old(wm).config.pointer_bindings@,
            j <= n,
            *wm == (WindowManager { requests: wm.requests, pointer_bindings: wm.pointer_bindings, ..*old(wm) }),
            wm.pointer_bindings@.len() == bindable_pointers(pbs.take(j as int)).len(),
            forall|k: int| 0 <= k < wm.pointer_bindings@.len() ==>
                (#[trigger] wm.pointer_bindings@[k]).action == bindable_pointers(pbs.take(j as int))[k].action,
            wm.requests@ == r0 + pointer_requests(bindable_pointers(pbs.take(j as int))),
            r0 == old(wm).requests@,
        decreases n - j,
    {
        let ghost before = wm.pointer_bindings@;
        proof {
            assert(pbs.take(j + 1).drop_last() =~= pbs.take(j as int));
            assert(pbs.take(j + 1).last() == pbs[j as int]);
        }
        let pb = &wm.config.pointer_bindings[j];
        match parse_modifiers(pb.modifiers.as_slice()) {
            Ok(mods) => {
                let index = wm.pointer_bindings.len();
                let button = button_code(pb.button);
                let action = pb.action;
                let ghost b = bindable_pointers(pbs.take(j as int));
                wm.send(Request::GetPointerBinding { index, button, modifiers: mods });
                wm.pointer_bindings.push(BoundPointer { action });
                proof {
                    let b1 = bindable_pointers(pbs.take(j + 1));
                    assert(b1 =~= b.push(pbs[j as int]));
                    assert(b1.drop_last() =~= b);
                    assert(wm.requests@ =~= r0 + pointer_requests(b1));
                    assert forall|k: int| 0 <= k < wm.pointer_bindings@.len() implies
                        (#[trigger] wm.pointer_bindings@[k]).action == b1[k].action by {
                        if k < before.len() {
                            assert(wm.pointer_bindings@[k] == before[k]);
                        }
                    }
                }
            }
            Err(_) => {
                proof { assert(bindable_pointers(pbs.take(j + 1)) =~= bindable_pointers(pbs.take(j as int))); }
            }
        }
        j = j + 1;
    }
    proof { assert(pbs.take(n as int) =~= pbs); }
}

/// The action of key binding `index`, if it exists.
pub fn binding_action(wm: &WindowManager, index: usize) -> (r: Option<KeybindingAction>)
    ensures
        index < wm.xkb_bindings@.len() ==> (r matches Some(a) && same_action(wm.xkb_bindings@[index as int].action, a)),
        index >= wm.xkb_bindings@.len() ==> r is None,
{
    if index < wm.xkb_bindings.len() {
        Some(copy_action(&wm.xkb_bindings[index].action))
    } else {
        None
    }
}

pub open spec fn is_nav_left(a: KeybindingAction) -> bool {
    a is OverviewNavLeft || a is FocusWindowLeft || a is FocusOutputLeft
}

pub open spec fn is_nav_right(a: KeybindingAction) -> bool {
    a is OverviewNavRight || a is FocusWindowRight || a is FocusOutputRight
}

pub open spec fn is_nav_up(a: KeybindingAction) -> bool {
    a is OverviewNavUp || a is FocusWorkspaceAbove || a is FocusOutputAbove
}

pub open spec fn is_nav_down(a: KeybindingAction) -> bool {
    a is OverviewNavDown || a is FocusWorkspaceBelow || a is FocusOutputBelow
}

/// The keys that close the overview where it was opened: the overview
/// toggle itself, exit and cancel.
pub open spec fn is_overview_close(a: KeybindingAction) -> bool {
    a is EnterOverview || a is Exit || a is OverviewCancel
}

/// The grid position a navigation key moves the highlight to, from `cur`
/// in a grid of `total` entries in `cols` columns: one step left or right
/// within the row, one row up or down; at the grid's edge it stays, and it
/// never goes past the last entry (the last row may be partial).
pub open spec fn nav_next(a: KeybindingAction, total: int, cols: int, cur: int) -> int {
    let rows = crate::layout::rows_for(total, cols);
    let row = cur / cols;
    let col = cur % cols;
    let next = if is_nav_left(a) {
        if col > 0 { cur - 1 } else { cur }
    } else if is_nav_right(a) {
        if col + 1 < cols { cur + 1 } else { cur }
    } else if is_nav_up(a) {
        if row > 0 { cur - cols } else { cur }
    } else {
        if row + 1 < rows { cur + cols } else { cur }
    };
    if next >= total { total - 1 } else { next }
}

/// Law: in the overview grid, up and down move the highlight by one whole
/// row and keep its column, left and right by one entry within the row;
/// at the grid's edge it stays where it is.
pub proof fn law_overview_nav_moves(total: int, cols: int, cur: int)
    requires
        0 <= cur < total,
        cols >= 1,
    ensures
        cur >= cols ==> nav_next(KeybindingAction::OverviewNavUp, total, cols, cur) == cur - cols,
        cur < cols ==> nav_next(KeybindingAction::OverviewNavUp, total, cols, cur) == cur,
        nav_next(KeybindingAction::OverviewNavUp, total, cols, cur) % cols == cur % cols,
        cur + cols < total ==> nav_next(KeybindingAction::OverviewNavDown, total, cols, cur) == cur + cols,
        cur + cols < total ==> nav_next(KeybindingAction::OverviewNavDown, total, cols, cur) % cols == cur % cols,
        cur % cols > 0 ==> nav_next(KeybindingAction::OverviewNavLeft, total, cols, cur) == cur - 1,
        cur % cols == 0 ==> nav_next(KeybindingAction::OverviewNavLeft, total, cols, cur) == cur,
        cur % cols + 1 < cols && cur + 1 < total ==> nav_next(KeybindingAction::OverviewNavRight, total, cols, cur) == cur + 1,
        cur % cols + 1 == cols ==> nav_next(KeybindingAction::OverviewNavRight, total, cols, cur) == cur,
{
    let row = cur / cols;
    let col = cur % cols;
    assert(cur == row * cols + col && 0 <= col < cols && row >= 0) by (nonlinear_arith)
        requires cols >= 1, cur >= 0, row == cur / cols, col == cur % cols;
    assert(row > 0 <==> cur >= cols) by (nonlinear_arith)
        requires cols >= 1, cur == row * cols + col, 0 <= col < cols, row >= 0;
    assert(cur >= cols ==> (cur - cols) % cols == col) by (nonlinear_arith)
        requires cols >= 1, cur == row * cols + col, 0 <= col < cols, row >= 0;
    assert(cur + cols < total ==> row + 1 < crate::layout::rows_for(total, cols)) by (nonlinear_arith)
        requires cols >= 1, cur == row * cols + col, 0 <= col < cols, row >= 0, total > cur;
    assert((cur + cols) % cols == col) by (nonlinear_arith)
        requires cols >= 1, cur == row * cols + col, 0 <= col < cols, row >= 0;
}

/// Law: navigating the overview keeps the highlight on an entry.
pub proof fn law_overview_nav_stays_in_grid(a: KeybindingAction, total: int, cols: int, cur: int)
    requires
        0 <= cur < total,
        cols >= 1,
    ensures
        0 <= nav_next(a, total, cols, cur) < total,
{
    let row = cur / cols;
    assert(row > 0 ==> cur - cols >= 0) by (nonlinear_arith)
        requires cols >= 1, cur >= 0, row == cur / cols;
    assert(cur % cols > 0 ==> cur > 0) by (nonlinear_arith)
        requires cols >= 1, cur >= 0;
}

fn nav_next_exec(a: &KeybindingAction, total: usize, cols: usize, cur: usize) -> (r: usize)
    requires
        cur < total,
        cols >= 1,
    ensures
        r == nav_next(*a, total as int, cols as int, cur as int),
{
    proof { law_overview_nav_stays_in_grid(*a, total as int, cols as int, cur as int); }
    let rows: usize = if total == 0 { 1 } else { (total - 1) / cols + 1 };
    let row = cur / cols;
    let col = cur % cols;
    let left = match a {
        KeybindingAction::OverviewNavLeft | KeybindingAction::FocusWindowLeft | KeybindingAction::FocusOutputLeft => true,
        _ => false,
    };
    let right = match a {
        KeybindingAction::OverviewNavRight | KeybindingAction::FocusWindowRight | KeybindingAction::FocusOutputRight => true,
        _ => false,
    };
    let up = match a {
        KeybindingAction::OverviewNavUp | KeybindingAction::FocusWorkspaceAbove | KeybindingAction::FocusOutputAbove => true,
        _ => false,
    };
    proof {
        assert(row > 0 ==> cur - cols >= 0) by (nonlinear_arith)
            requires cols >= 1, cur >= 0, row == cur / cols;
    }
    let next: usize = if left {
        if col > 0 { cur - 1 } else { cur }
    } else if right {
        if col + 1 < cols { cur + 1 } else { cur }
    } else if up {
        if row > 0 { cur - cols } else { cur }
    } else {
        if row + 1 < rows {
            if cols >= total - cur { total } else { cur + cols }
        } else {
            cur
        }
    };
    if next >= total { total - 1 } else { next }
}

/// What a key does while the overview is open (see `overview_key_pressed`).
pub open spec fn overview_key_effect(a: WindowManager, b: WindowManager, index: int) -> bool {
    if index >= a.xkb_bindings@.len() {
        b == a
    } else {
        let act = a.xkb_bindings@[index].action;
        exists|p: WindowManager| {
            &&& crate::overview::prune_effect(a, p)
            &&& p.xkb_bindings == a.xkb_bindings
            &&& match p.overview_state {
                None => b == p,
                Some(ov) => if is_overview_close(act) {
                    exists|c: WindowManager| {
                        &&& crate::overview::cancelled(p, c)
                        &&& c.requests@ == p.requests@ + crate::overview::overview_toggle_requests(p.xkb_bindings@, false, p.xkb_bindings@.len() as int)
                        &&& crate::layout::is_updated(WindowManager { status: crate::wm::Status::Layout, ..c }, b)
                    }
                } else if act is OverviewConfirm {
                    exists|c: WindowManager| {
                        &&& crate::overview::select_result(p, c)
                        &&& c.requests@ == p.requests@ + crate::overview::overview_toggle_requests(p.xkb_bindings@, false, p.xkb_bindings@.len() as int)
                        &&& crate::layout::is_updated(WindowManager { status: crate::wm::Status::Layout, ..c }, b)
                    }
                } else if is_nav_left(act) || is_nav_right(act) || is_nav_up(act) || is_nav_down(act) {
                    let next = nav_next(act, ov.entries@.len() as int, ov.columns as int, ov.highlighted as int);
                    if next == ov.highlighted {
                        b == p
                    } else {
                        &&& b.overview_state == Some(crate::wm::OverviewState { highlighted: next as usize, ..ov })
                        &&& b.status == crate::wm::Status::Overview
                        &&& b.requests@ == p.requests@.push(Request::ManageDirty)
                        &&& b == (WindowManager { overview_state: b.overview_state, status: b.status, requests: b.requests, ..p })
                    }
                } else {
                    b == p
                },
            }
        }
    }
}

fn close_kind(a: &KeybindingAction) -> (r: bool)
    ensures
        r == is_overview_close(*a),
{
    match a {
        KeybindingAction::EnterOverview | KeybindingAction::Exit | KeybindingAction::OverviewCancel => true,
        _ => false,
    }
}

fn nav_kind(a: &KeybindingAction) -> (r: bool)
    ensures
        r == (is_nav_left(*a) || is_nav_right(*a) || is_nav_up(*a) || is_nav_down(*a)),
{
    match a {
        KeybindingAction::OverviewNavLeft | KeybindingAction::FocusWindowLeft | KeybindingAction::FocusOutputLeft
        | KeybindingAction::OverviewNavRight | KeybindingAction::FocusWindowRight | KeybindingAction::FocusOutputRight
        | KeybindingAction::OverviewNavUp | KeybindingAction::FocusWorkspaceAbove | KeybindingAction::FocusOutputAbove
        | KeybindingAction::OverviewNavDown | KeybindingAction::FocusWorkspaceBelow | KeybindingAction::FocusOutputBelow => true,
        _ => false,
    }
}

/// A key pressed while the overview is open: entries of closed windows
/// are dropped first; the toggle, exit and cancel keys close the overview
/// where it was opened, confirm closes it on the highlighted window (both
/// followed by a layout pass); navigation keys (the overview's own and
/// the window, workspace and output focus keys) move the highlight (see
/// `nav_next`); other keys do nothing.
#[verifier::spinoff_prover]
#[verifier::rlimit(40)]
pub fn overview_key_pressed(wm: &mut WindowManager, index: usize)
    requires
        old(wm).wf(),
    ensures
        final(wm).wf(),
        overview_key_effect(*old(wm), *final(wm), index as int),
{
    let action = match binding_action(wm, index) {
        Some(a) => a,
        None => return,
    };
    crate::overview::prune(wm);
    let ghost p = *wm;
    let (total, cols, cur) = match &wm.overview_state {
        Some(ov) => (ov.entries.len(), ov.columns, ov.highlighted),
        None => return,
    };
    if close_kind(&action) {
        crate::overview::cancel(wm);
        let ghost c = *wm;
        wm.status = crate::wm::Status::Layout;
        crate::layout::update(wm);
        proof {
            assert(crate::overview::cancelled(p, c));
        }
        return;
    }
    if let KeybindingAction::OverviewConfirm = action {
        crate::overview::select(wm);
        let ghost c = *wm;
        wm.status = crate::wm::Status::Layout;
        crate::layout::update(wm);
        proof {
            assert(crate::overview::select_result(p, c));
        }
        return;
    }
    if !nav_kind(&action) {
        return;
    }
    let next = nav_next_exec(&action, total, cols, cur);
    if next != cur {
        match &mut wm.overview_state {
            Some(ov) => {
                ov.highlighted = next;
            }
            None => {}
        }
        wm.status = crate::wm::Status::Overview;
        wm.send(Request::ManageDirty);
    }
}

/// What a pressed key binding does (see `binding_pressed`).
pub open spec fn binding_pressed_effect(a: WindowManager, b: WindowManager, index: int) -> bool {
    if a.status is PointerAction || a.session_locked {
        b == a
    } else if a.overview_state is Some {
        overview_key_effect(a, b, index)
    } else if index >= a.xkb_bindings@.len() {
        b == a
    } else {
        exists|act: KeybindingAction, mid: WindowManager| {
            &&& same_action(a.xkb_bindings@[index].action, act)
            &&& crate::dispatch::dispatch_effect(a, mid, act)
            &&& b.requests@ == mid.requests@.push(Request::ManageDirty)
            &&& b == (WindowManager { requests: b.requests, ..mid })
        }
    }
}

/// A key binding was pressed: ignored during a pointer drag and while the
/// session is locked; routed to the overview while it is open; otherwise
/// its action is carried out (`dispatch_action`) and a manage sequence is
/// asked for.
pub fn binding_pressed(wm: &mut WindowManager, index: usize)
    requires
        old(wm).wf(),
    ensures
        final(wm).wf(),
        binding_pressed_effect(*old(wm), *final(wm), index as int),
{
    if let crate::wm::Status::PointerAction(_) = wm.status {
        return;
    }
    if wm.session_locked {
        return;
    }
    if wm.overview_state.is_some() {
        overview_key_pressed(wm, index);
        return;
    }
    let action = match binding_action(wm, index) {
        Some(a) => a,
        None => return,
    };
    crate::dispatch::dispatch_action(wm, &action);
    wm.send(Request::ManageDirty);
}

/// The request that sets the cursor theme a configuration names (on a
/// seat that exists).
pub open spec fn cursor_request(c: crate::config::Config, has_seat: bool) -> Seq<Request> {
    match c.cursor {
        Some(cur) => if has_seat {
            seq![Request::SetXcursorTheme { theme: cur.theme, size: cur.size }]
        } else {
            Seq::empty()
        },
        None => Seq::empty(),
    }
}

/// After the process around the library read the configuration again
/// (on `ReloadConfig`) and looked its key names up: with no new
/// configuration the running one stays and nothing changes; otherwise it
/// is installed with its keysyms, the cursor theme it names is set on the
/// seat, the layout is recomputed, bindings are rebuilt at the next manage
/// sequence, and a manage sequence is asked for.
pub fn finish_reload(wm: &mut WindowManager, new_config: Option<crate::config::Config>, keysyms: Vec<Option<u32>>)
    requires
        old(wm).wf(),
    ensures
        final(wm).wf(),
        new_config is None ==> *final(wm) == *old(wm),
        new_config matches Some(c) ==> {
            let mid = WindowManager { config: c, keysyms: keysyms, ..*old(wm) };
            &&& final(wm).config == c
            &&& final(wm).keysyms@ == keysyms@
            &&& final(wm).needs_setup_bindings
            &&& final(wm).requests@ == old(wm).requests@ + cursor_request(c, old(wm).has_seat) + seq![Request::ManageDirty]
            &&& crate::layout::is_updated(mid, WindowManager {
                needs_setup_bindings: old(wm).needs_setup_bindings,
                requests: old(wm).requests,
                ..*final(wm)
            })
            &&& final(wm).outputs@.len() == old(wm).outputs@.len()
        },
{
    let config = match new_config {
        Some(c) => c,
        None => return,
    };
    wm.config = config;
    wm.keysyms = keysyms;
    crate::layout::update(wm);
    let ghost updated = *wm;
    let theme = match &wm.config.cursor {
        Some(cursor) => Some((cursor.theme.clone(), cursor.size)),
        None => None,
    };
    if let Some((theme, size)) = theme {
        if wm.has_seat {
            wm.send(Request::SetXcursorTheme { theme, size });
        }
    }
    wm.needs_setup_bindings = true;
    wm.send(Request::ManageDirty);
    proof {
        assert(wm.requests@ =~= old(wm).requests@ + cursor_request(wm.config, old(wm).has_seat) + seq![Request::ManageDirty]);
        assert(updated == (WindowManager { needs_setup_bindings: old(wm).needs_setup_bindings, requests: old(wm).requests, ..*wm }));
    }
}

} // verus!
