//! What a key or pointer binding does.
//!
//! Proportions and increments are fixed-point numbers in thousandths
//! (`500` is half the usable width), so the library never touches floating
//! point.

use vstd::prelude::*;

verus! {

/// Thousandths: the scale of every proportion and increment.
pub const PER_MILLE: u32 = 1000;

/// The action a keybinding triggers.
#[derive(Clone, Debug, PartialEq, Eq)]
pub enum KeybindingAction {
    CloseWindow,
    ToggleFullscreen,
    ToggleMaximizeColumn,
    /// Change the focused column's width by this many thousandths of the
    /// output (floating windows: of the output's width in pixels).
    AdjustWindowWidth(i32),
    /// Set the focused column's width to this many thousandths.
    SetWindowWidth(u32),
    AdjustFloatingWindowSize(i32),
    SetFloatingWindowHeight(u32),
    FocusWindowLeft,
    FocusWindowOrOutputLeft,
    FocusWindowRight,
    FocusWindowOrOutputRight,
    MoveWindowLeft,
    MoveWindowRight,
    MoveFloatingWindowLeft,
    MoveFloatingWindowRight,
    MoveFloatingWindowUp,
    MoveFloatingWindowDown,
    MoveWindowLeftOrToOutputLeft,
    MoveWindowRightOrToOutputRight,
    ToggleWorkspaceFloating,
    FocusWorkspaceAbove,
    FocusWorkspaceBelow,
    FocusWorkspaceOrOutputAbove,
    FocusWorkspaceOrOutputBelow,
    FocusWorkspacePrevious,
    /// Workspace numbers count from 1.
    FocusWorkspaceNumber(usize),
    MoveWindowToWorkspaceAbove,
    MoveWindowToWorkspaceBelow,
    MoveWindowToWorkspaceOrOutputAbove,
    MoveWindowToWorkspaceOrOutputBelow,
    MoveWindowToWorkspaceNumber(usize),
    FocusOutputLeft,
    FocusOutputRight,
    FocusOutputAbove,
    FocusOutputBelow,
    MoveWindowToOutputLeft,
    MoveWindowToOutputRight,
    MoveWindowToOutputAbove,
    MoveWindowToOutputBelow,
    Exit,
    ReloadConfig,
    EnterOverview,
    OverviewCancel,
    OverviewConfirm,
    OverviewNavUp,
    OverviewNavDown,
    OverviewNavLeft,
    OverviewNavRight,
    Spawn(Vec<String>),
}

/// The bare-key actions that only mean something while the overview is
/// open.
pub open spec fn is_overview_only(a: KeybindingAction) -> bool {
    ||| a is OverviewConfirm
    ||| a is OverviewCancel
    ||| a is OverviewNavUp
    ||| a is OverviewNavDown
    ||| a is OverviewNavLeft
    ||| a is OverviewNavRight
}

/// Whether `a` is one of the overview-only actions.
pub fn overview_only(a: &KeybindingAction) -> (r: bool)
    ensures
        r == is_overview_only(*a),
{
    match a {
        KeybindingAction::OverviewConfirm | KeybindingAction::OverviewCancel
        | KeybindingAction::OverviewNavUp | KeybindingAction::OverviewNavDown
        | KeybindingAction::OverviewNavLeft | KeybindingAction::OverviewNavRight => true,
        _ => false,
    }
}

/// The drag a pointer binding starts.
#[derive(Clone, Copy, Debug, PartialEq, Eq, Structural)]
pub enum PointerAction {
    MoveWindow,
    ResizeWindow,
}

/// A pointer button.
#[derive(Clone, Copy, Debug, PartialEq, Eq, Structural)]
pub enum Button {
    Left,
    Right,
    Middle,
    Side,
    Extra,
}

/// The evdev code of a button (linux/input-event-codes.h).
pub open spec fn spec_button_code(b: Button) -> u32 {
    match b {
        Button::Left => 0x110,
        Button::Right => 0x111,
        Button::Middle => 0x112,
        Button::Side => 0x113,
        Button::Extra => 0x114,
    }
}

/// The evdev code river expects for a button.
pub fn button_code(b: Button) -> (c: u32)
    ensures
        c == spec_button_code(b),
{
    match b {
        Button::Left => 0x110,
        Button::Right => 0x111,
        Button::Middle => 0x112,
        Button::Side => 0x113,
        Button::Extra => 0x114,
    }
}

} // verus!
