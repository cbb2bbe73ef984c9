//! The window manager's state: outputs with their ten workspaces, the
//! windows on them, what was detached when outputs went away, and the
//! requests the state machine wants sent to the compositor.
//!
//! Protocol objects are named by their wire ids (`u32`); the requests are
//! queued in `WindowManager::requests` for the caller to send.

use vstd::prelude::*;
use crate::actions::{KeybindingAction, PointerAction};
use crate::config::Config;
use crate::geometry::Rect;
use crate::keybinding::Modifiers;

verus! {

/// Every output has this many workspaces.
pub const NUM_WORKSPACES: usize = 10;

/// Per-window geometry and the caches of what was last sent to river.
pub struct WindowGeom {
    pub is_closing: bool,
    pub is_fullscreen: bool,
    pub is_floating: bool,
    /// Column width in thousandths of the usable output width.
    pub proportion: u32,
    /// Where the window rests while floating.
    pub floating: Rect,
    /// The geometry last committed.
    pub current: Rect,
    /// The geometry the next commit moves to; `None` hides the window.
    pub finish: Option<Rect>,
    pub sent_visible: Option<bool>,
    pub sent_current: Option<Rect>,
    pub sent_clip: Option<Rect>,
    pub sent_border_focused: Option<bool>,
    pub sent_border_width: Option<u32>,
    pub sent_fullscreen: Option<bool>,
    /// The output a migrated window came from, so it can go back there.
    pub former_output_name: Option<String>,
    /// The floating rectangle when a pointer drag began.
    pub drag_origin: Option<Rect>,
}

/// A window: its `river_window_v1` id, the identification river sent,
/// and its geometry.
pub struct Window {
    pub id: u32,
    pub app_id: Option<String>,
    pub title: Option<String>,
    pub geom: WindowGeom,
}

/// A workspace: an ordered row of windows and the index of the focused one.
pub struct Workspace {
    pub window_list: Vec<Window>,
    pub focused_window_idx: Option<usize>,
}

/// An output (monitor) as river describes it.
pub struct Output {
    pub id: u32,
    pub name: Option<String>,
    pub rectangle: Rect,
    /// The area left after layer-shell exclusive zones (bars).
    pub non_exclusive: Rect,
    /// Removed by river; dealt with at the next manage sequence.
    pub is_removed: bool,
    /// Whether a layer-shell output object was made for this output (the
    /// layer-shell global was bound when the output appeared).
    pub has_layer_shell: bool,
    pub focused_workspace_idx: usize,
    pub workspace_list: Vec<Workspace>,
}

/// The workspaces of an output that went away while no other output was
/// left, kept under the output's name.
pub struct DetachedOutput {
    pub name: String,
    pub workspace_list: Vec<Workspace>,
    pub focused_workspace_idx: usize,
}

/// A workspace location.
#[derive(Clone, Copy, Debug, PartialEq, Eq, Structural)]
pub struct OverviewHome {
    pub output_idx: usize,
    pub workspace_idx: usize,
}

/// The open overview: a grid of every window.
pub struct OverviewState {
    /// Window ids, in grid order.
    pub entries: Vec<u32>,
    pub columns: usize,
    pub highlighted: usize,
    /// Where the overview was opened from.
    pub home: OverviewHome,
}

/// What the next manage sequence does.
#[derive(Clone, Copy, Debug, PartialEq, Eq, Structural)]
pub enum Status {
    /// Nothing pending: the sequence ends any pointer operation.
    Idle,
    Layout,
    Overview,
    PointerAction(PointerAction),
    Exit,
}

/// Keyboard focus held by a layer-shell surface.
#[derive(Clone, Copy, Debug, PartialEq, Eq, Structural)]
pub enum LayerShellFocus {
    Unfocused,
    NonExclusive,
    Exclusive,
}

/// Cursor shapes shown during a drag.
#[derive(Clone, Copy, Debug, PartialEq, Eq, Structural)]
pub enum CursorShape {
    Default,
    Move,
    Resize,
}

/// A created `river_xkb_binding_v1`, named by its index in the list.
pub struct XkbBinding {
    pub action: KeybindingAction,
}

/// A created `river_pointer_binding_v1`, named by its index in the list.
pub struct BoundPointer {
    pub action: PointerAction,
}

/// A request for the compositor (or, for `Spawn` and `ReloadConfig`, for
/// the process around the library).
pub enum Request {
    FocusWindow(u32),
    ClearFocus,
    OpStartPointer,
    OpEnd,
    WarpPointer { x: i32, y: i32 },
    SetCursorShape(CursorShape),
    SetXcursorTheme { theme: String, size: u32 },
    GetXkbBinding { index: usize, keysym: u32, modifiers: Modifiers },
    EnableXkbBinding(usize),
    DisableXkbBinding(usize),
    DestroyXkbBinding(usize),
    GetPointerBinding { index: usize, button: u32, modifiers: Modifiers },
    ExitSession,
    ManageDirty,
    SetBorders { window: u32, width: u32, focused: bool, color: crate::config::RiverColor },
    PlaceTop(u32),
    Fullscreen { window: u32, output: u32 },
    ExitFullscreen(u32),
    Close(u32),
    ProposeDimensions { window: u32, width: i32, height: i32 },
    SetPosition { window: u32, x: i32, y: i32 },
    Show(u32),
    Hide(u32),
    SetClipBox { window: u32, rect: Rect },
    SetLayerShellDefault(u32),
    Spawn(Vec<String>),
    ReloadConfig,
}

/// The whole state.
pub struct WindowManager {
    pub config: Config,
    /// The keysym of each configured keybinding, in order, as the process
    /// around the library looked the key names up (`None`: not a keysym
    /// name).
    pub keysyms: Vec<Option<u32>>,
    pub outputs: Vec<Output>,
    pub focused_output_idx: Option<usize>,
    /// Windows river announced that are not mapped yet.
    pub pending_windows: Vec<Window>,
    /// Which pending windows already got their dimensions (mapped, but no
    /// output to put them on yet).
    pub pending_ready: Vec<bool>,
    pub detached_outputs: Vec<DetachedOutput>,
    pub previous_workspace: Option<OverviewHome>,
    pub overview_state: Option<OverviewState>,
    pub status: Status,
    pub has_seat: bool,
    pub needs_setup_bindings: bool,
    pub needs_refocus: bool,
    pub needs_pointer_warp: bool,
    pub session_locked: bool,
    pub lock_focus: Option<u32>,
    pub layer_shell_focus: LayerShellFocus,
    pub last_focused_window: Option<u32>,
    pub pointer_op_started: bool,
    /// The seat's pointer has a cursor shape device to set shapes with.
    pub has_cursor_shape: bool,
    pub should_exit_loop: bool,
    pub xkb_bindings: Vec<XkbBinding>,
    pub pointer_bindings: Vec<BoundPointer>,
    pub requests: Vec<Request>,
}

impl Workspace {
    /// The focus index, if any, names a window of the workspace.
    pub open spec fn wf(&self) -> bool {
        self.focused_window_idx matches Some(f) ==> f < self.window_list@.len()
    }

    /// The ids of the windows, in order.
    pub open spec fn ids(&self) -> Seq<u32> {
        self.window_list@.map_values(|w: Window| w.id)
    }

    pub fn new() -> (ws: Workspace)
        ensures
            ws.wf(),
            ws.window_list@.len() == 0,
            ws.focused_window_idx is None,
    {
        Workspace { window_list: Vec::new(), focused_window_idx: None }
    }
}

/// A list of `NUM_WORKSPACES` workspaces, each consistent.
pub open spec fn workspaces_wf(list: Seq<Workspace>) -> bool {
    &&& list.len() == NUM_WORKSPACES
    &&& forall|j: int| 0 <= j < list.len() ==> #[trigger] list[j].wf()
}

/// Ten empty workspaces.
pub fn empty_workspaces() -> (list: Vec<Workspace>)
    ensures
        workspaces_wf(list@),
        forall|j: int| 0 <= j < NUM_WORKSPACES ==> (#[trigger] list@[j]).window_list@.len() == 0,
{
    let mut list: Vec<Workspace> = Vec::new();
    let mut j: usize = 0;
    while j < NUM_WORKSPACES
        invariant
            j <= NUM_WORKSPACES,
            list@.len() == j,
            forall|k: int| 0 <= k < j ==> (#[trigger] list@[k]).wf() && list@[k].window_list@.len() == 0,
        decreases NUM_WORKSPACES - j,
    {
        list.push(Workspace::new());
        j = j + 1;
    }
    list
}

impl Output {
    pub open spec fn wf(&self) -> bool {
        &&& workspaces_wf(self.workspace_list@)
        &&& self.focused_workspace_idx < NUM_WORKSPACES
    }

    /// A fresh output with ten empty workspaces.
    pub fn new(id: u32, has_layer_shell: bool) -> (o: Output)
        ensures
            o.wf(),
            o.id == id,
            o.has_layer_shell == has_layer_shell,
            o.name is None,
            !o.is_removed,
            o.focused_workspace_idx == 0,
            forall|j: int| 0 <= j < NUM_WORKSPACES ==> (#[trigger] o.workspace_list@[j]).window_list@.len() == 0,
    {
        Output {
            id,
            name: None,
            rectangle: Rect::zero(),
            non_exclusive: Rect::zero(),
            is_removed: false,
            has_layer_shell,
            focused_workspace_idx: 0,
            workspace_list: empty_workspaces(),
        }
    }

    /// The area tiled windows are laid out in: the non-exclusive area once
    /// the layer shell reported one, the whole output before that.
    pub fn usable_area(&self) -> (r: Rect)
        ensures
            r == self.spec_usable_area(),
    {
        if self.non_exclusive.width > 0 && self.non_exclusive.height > 0 {
            self.non_exclusive
        } else {
            self.rectangle
        }
    }

    pub open spec fn spec_usable_area(&self) -> Rect {
        if self.non_exclusive.width > 0 && self.non_exclusive.height > 0 {
            self.non_exclusive
        } else {
            self.rectangle
        }
    }
}

impl DetachedOutput {
    pub open spec fn wf(&self) -> bool {
        &&& workspaces_wf(self.workspace_list@)
        &&& self.focused_workspace_idx < NUM_WORKSPACES
    }
}

impl OverviewState {
    pub open spec fn wf(&self) -> bool {
        &&& self.columns >= 1
        &&& self.highlighted < self.entries@.len()
    }
}

impl WindowGeom {
    /// A new window: half a column wide, nothing sent yet.
    pub fn new() -> (g: WindowGeom)
        ensures
            g.proportion == 500,
            !g.is_floating,
            !g.is_fullscreen,
            !g.is_closing,
            g.finish is None,
            g.former_output_name is None,
            g.drag_origin is None,
            g.sent_visible is None,
            g.sent_current is None,
            g.sent_clip is None,
            g.sent_border_focused is None,
            g.sent_border_width is None,
            g.sent_fullscreen is None,
    {
        WindowGeom {
            is_closing: false,
            is_fullscreen: false,
            is_floating: false,
            proportion: 500,
            floating: Rect::zero(),
            current: Rect::zero(),
            finish: None,
            sent_visible: None,
            sent_current: None,
            sent_clip: None,
            sent_border_focused: None,
            sent_border_width: None,
            sent_fullscreen: None,
            former_output_name: None,
            drag_origin: None,
        }
    }
}

impl Window {
    pub fn new(id: u32) -> (w: Window)
        ensures
            w.id == id,
            w.app_id is None,
            w.title is None,
            w.geom.proportion == 500,
            !w.geom.is_floating,
            !w.geom.is_fullscreen,
            w.geom.former_output_name is None,
    {
        Window { id, app_id: None, title: None, geom: WindowGeom::new() }
    }
}

/// `a` and `b` agree on every field but the outputs and the queued
/// requests.
pub open spec fn others_equal(a: WindowManager, b: WindowManager) -> bool {
    &&& a.config == b.config
    &&& a.keysyms == b.keysyms
    &&& a.focused_output_idx == b.focused_output_idx
    &&& a.pending_windows == b.pending_windows
    &&& a.pending_ready == b.pending_ready
    &&& a.detached_outputs == b.detached_outputs
    &&& a.previous_workspace == b.previous_workspace
    &&& a.overview_state == b.overview_state
    &&& a.status == b.status
    &&& a.has_seat == b.has_seat
    &&& a.needs_setup_bindings == b.needs_setup_bindings
    &&& a.needs_refocus == b.needs_refocus
    &&& a.needs_pointer_warp == b.needs_pointer_warp
    &&& a.session_locked == b.session_locked
    &&& a.lock_focus == b.lock_focus
    &&& a.layer_shell_focus == b.layer_shell_focus
    &&& a.last_focused_window == b.last_focused_window
    &&& a.pointer_op_started == b.pointer_op_started
    &&& a.has_cursor_shape == b.has_cursor_shape
    &&& a.should_exit_loop == b.should_exit_loop
    &&& a.xkb_bindings == b.xkb_bindings
    &&& a.pointer_bindings == b.pointer_bindings
}

impl WindowManager {
    /// The consistency every operation keeps: each output (and each
    /// detached output) has its ten workspaces, every focus index names an
    /// existing output, workspace or window, and an open overview
    /// highlights one of its entries.
    pub open spec fn wf(&self) -> bool {
        &&& forall|i: int| 0 <= i < self.outputs@.len() ==> #[trigger] self.outputs@[i].wf()
        &&& forall|i: int| 0 <= i < self.detached_outputs@.len() ==> #[trigger] self.detached_outputs@[i].wf()
        &&& (self.focused_output_idx matches Some(f) ==> f < self.outputs@.len())
        &&& (self.overview_state matches Some(ov) ==> ov.wf())
        &&& self.pending_ready@.len() == self.pending_windows@.len()
    }

    /// What the test harness checks after every manage sequence: `wf`, and
    /// the focused output is not one river removed.
    pub open spec fn consistent(&self) -> bool {
        &&& self.wf()
        &&& (self.focused_output_idx matches Some(f) ==> !self.outputs@[f as int].is_removed)
    }

    /// The workspace at `(o, w)`.
    pub open spec fn ws(&self, o: int, w: int) -> Workspace {
        self.outputs@[o].workspace_list@[w]
    }

    /// A window manager with no outputs, running `config`.
    pub fn new(config: Config) -> (wm: WindowManager)
        ensures
            wm.wf(),
            wm.consistent(),
            wm.outputs@.len() == 0,
            wm.focused_output_idx is None,
            wm.status == Status::Idle,
            wm.requests@.len() == 0,
    {
        WindowManager {
            config,
            keysyms: Vec::new(),
            outputs: Vec::new(),
            focused_output_idx: None,
            pending_windows: Vec::new(),
            pending_ready: Vec::new(),
            detached_outputs: Vec::new(),
            previous_workspace: None,
            overview_state: None,
            status: Status::Idle,
            has_seat: false,
            needs_setup_bindings: false,
            needs_refocus: false,
            needs_pointer_warp: false,
            session_locked: false,
            lock_focus: None,
            layer_shell_focus: LayerShellFocus::Unfocused,
            last_focused_window: None,
            pointer_op_started: false,
            has_cursor_shape: false,
            should_exit_loop: false,
            xkb_bindings: Vec::new(),
            pointer_bindings: Vec::new(),
            requests: Vec::new(),
        }
    }

    /// Queue a request.
    pub fn send(&mut self, r: Request)
        ensures
            final(self).requests@ == old(self).requests@.push(r),
            final(self).outputs == old(self).outputs,
            others_equal(*old(self), *final(self)),
            final(self).focused_output_idx == old(self).focused_output_idx,
            final(self).overview_state == old(self).overview_state,
            final(self).detached_outputs == old(self).detached_outputs,
            final(self).pending_windows == old(self).pending_windows,
            final(self).pending_ready == old(self).pending_ready,
            final(self).status == old(self).status,
            final(self).xkb_bindings == old(self).xkb_bindings,
    {
        self.requests.push(r);
    }

    /// Take the workspace at `(o, w)` out, leaving an empty one.
    pub fn take_workspace(&mut self, o: usize, w: usize) -> (ws: Workspace)
        requires
            old(self).wf(),
            o < old(self).outputs@.len(),
            w < NUM_WORKSPACES,
        ensures
            final(self).wf(),
            ws == old(self).ws(o as int, w as int),
            ws.wf(),
            final(self).ws(o as int, w as int).window_list@.len() == 0,
            final(self).outputs@.len() == old(self).outputs@.len(),
            forall|i: int| 0 <= i < final(self).outputs@.len() && i != o ==> final(self).outputs@[i] == old(self).outputs@[i],
            forall|j: int| 0 <= j < NUM_WORKSPACES && j != w ==> #[trigger] final(self).ws(o as int, j) == old(self).ws(o as int, j),
            final(self).outputs@[o as int].focused_workspace_idx == old(self).outputs@[o as int].focused_workspace_idx,
            final(self).outputs@[o as int].is_removed == old(self).outputs@[o as int].is_removed,
            final(self).outputs@[o as int].rectangle == old(self).outputs@[o as int].rectangle,
            final(self).outputs@[o as int].id == old(self).outputs@[o as int].id,
            final(self).outputs@[o as int].name == old(self).outputs@[o as int].name,
            final(self).outputs@[o as int].non_exclusive == old(self).outputs@[o as int].non_exclusive,
            final(self).outputs@[o as int].has_layer_shell == old(self).outputs@[o as int].has_layer_shell,
            others_equal(*old(self), *final(self)),
            final(self).focused_output_idx == old(self).focused_output_idx,
            final(self).overview_state == old(self).overview_state,
            final(self).detached_outputs == old(self).detached_outputs,
            final(self).requests == old(self).requests,
            final(self).status == old(self).status,
            final(self).pending_windows == old(self).pending_windows,
            final(self).pending_ready == old(self).pending_ready,
            final(self).config == old(self).config,
    {
        assert(self.outputs@[o as int].wf());
        assert(self.ws(o as int, w as int).wf());
        let mut ws = Workspace::new();
        std::mem::swap(&mut ws, &mut self.outputs[o].workspace_list[w]);
        assert(self.outputs@[o as int].wf()) by {
            assert forall|j: int| 0 <= j < NUM_WORKSPACES implies #[trigger] self.outputs@[o as int].workspace_list@[j].wf() by {
                if j != w {
                    assert(self.outputs@[o as int].workspace_list@[j] == old(self).outputs@[o as int].workspace_list@[j]);
                }
            }
        }
        ws
    }

    /// Put a workspace back at `(o, w)`.
    pub fn put_workspace(&mut self, o: usize, w: usize, ws: Workspace)
        requires
            old(self).wf(),
            o < old(self).outputs@.len(),
            w < NUM_WORKSPACES,
            ws.wf(),
        ensures
            final(self).wf(),
            final(self).ws(o as int, w as int) == ws,
            final(self).outputs@.len() == old(self).outputs@.len(),
            forall|i: int| 0 <= i < final(self).outputs@.len() && i != o ==> final(self).outputs@[i] == old(self).outputs@[i],
            forall|j: int| 0 <= j < NUM_WORKSPACES && j != w ==> #[trigger] final(self).ws(o as int, j) == old(self).ws(o as int, j),
            final(self).outputs@[o as int].focused_workspace_idx == old(self).outputs@[o as int].focused_workspace_idx,
            final(self).outputs@[o as int].is_removed == old(self).outputs@[o as int].is_removed,
            final(self).outputs@[o as int].rectangle == old(self).outputs@[o as int].rectangle,
            final(self).outputs@[o as int].id == old(self).outputs@[o as int].id,
            final(self).outputs@[o as int].name == old(self).outputs@[o as int].name,
            final(self).outputs@[o as int].non_exclusive == old(self).outputs@[o as int].non_exclusive,
            final(self).outputs@[o as int].has_layer_shell == old(self).outputs@[o as int].has_layer_shell,
            others_equal(*old(self), *final(self)),
            final(self).focused_output_idx == old(self).focused_output_idx,
            final(self).overview_state == old(self).overview_state,
            final(self).detached_outputs == old(self).detached_outputs,
            final(self).requests == old(self).requests,
            final(self).status == old(self).status,
            final(self).pending_windows == old(self).pending_windows,
            final(self).pending_ready == old(self).pending_ready,
            final(self).config == old(self).config,
    {
        assert(self.outputs@[o as int].wf());
        self.outputs[o].workspace_list[w] = ws;
        assert(self.outputs@[o as int].wf()) by {
            assert forall|j: int| 0 <= j < NUM_WORKSPACES implies #[trigger] self.outputs@[o as int].workspace_list@[j].wf() by {
                if j != w {
                    assert(self.outputs@[o as int].workspace_list@[j] == old(self).outputs@[o as int].workspace_list@[j]);
                }
            }
        }
    }

    /// The focused output and its focused workspace.
    pub fn current_ws_idx(&self) -> (r: Option<(usize, usize)>)
        requires
            self.wf(),
        ensures
            match self.focused_output_idx {
                Some(o) => r == Some((o, self.outputs@[o as int].focused_workspace_idx)),
                None => r is None,
            },
            r matches Some((o, w)) ==> o < self.outputs@.len() && w < NUM_WORKSPACES,
    {
        match self.focused_output_idx {
            Some(o) => {
                assert(self.outputs@[o as int].wf());
                Some((o, self.outputs[o].focused_workspace_idx))
            }
            None => None,
        }
    }

    /// Where the focused window is: output, workspace and index.
    pub fn focused_window_location(&self) -> (r: Option<(usize, usize, usize)>)
        requires
            self.wf(),
        ensures
            r matches Some((o, w, i)) ==> {
                &&& self.focused_output_idx == Some(o)
                &&& o < self.outputs@.len()
                &&& w == self.outputs@[o as int].focused_workspace_idx
                &&& w < NUM_WORKSPACES
                &&& self.ws(o as int, w as int).focused_window_idx == Some(i)
                &&& i < self.ws(o as int, w as int).window_list@.len()
            },
            r is None ==> match self.focused_output_idx {
                Some(o) => self.ws(o as int, self.outputs@[o as int].focused_workspace_idx as int).focused_window_idx is None,
                None => true,
            },
    {
        match self.current_ws_idx() {
            Some((o, w)) => {
                assert(self.outputs@[o as int].wf());
                assert(self.ws(o as int, w as int).wf());
                match self.outputs[o].workspace_list[w].focused_window_idx {
                    Some(i) => Some((o, w, i)),
                    None => None,
                }
            }
            None => None,
        }
    }

    /// The id of the focused window of the focused workspace of the
    /// focused output.
    pub open spec fn spec_focused_window_id(&self) -> Option<u32> {
        match self.focused_output_idx {
            Some(o) => match self.ws(o as int, self.outputs@[o as int].focused_workspace_idx as int).focused_window_idx {
                Some(i) => Some(self.ws(o as int, self.outputs@[o as int].focused_workspace_idx as int).window_list@[i as int].id),
                None => None::<u32>,
            },
            None => None::<u32>,
        }
    }

    /// The id of the focused window.
    pub fn focused_window_id(&self) -> (r: Option<u32>)
        requires
            self.wf(),
        ensures
            r == self.spec_focused_window_id(),
    {
        match self.focused_window_location() {
            Some((o, w, i)) => {
                assert(self.outputs@[o as int].wf());
                Some(self.outputs[o].workspace_list[w].window_list[i].id)
            }
            None => None,
        }
    }

    /// Find a mapped window by id: output, workspace and index.
    pub fn locate_window(&self, id: u32) -> (r: Option<(usize, usize, usize)>)
        requires
            self.wf(),
        ensures
            r matches Some((o, w, i)) ==> {
                &&& o < self.outputs@.len()
                &&& w < NUM_WORKSPACES
                &&& i < self.ws(o as int, w as int).window_list@.len()
                &&& self.ws(o as int, w as int).window_list@[i as int].id == id
            },
            r is None ==> forall|o: int, w: int, i: int|
                0 <= o < self.outputs@.len() && 0 <= w < NUM_WORKSPACES && 0 <= i < self.ws(o, w).window_list@.len()
                    ==> #[trigger] self.ws(o, w).window_list@[i].id != id,
    {
        let mut o: usize = 0;
        while o < self.outputs.len()
            invariant
                self.wf(),
                o <= self.outputs@.len(),
                forall|p: int, w: int, i: int|
                    0 <= p < o && 0 <= w < NUM_WORKSPACES && 0 <= i < self.ws(p, w).window_list@.len()
                        ==> #[trigger] self.ws(p, w).window_list@[i].id != id,
            decreases self.outputs@.len() - o,
        {
            assert(self.outputs@[o as int].wf());
            let mut w: usize = 0;
            while w < NUM_WORKSPACES
                invariant
                    self.wf(),
                    o < self.outputs@.len(),
                    w <= NUM_WORKSPACES,
                    self.outputs@[o as int].workspace_list@.len() == NUM_WORKSPACES,
                    forall|p: int, v: int, i: int|
                        0 <= p < o && 0 <= v < NUM_WORKSPACES && 0 <= i < self.ws(p, v).window_list@.len()
                            ==> #[trigger] self.ws(p, v).window_list@[i].id != id,
                    forall|v: int, i: int|
                        0 <= v < w && 0 <= i < self.ws(o as int, v).window_list@.len()
                            ==> #[trigger] self.ws(o as int, v).window_list@[i].id != id,
                decreases NUM_WORKSPACES - w,
            {
                let list = &self.outputs[o].workspace_list[w].window_list;
                let mut i: usize = 0;
                while i < list.len()
                    invariant
                        o < self.outputs@.len(),
                        w < NUM_WORKSPACES,
                        self.outputs@[o as int].workspace_list@.len() == NUM_WORKSPACES,
                        *list == self.ws(o as int, w as int).window_list,
                        i <= list@.len(),
                        forall|k: int| 0 <= k < i ==> #[trigger] list@[k].id != id,
                    decreases list@.len() - i,
                {
                    if list[i].id == id {
                        return Some((o, w, i));
                    }
                    i = i + 1;
                }
                w = w + 1;
            }
            o = o + 1;
        }
        None
    }

    /// Find an output by its id, among the ones not removed.
    pub fn output_index(&self, id: u32) -> (r: Option<usize>)
        ensures
            r matches Some(o) ==> o < self.outputs@.len() && self.outputs@[o as int].id == id && !self.outputs@[o as int].is_removed,
            r is None ==> forall|o: int| 0 <= o < self.outputs@.len() ==>
                (#[trigger] self.outputs@[o]).id != id || self.outputs@[o].is_removed,
    {
        let mut o: usize = 0;
        while o < self.outputs.len()
            invariant
                o <= self.outputs@.len(),
                forall|p: int| 0 <= p < o ==> (#[trigger] self.outputs@[p]).id != id || self.outputs@[p].is_removed,
            decreases self.outputs@.len() - o,
        {
            if self.outputs[o].id == id && !self.outputs[o].is_removed {
                return Some(o);
            }
            o = o + 1;
        }
        None
    }
}

} // verus!
