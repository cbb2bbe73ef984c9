//! Where every window goes: the target rectangle (`geom.finish`) of each
//! window, and the requests that commit it.
//!
//! The focused workspace of each output is a scrolling row: tiled windows
//! stand side by side in columns (`proportion` thousandths of the usable
//! width), scrolled so the focused column is in view; floating windows keep
//! their rectangle, pushed inside the output; fullscreen windows fill the
//! output. Windows on other workspaces are hidden. While the overview is
//! open every window in it gets a cell of a grid on the focused output.

use vstd::prelude::*;
use crate::geometry::{
    fit_into, floating_min_size, min_floating_size, sane_area, sanitize, spec_clamp,
    spec_fit_into, spec_sanitize, spec_sat, Rect,
};
use crate::wm::{others_equal, Request, Window, WindowManager, Workspace, NUM_WORKSPACES};
use crate::focus::same_layout;

verus! {

/// How far row offsets may run before they are held (far beyond any
/// screen, so only absurd inputs are affected).
pub const ROW_CAP: i64 = 1099511627776;

/// The grid the overview is drawn in.
#[derive(Clone, Copy)]
pub struct Grid {
    pub area: Rect,
    pub columns: usize,
    pub rows: usize,
}

/// What the layout of one workspace depends on besides its windows.
#[derive(Clone, Copy)]
pub struct LayoutCtx {
    /// The workspace is the focused one of its output.
    pub shown: bool,
    /// The output as river reported it: fullscreen windows fill it.
    pub output_rect: Rect,
    /// The output, sanitized: floating windows are kept inside it.
    pub area: Rect,
    /// The usable area, sanitized: tiled windows are laid out in it.
    pub usable: Rect,
    pub hgap: i32,
    pub vgap: i32,
    pub border: u32,
    /// The overview grid, while the overview is open.
    pub grid: Option<Grid>,
}

/// A grid that can hold `n` entries inside a sane area.
pub open spec fn grid_wf(g: Grid, n: int) -> bool {
    &&& g.columns >= 1
    &&& g.rows >= 1
    &&& sane_area(g.area)
    &&& n <= g.columns * g.rows
}

pub open spec fn ctx_wf(ctx: LayoutCtx, n_entries: int) -> bool {
    &&& sane_area(ctx.area)
    &&& sane_area(ctx.usable)
    &&& (ctx.grid matches Some(g) ==> grid_wf(g, n_entries))
}

/// `v` held within `[-ROW_CAP, ROW_CAP]`.
pub open spec fn cap_row(v: int) -> int {
    spec_clamp(v, -ROW_CAP as int, ROW_CAP as int)
}

/// A window that takes a column of the row.
pub open spec fn is_tiled(w: Window) -> bool {
    !w.geom.is_floating && !w.geom.is_fullscreen
}

/// A column's width: `proportion` thousandths of the usable width less
/// one gap, less the gap between columns; at least one pixel.
pub open spec fn spec_column_width(usable_w: int, gap: int, proportion: int) -> int {
    let base = if usable_w - gap > 0 { usable_w - gap } else { 0 };
    spec_clamp(base * proportion / 1000 - gap, 1, i32::MAX as int)
}

/// How far along the row a tiled window's column advances the next one.
pub open spec fn row_step(ctx: LayoutCtx, w: Window) -> int {
    if is_tiled(w) {
        spec_column_width(ctx.usable.width as int, ctx.hgap as int, w.geom.proportion as int) + ctx.hgap
    } else {
        0
    }
}

/// Where the `k`-th window's column starts, relative to the row's start.
pub open spec fn row_offset(ctx: LayoutCtx, list: Seq<Window>, k: int) -> int
    decreases k,
{
    if k <= 0 {
        0
    } else {
        cap_row(row_offset(ctx, list, k - 1) + row_step(ctx, list[k - 1]))
    }
}

/// How far the row is scrolled: just enough that a focused tiled window
/// ends inside the usable area (less a gap).
pub open spec fn row_scroll(ctx: LayoutCtx, list: Seq<Window>, focus: Option<usize>) -> int {
    match focus {
        Some(f) => if f < list.len() && is_tiled(list[f as int]) {
            let end = row_offset(ctx, list, f as int)
                + spec_column_width(ctx.usable.width as int, ctx.hgap as int, list[f as int].geom.proportion as int);
            let view = ctx.usable.width - 2 * ctx.hgap;
            if end > view { end - view } else { 0 }
        } else {
            0
        },
        None => 0,
    }
}

/// The column of the tiled window `i`.
pub open spec fn tiled_rect(ctx: LayoutCtx, list: Seq<Window>, focus: Option<usize>, i: int) -> Rect {
    Rect {
        x: spec_sat(ctx.usable.x + ctx.hgap + row_offset(ctx, list, i) - row_scroll(ctx, list, focus)) as i32,
        y: spec_sat(ctx.usable.y + ctx.vgap) as i32,
        width: spec_column_width(ctx.usable.width as int, ctx.hgap as int, list[i].geom.proportion as int) as i32,
        height: spec_clamp(ctx.usable.height - 2 * ctx.vgap, 1, i32::MAX as int) as i32,
    }
}

/// The `k`-th cell of the grid, row by row.
pub open spec fn grid_cell(g: Grid, k: int) -> Rect {
    let cw = g.area.width as int / g.columns as int;
    let ch = g.area.height as int / g.rows as int;
    Rect {
        x: (g.area.x + (k % g.columns as int) * cw) as i32,
        y: (g.area.y + (k / g.columns as int) * ch) as i32,
        width: cw as i32,
        height: ch as i32,
    }
}

/// The first position of `id` in `s`, if it occurs.
pub open spec fn first_index(s: Seq<u32>, id: u32) -> Option<int> {
    if exists|k: int| 0 <= k < s.len() && s[k] == id && forall|j: int| 0 <= j < k ==> s[j] != id {
        Some(choose|k: int| 0 <= k < s.len() && s[k] == id && forall|j: int| 0 <= j < k ==> s[j] != id)
    } else {
        None
    }
}

/// The target of window `i` of a workspace (`None`: hidden).
pub open spec fn window_target(ctx: LayoutCtx, entries: Seq<u32>, list: Seq<Window>, focus: Option<usize>, i: int) -> Option<Rect> {
    match ctx.grid {
        Some(g) => match first_index(entries, list[i].id) {
            Some(k) => Some(grid_cell(g, k)),
            None => None,
        },
        None => if !ctx.shown {
            None
        } else if list[i].geom.is_fullscreen {
            Some(ctx.output_rect)
        } else if list[i].geom.is_floating {
            Some(spec_fit_into(list[i].geom.floating, ctx.area, min_floating_size(ctx.area, ctx.border)))
        } else {
            Some(tiled_rect(ctx, list, focus, i))
        },
    }
}

/// `b` is `a` with only its target rectangle replaced.
pub open spec fn with_finish(a: Window, b: Window, finish: Option<Rect>) -> bool {
    &&& b.id == a.id
    &&& b.app_id == a.app_id
    &&& b.title == a.title
    &&& b.geom.finish == finish
    &&& b.geom.is_closing == a.geom.is_closing
    &&& b.geom.is_fullscreen == a.geom.is_fullscreen
    &&& b.geom.is_floating == a.geom.is_floating
    &&& b.geom.proportion == a.geom.proportion
    &&& b.geom.floating == a.geom.floating
    &&& b.geom.current == a.geom.current
    &&& b.geom.sent_visible == a.geom.sent_visible
    &&& b.geom.sent_current == a.geom.sent_current
    &&& b.geom.sent_clip == a.geom.sent_clip
    &&& b.geom.sent_border_focused == a.geom.sent_border_focused
    &&& b.geom.sent_border_width == a.geom.sent_border_width
    &&& b.geom.sent_fullscreen == a.geom.sent_fullscreen
    &&& b.geom.former_output_name == a.geom.former_output_name
    &&& b.geom.drag_origin == a.geom.drag_origin
}

/// See `spec_column_width`.
pub fn column_width(usable_w: i32, gap: i32, proportion: u32) -> (r: i32)
    ensures
        r == spec_column_width(usable_w as int, gap as int, proportion as int),
        r >= 1,
{
    let diff: i64 = usable_w as i64 - gap as i64;
    let base: i128 = if diff > 0 { diff as i128 } else { 0 };
    proof {
        assert(0 <= base * (proportion as int) <= 0x1_0000_0000 * 0x1_0000_0000) by (nonlinear_arith)
            requires
                0 <= base <= 0x1_0000_0000,
                0 <= proportion <= 0xffff_ffff;
    }
    let scaled: i128 = base * proportion as i128 / 1000 - gap as i128;
    if scaled > i32::MAX as i128 {
        i32::MAX
    } else if scaled < 1 {
        1
    } else {
        scaled as i32
    }
}

fn cap_row_exec(v: i64) -> (r: i64)
    ensures
        r == cap_row(v as int),
{
    if v > ROW_CAP {
        ROW_CAP
    } else if v < -ROW_CAP {
        -ROW_CAP
    } else {
        v
    }
}

fn row_step_exec(ctx: LayoutCtx, w: &Window) -> (r: i64)
    ensures
        r == row_step(ctx, *w),
{
    if !w.geom.is_floating && !w.geom.is_fullscreen {
        column_width(ctx.usable.width, ctx.hgap, w.geom.proportion) as i64 + ctx.hgap as i64
    } else {
        0
    }
}

proof fn lemma_row_offset_bounded(ctx: LayoutCtx, list: Seq<Window>, k: int)
    ensures
        -ROW_CAP <= row_offset(ctx, list, k) <= ROW_CAP,
    decreases k,
{
    if k > 0 {
        lemma_row_offset_bounded(ctx, list, k - 1);
    }
}

/// The scroll of a workspace's row.
fn compute_scroll(ctx: LayoutCtx, list: &Vec<Window>, focus: Option<usize>) -> (r: i64)
    ensures
        r == row_scroll(ctx, list@, focus),
        0 <= r <= 4 * ROW_CAP,
{
    match focus {
        Some(f) => {
            if f < list.len() && !list[f].geom.is_floating && !list[f].geom.is_fullscreen {
                let mut acc: i64 = 0;
                let mut k: usize = 0;
                while k < f
                    invariant
                        f < list@.len(),
                        k <= f,
                        acc == row_offset(ctx, list@, k as int),
                    decreases f - k,
                {
                    proof { lemma_row_offset_bounded(ctx, list@, k as int); }
                    let step = row_step_exec(ctx, &list[k]);
                    acc = cap_row_exec(acc + step);
                    k = k + 1;
                }
                proof { lemma_row_offset_bounded(ctx, list@, f as int); }
                let end: i64 = acc + column_width(ctx.usable.width, ctx.hgap, list[f].geom.proportion) as i64;
                let view: i64 = ctx.usable.width as i64 - 2 * ctx.hgap as i64;
                if end > view { end - view } else { 0 }
            } else {
                0
            }
        }
        None => 0,
    }
}

/// The first position of `id` in `s`.
fn find_first(s: &Vec<u32>, id: u32) -> (r: Option<usize>)
    ensures
        r matches Some(k) ==> first_index(s@, id) == Some(k as int),
        r is None ==> first_index(s@, id) is None,
{
    let mut k: usize = 0;
    while k < s.len()
        invariant
            k <= s@.len(),
            forall|j: int| 0 <= j < k ==> s@[j] != id,
        decreases s@.len() - k,
    {
        if s[k] == id {
            proof {
                let p = |m: int| 0 <= m < s@.len() && s@[m] == id && forall|j: int| 0 <= j < m ==> s@[j] != id;
                assert(p(k as int));
                let c = choose|m: int| 0 <= m < s@.len() && s@[m] == id && forall|j: int| 0 <= j < m ==> s@[j] != id;
                assert(p(c));
                if c < k {
                    assert(s@[c] != id);
                }
                if c > k {
                    assert(s@[k as int] != id);
                }
            }
            return Some(k);
        }
        k = k + 1;
    }
    None
}

/// Law: every cell of an overview grid that holds `n` entries lies inside
/// the grid's area (so windows from any output are drawn on the focused
/// one).
pub proof fn law_overview_cells_inside_grid(g: Grid, k: int, n: int)
    requires
        grid_wf(g, n),
        0 <= k < n,
    ensures
        grid_cell(g, k).within(g.area),
        grid_cell(g, k) == (Rect {
            x: (g.area.x + (k % g.columns as int) * (g.area.width as int / g.columns as int)) as i32,
            y: (g.area.y + (k / g.columns as int) * (g.area.height as int / g.rows as int)) as i32,
            width: (g.area.width as int / g.columns as int) as i32,
            height: (g.area.height as int / g.rows as int) as i32,
        }),
{
    let c = g.columns as int;
    let r = g.rows as int;
    let cw = g.area.width as int / c;
    let ch = g.area.height as int / r;
    assert(0 <= (k % c) * cw && (k % c) * cw + cw <= g.area.width) by (nonlinear_arith)
        requires
            c >= 1,
            0 <= k,
            g.area.width >= 0,
            cw == g.area.width as int / c;
    assert(0 <= k / c < r) by (nonlinear_arith)
        requires
            c >= 1,
            r >= 1,
            0 <= k < n,
            n <= c * r;
    assert(0 <= (k / c) * ch && (k / c) * ch + ch <= g.area.height) by (nonlinear_arith)
        requires
            r >= 1,
            0 <= k / c < r,
            g.area.height >= 0,
            ch == g.area.height as int / r;
    assert(0 <= cw <= g.area.width) by (nonlinear_arith)
        requires c >= 1, g.area.width >= 0, cw == g.area.width as int / c;
    assert(0 <= ch <= g.area.height) by (nonlinear_arith)
        requires r >= 1, g.area.height >= 0, ch == g.area.height as int / r;
}

/// The `k`-th grid cell.
fn cell_of(g: Grid, k: usize, n: Ghost<int>) -> (r: Rect)
    requires
        grid_wf(g, n@),
        k < n@,
    ensures
        r == grid_cell(g, k as int),
        r.within(g.area),
{
    proof { law_overview_cells_inside_grid(g, k as int, n@); }
    let cols = g.columns as u64;
    let rows = g.rows as u64;
    let cw: u64 = g.area.width as u64 / cols;
    let ch: u64 = g.area.height as u64 / rows;
    let c: u64 = (k % g.columns) as u64;
    let rr: u64 = (k / g.columns) as u64;
    proof {
        assert(cw * cols <= g.area.width) by (nonlinear_arith)
            requires
                cols >= 1,
                cw == g.area.width as int / cols as int,
                g.area.width >= 0;
        assert(ch * rows <= g.area.height) by (nonlinear_arith)
            requires
                rows >= 1,
                ch == g.area.height as int / rows as int,
                g.area.height >= 0;
        assert(rr < rows) by (nonlinear_arith)
            requires
                cols >= 1,
                rr == k as int / cols as int,
                k < n@,
                n@ <= cols * rows;
        assert(c * cw <= g.area.width) by (nonlinear_arith)
            requires
                c < cols,
                cw * cols <= g.area.width,
                cw >= 0;
        assert(rr * ch <= g.area.height) by (nonlinear_arith)
            requires
                rr < rows,
                ch * rows <= g.area.height,
                ch >= 0;
    }
    let x: i64 = g.area.x as i64 + (c * cw) as i64;
    let y: i64 = g.area.y as i64 + (rr * ch) as i64;
    Rect { x: x as i32, y: y as i32, width: cw as i32, height: ch as i32 }
}

/// Targets for every window of one workspace.
fn workspace_targets(ctx: LayoutCtx, entries: &Vec<u32>, ws: &Workspace) -> (r: Vec<Option<Rect>>)
    requires
        ctx_wf(ctx, entries@.len() as int),
    ensures
        r@.len() == ws.window_list@.len(),
        forall|i: int| 0 <= i < r@.len() ==> #[trigger] r@[i] == window_target(ctx, entries@, ws.window_list@, ws.focused_window_idx, i),
{
    let list = &ws.window_list;
    let scroll = compute_scroll(ctx, list, ws.focused_window_idx);
    let min_size = floating_min_size(ctx.area, ctx.border);
    let mut out: Vec<Option<Rect>> = Vec::new();
    let mut acc: i64 = 0;
    let mut i: usize = 0;
    while i < list.len()
        invariant
            ctx_wf(ctx, entries@.len() as int),
            *list == ws.window_list,
            scroll == row_scroll(ctx, list@, ws.focused_window_idx),
            0 <= scroll <= 4 * ROW_CAP,
            min_size == min_floating_size(ctx.area, ctx.border),
            0 <= min_size <= ctx.area.width,
            min_size <= ctx.area.height,
            i <= list@.len(),
            out@.len() == i,
            acc == row_offset(ctx, list@, i as int),
            forall|k: int| 0 <= k < i ==> #[trigger] out@[k] == window_target(ctx, entries@, list@, ws.focused_window_idx, k),
        decreases list@.len() - i,
    {
        proof { lemma_row_offset_bounded(ctx, list@, i as int); }
        let w = &list[i];
        let t: Option<Rect> = match ctx.grid {
            Some(g) => match find_first(entries, w.id) {
                Some(k) => {
                    let c = cell_of(g, k, Ghost(entries@.len() as int));
                    assert(Some(c) == window_target(ctx, entries@, list@, ws.focused_window_idx, i as int));
                    Some(c)
                }
                None => None,
            },
            None => {
                if !ctx.shown {
                    None
                } else if w.geom.is_fullscreen {
                    Some(ctx.output_rect)
                } else if w.geom.is_floating {
                    Some(fit_into(w.geom.floating, ctx.area, min_size))
                } else {
                    let x: i64 = ctx.usable.x as i64 + ctx.hgap as i64 + acc - scroll;
                    let y: i64 = ctx.usable.y as i64 + ctx.vgap as i64;
                    let h: i64 = ctx.usable.height as i64 - 2 * ctx.vgap as i64;
                    let height: i32 = if h > i32::MAX as i64 { i32::MAX } else if h < 1 { 1 } else { h as i32 };
                    let r = Rect {
                        x: crate::geometry::sat(x),
                        y: crate::geometry::sat(y),
                        width: column_width(ctx.usable.width, ctx.hgap, w.geom.proportion),
                        height,
                    };
                    assert(r == tiled_rect(ctx, list@, ws.focused_window_idx, i as int));
                    Some(r)
                }
            }
        };
        assert(t == window_target(ctx, entries@, list@, ws.focused_window_idx, i as int));
        out.push(t);
        let step = row_step_exec(ctx, w);
        acc = cap_row_exec(acc + step);
        i = i + 1;
    }
    out
}

/// Store the targets in a workspace's windows.
fn set_finishes(ws: &mut Workspace, targets: &Vec<Option<Rect>>)
    requires
        targets@.len() == old(ws).window_list@.len(),
    ensures
        final(ws).window_list@.len() == old(ws).window_list@.len(),
        final(ws).focused_window_idx == old(ws).focused_window_idx,
        forall|i: int| 0 <= i < final(ws).window_list@.len() ==>
            with_finish(old(ws).window_list@[i], #[trigger] final(ws).window_list@[i], targets@[i]),
{
    let n = ws.window_list.len();
    let mut i: usize = 0;
    while i < n
        invariant
            n == old(ws).window_list@.len(),
            ws.window_list@.len() == n,
            targets@.len() == n,
            ws.focused_window_idx == old(ws).focused_window_idx,
            i <= n,
            forall|k: int| 0 <= k < i ==> with_finish(old(ws).window_list@[k], #[trigger] ws.window_list@[k], targets@[k]),
            forall|k: int| i <= k < n ==> #[trigger] ws.window_list@[k] == old(ws).window_list@[k],
        decreases n - i,
    {
        ws.window_list[i].geom.finish = targets[i];
        i = i + 1;
    }
}

/// The layout inputs of workspace `(o, w)`.
pub open spec fn ctx_of(wm: WindowManager, o: int, w: int) -> LayoutCtx {
    let out = wm.outputs@[o];
    LayoutCtx {
        shown: w == out.focused_workspace_idx,
        output_rect: out.rectangle,
        area: spec_sanitize(out.rectangle),
        usable: spec_sanitize(out.spec_usable_area()),
        hgap: wm.config.horizontal_gap,
        vgap: wm.config.vertical_gap,
        border: wm.config.border.width,
        grid: grid_of(wm),
    }
}

/// Rows needed for `n` entries in `columns` columns.
pub open spec fn rows_for(n: int, columns: int) -> int {
    if n <= 0 { 1 } else { (n - 1) / columns + 1 }
}

/// The overview grid: on the focused output, while the overview is open.
pub open spec fn grid_of(wm: WindowManager) -> Option<Grid> {
    match (wm.overview_state, wm.focused_output_idx) {
        (Some(ov), Some(f)) => {
            Some(Grid {
                area: spec_sanitize(wm.outputs@[f as int].rectangle),
                columns: ov.columns,
                rows: rows_for(ov.entries@.len() as int, ov.columns as int) as usize,
            })
        },
        _ => None,
    }
}

/// The overview entries (empty while it is closed).
pub open spec fn entries_of(wm: WindowManager) -> Seq<u32> {
    match wm.overview_state {
        Some(ov) => ov.entries@,
        None => Seq::empty(),
    }
}

/// A copy of a list of ids.
pub(crate) fn copy_ids(v: &Vec<u32>) -> (r: Vec<u32>)
    ensures
        r@ == v@,
{
    let mut r: Vec<u32> = Vec::new();
    let mut i: usize = 0;
    while i < v.len()
        invariant
            i <= v@.len(),
            r@ == v@.take(i as int),
        decreases v@.len() - i,
    {
        r.push(v[i]);
        proof { assert(v@.take(i + 1) =~= v@.take(i as int).push(v@[i as int])); }
        i = i + 1;
    }
    proof { assert(v@.take(v@.len() as int) =~= v@); }
    r
}

proof fn lemma_rows_hold(n: int, c: int)
    requires
        c >= 1,
        n >= 0,
    ensures
        n <= c * rows_for(n, c),
        1 <= rows_for(n, c),
        n > 0 ==> rows_for(n, c) <= n,
{
    if n > 0 {
        assert(n <= c * ((n - 1) / c + 1)) by (nonlinear_arith)
            requires c >= 1, n >= 1;
        assert((n - 1) / c + 1 <= n) by (nonlinear_arith)
            requires c >= 1, n >= 1;
    }
}

/// The grid and its entries, for the current state.
fn overview_grid(wm: &WindowManager) -> (r: (Option<Grid>, Vec<u32>))
    requires
        wm.wf(),
    ensures
        r.0 == grid_of(*wm),
        r.1@ == entries_of(*wm),
        r.0 matches Some(g) ==> grid_wf(g, r.1@.len() as int),
{
    match &wm.overview_state {
        Some(ov) => {
            let entries = copy_ids(&ov.entries);
            match wm.focused_output_idx {
                Some(f) => {
                    let n = ov.entries.len();
                    proof { lemma_rows_hold(n as int, ov.columns as int); }
                    let rows: usize = if n == 0 { 1 } else { (n - 1) / ov.columns + 1 };
                    (Some(Grid { area: sanitize(wm.outputs[f].rectangle), columns: ov.columns, rows }), entries)
                }
                None => (None, entries),
            }
        }
        None => (None, Vec::new()),
    }
}

/// Only the windows changed: outputs, workspaces, window order and focus,
/// and every other field are as they were.
pub open spec fn only_windows_changed(a: WindowManager, b: WindowManager) -> bool {
    &&& same_layout(a, b)
    &&& others_equal(a, b)
    &&& forall|o: int| 0 <= o < a.outputs@.len() ==> {
        &&& (#[trigger] b.outputs@[o]).name == a.outputs@[o].name
        &&& b.outputs@[o].non_exclusive == a.outputs@[o].non_exclusive
        &&& b.outputs@[o].has_layer_shell == a.outputs@[o].has_layer_shell
    }
}

/// What `update` leaves of the state: everything but the windows' targets.
pub open spec fn only_targets_changed(a: WindowManager, b: WindowManager) -> bool {
    &&& only_windows_changed(a, b)
    &&& b.requests == a.requests
}

/// `b` is `a` after a layout pass: every window of every output still
/// present has its target recomputed (see the module documentation), and
/// nothing else changed.
pub open spec fn is_updated(a: WindowManager, b: WindowManager) -> bool {
    &&& b.wf()
    &&& only_targets_changed(a, b)
    &&& forall|o: int, w: int, i: int|
        0 <= o < a.outputs@.len() && 0 <= w < NUM_WORKSPACES && 0 <= i < a.ws(o, w).window_list@.len() ==>
            with_finish(a.ws(o, w).window_list@[i], #[trigger] b.ws(o, w).window_list@[i],
                if a.outputs@[o].is_removed {
                    a.ws(o, w).window_list@[i].geom.finish
                } else {
                    window_target(ctx_of(a, o, w), entries_of(a), a.ws(o, w).window_list@,
                        a.ws(o, w).focused_window_idx, i)
                })
}

/// Recompute the target rectangle of every window of every output still
/// present (see `is_updated`); nothing is sent.
#[verifier::spinoff_prover]
#[verifier::rlimit(40)]
pub fn update(wm: &mut WindowManager)
    requires
        old(wm).wf(),
    ensures
        final(wm).wf(),
        is_updated(*old(wm), *final(wm)),
{
    let ghost wm0 = *wm;
    let (grid, entries) = overview_grid(wm);
    let n_out = wm.outputs.len();
    let mut o: usize = 0;
    while o < n_out
        invariant
            wm.wf(),
            wm0.wf(),
            n_out == wm0.outputs@.len(),
            o <= n_out,
            grid == grid_of(wm0),
            entries@ == entries_of(wm0),
            grid matches Some(g) ==> grid_wf(g, entries@.len() as int),
            only_targets_changed(wm0, *wm),
            forall|p: int| o <= p < n_out ==> #[trigger] wm.outputs@[p] == wm0.outputs@[p],
            forall|p: int, w: int, i: int|
                0 <= p < o && 0 <= w < NUM_WORKSPACES && 0 <= i < wm0.ws(p, w).window_list@.len() ==>
                    with_finish(wm0.ws(p, w).window_list@[i], #[trigger] wm.ws(p, w).window_list@[i],
                        if wm0.outputs@[p].is_removed {
                            wm0.ws(p, w).window_list@[i].geom.finish
                        } else {
                            window_target(ctx_of(wm0, p, w), entries_of(wm0), wm0.ws(p, w).window_list@,
                                wm0.ws(p, w).focused_window_idx, i)
                        }),
        decreases n_out - o,
    {
        let ghost start = *wm;
        proof {
            assert(wm0.outputs@[o as int].wf());
            assert(wm.outputs@[o as int] == wm0.outputs@[o as int]);
        }
        if wm.outputs[o].is_removed {
            proof {
                assert forall|p: int, w: int, i: int|
                    0 <= p < o + 1 && 0 <= w < NUM_WORKSPACES && 0 <= i < wm0.ws(p, w).window_list@.len() implies
                        with_finish(wm0.ws(p, w).window_list@[i], #[trigger] wm.ws(p, w).window_list@[i],
                            if wm0.outputs@[p].is_removed {
                                wm0.ws(p, w).window_list@[i].geom.finish
                            } else {
                                window_target(ctx_of(wm0, p, w), entries_of(wm0), wm0.ws(p, w).window_list@,
                                    wm0.ws(p, w).focused_window_idx, i)
                            }) by {
                    if p == o {
                        assert(wm.ws(p, w) == wm0.ws(p, w));
                    }
                }
            }
        } else {
            let area = sanitize(wm.outputs[o].rectangle);
            let usable = sanitize(wm.outputs[o].usable_area());
            let fws = wm.outputs[o].focused_workspace_idx;
            let mut w: usize = 0;
            while w < NUM_WORKSPACES
                invariant
                    wm.wf(),
                    wm0.wf(),
                    n_out == wm0.outputs@.len(),
                    o < n_out,
                    !wm0.outputs@[o as int].is_removed,
                    grid == grid_of(wm0),
                    entries@ == entries_of(wm0),
                    grid matches Some(g) ==> grid_wf(g, entries@.len() as int),
                    area == spec_sanitize(wm0.outputs@[o as int].rectangle),
                    usable == spec_sanitize(wm0.outputs@[o as int].spec_usable_area()),
                    sane_area(area),
                    sane_area(usable),
                    fws == wm0.outputs@[o as int].focused_workspace_idx,
                    w <= NUM_WORKSPACES,
                    only_targets_changed(wm0, *wm),
                    forall|p: int| 0 <= p < n_out && p != o ==> #[trigger] wm.outputs@[p] == start.outputs@[p],
                    forall|p: int| o < p < n_out ==> #[trigger] wm.outputs@[p] == wm0.outputs@[p],
                    forall|v: int| w <= v < NUM_WORKSPACES ==> #[trigger] wm.ws(o as int, v) == wm0.ws(o as int, v),
                    forall|p: int, v: int, i: int|
                        0 <= p < o && 0 <= v < NUM_WORKSPACES && 0 <= i < wm0.ws(p, v).window_list@.len() ==>
                            with_finish(wm0.ws(p, v).window_list@[i], #[trigger] wm.ws(p, v).window_list@[i],
                                if wm0.outputs@[p].is_removed {
                                    wm0.ws(p, v).window_list@[i].geom.finish
                                } else {
                                    window_target(ctx_of(wm0, p, v), entries_of(wm0), wm0.ws(p, v).window_list@,
                                        wm0.ws(p, v).focused_window_idx, i)
                                }),
                    forall|v: int, i: int|
                        0 <= v < w && 0 <= i < wm0.ws(o as int, v).window_list@.len() ==>
                            with_finish(wm0.ws(o as int, v).window_list@[i], #[trigger] wm.ws(o as int, v).window_list@[i],
                                window_target(ctx_of(wm0, o as int, v), entries_of(wm0), wm0.ws(o as int, v).window_list@,
                                    wm0.ws(o as int, v).focused_window_idx, i)),
                decreases NUM_WORKSPACES - w,
            {
                let ctx = LayoutCtx {
                    shown: w == fws,
                    output_rect: wm.outputs[o].rectangle,
                    area,
                    usable,
                    hgap: wm.config.horizontal_gap,
                    vgap: wm.config.vertical_gap,
                    border: wm.config.border.width,
                    grid,
                };
                proof {
                    assert(wm.outputs@[o as int].rectangle == wm0.outputs@[o as int].rectangle);
                    assert(ctx == ctx_of(wm0, o as int, w as int));
                }
                let ghost before = *wm;
                let mut ws = wm.take_workspace(o, w);
                let targets = workspace_targets(ctx, &entries, &ws);
                set_finishes(&mut ws, &targets);
                proof {
                    assert(ws.wf());
                }
                let ghost ws_new = ws;
                wm.put_workspace(o, w, ws);
                proof {
                    assert(before.ws(o as int, w as int) == wm0.ws(o as int, w as int));
                    assert forall|v: int| 0 <= v < NUM_WORKSPACES && v != w implies #[trigger] wm.ws(o as int, v) == before.ws(o as int, v) by {}
                    assert forall|p: int| 0 <= p < n_out && p != o implies #[trigger] wm.outputs@[p] == start.outputs@[p] by {
                        assert(wm.outputs@[p] == before.outputs@[p]);
                    }
                    assert(wm.ws(o as int, w as int).ids() =~= wm0.ws(o as int, w as int).ids()) by {
                        assert forall|k: int| 0 <= k < wm.ws(o as int, w as int).window_list@.len() implies
                            wm.ws(o as int, w as int).ids()[k] == wm0.ws(o as int, w as int).ids()[k] by {
                            assert(with_finish(wm0.ws(o as int, w as int).window_list@[k], ws_new.window_list@[k], targets@[k]));
                        }
                    }
                    assert(only_targets_changed(wm0, *wm)) by {
                        assert forall|p: int| 0 <= p < wm0.outputs@.len() implies {
                            &&& (#[trigger] wm.outputs@[p]).id == wm0.outputs@[p].id
                            &&& wm.outputs@[p].is_removed == wm0.outputs@[p].is_removed
                            &&& wm.outputs@[p].focused_workspace_idx == wm0.outputs@[p].focused_workspace_idx
                            &&& wm.outputs@[p].rectangle == wm0.outputs@[p].rectangle
                            &&& wm.outputs@[p].workspace_list@.len() == wm0.outputs@[p].workspace_list@.len()
                            &&& wm.outputs@[p].name == wm0.outputs@[p].name
                            &&& wm.outputs@[p].non_exclusive == wm0.outputs@[p].non_exclusive
                            &&& wm.outputs@[p].has_layer_shell == wm0.outputs@[p].has_layer_shell
                            &&& forall|v: int| 0 <= v < NUM_WORKSPACES ==> {
                                &&& (#[trigger] wm.ws(p, v)).focused_window_idx == wm0.ws(p, v).focused_window_idx
                                &&& wm.ws(p, v).ids() == wm0.ws(p, v).ids()
                                &&& wm.ws(p, v).window_list@.len() == wm0.ws(p, v).window_list@.len()
                            }
                        } by {
                            assert(wm0.outputs@[p].wf());
                            assert(wm.outputs@[p].wf());
                            assert forall|v: int| 0 <= v < NUM_WORKSPACES implies {
                                &&& (#[trigger] wm.ws(p, v)).focused_window_idx == wm0.ws(p, v).focused_window_idx
                                &&& wm.ws(p, v).ids() == wm0.ws(p, v).ids()
                                &&& wm.ws(p, v).window_list@.len() == wm0.ws(p, v).window_list@.len()
                            } by {
                                if p != o {
                                    assert(wm.outputs@[p] == start.outputs@[p]);
                                    assert(before.ws(p, v).ids() == wm0.ws(p, v).ids());
                                } else if v != w {
                                    assert(wm.ws(p, v) == before.ws(p, v));
                                    assert(before.ws(p, v).ids() == wm0.ws(p, v).ids());
                                }
                            }
                        }
                    }
                    assert forall|v: int, i: int|
                        0 <= v < w + 1 && 0 <= i < wm0.ws(o as int, v).window_list@.len() implies
                            with_finish(wm0.ws(o as int, v).window_list@[i], #[trigger] wm.ws(o as int, v).window_list@[i],
                                window_target(ctx_of(wm0, o as int, v), entries_of(wm0), wm0.ws(o as int, v).window_list@,
                                    wm0.ws(o as int, v).focused_window_idx, i)) by {
                        if v == w {
                            assert(wm.ws(o as int, v).window_list@[i] == ws_new.window_list@[i]);
                        } else {
                            assert(wm.ws(o as int, v) == before.ws(o as int, v));
                        }
                    }
                    assert forall|p: int, v: int, i: int|
                        0 <= p < o && 0 <= v < NUM_WORKSPACES && 0 <= i < wm0.ws(p, v).window_list@.len() implies
                            with_finish(wm0.ws(p, v).window_list@[i], #[trigger] wm.ws(p, v).window_list@[i],
                                if wm0.outputs@[p].is_removed {
                                    wm0.ws(p, v).window_list@[i].geom.finish
                                } else {
                                    window_target(ctx_of(wm0, p, v), entries_of(wm0), wm0.ws(p, v).window_list@,
                                        wm0.ws(p, v).focused_window_idx, i)
                                }) by {
                        assert(wm.outputs@[p] == before.outputs@[p]);
                        assert(wm.ws(p, v) == before.ws(p, v));
                    }
                }
                w = w + 1;
            }
        }
        o = o + 1;
    }
}

/// The part of window rectangle `r` inside `area`, in the window's own
/// coordinates; a fullscreen window is shown whole from its origin.
pub open spec fn spec_clip(r: Rect, area: Rect, fullscreen: bool) -> Rect {
    if fullscreen {
        Rect { x: 0, y: 0, width: r.width, height: r.height }
    } else {
        let x0 = if r.x < area.x { area.x as int } else { r.x as int };
        let y0 = if r.y < area.y { area.y as int } else { r.y as int };
        let x1 = if r.right() > area.right() { area.right() } else { r.right() };
        let y1 = if r.bottom() > area.bottom() { area.bottom() } else { r.bottom() };
        Rect {
            x: spec_sat(x0 - r.x) as i32,
            y: spec_sat(y0 - r.y) as i32,
            width: spec_sat(if x1 > x0 { x1 - x0 } else { 0 }) as i32,
            height: spec_sat(if y1 > y0 { y1 - y0 } else { 0 }) as i32,
        }
    }
}

/// See `spec_clip`.
pub fn clip_box(r: Rect, area: Rect, fullscreen: bool) -> (c: Rect)
    ensures
        c == spec_clip(r, area, fullscreen),
{
    if fullscreen {
        return Rect { x: 0, y: 0, width: r.width, height: r.height };
    }
    let x0: i64 = if r.x < area.x { area.x as i64 } else { r.x as i64 };
    let y0: i64 = if r.y < area.y { area.y as i64 } else { r.y as i64 };
    let rr: i64 = r.x as i64 + r.width as i64;
    let ar: i64 = area.x as i64 + area.width as i64;
    let rb: i64 = r.y as i64 + r.height as i64;
    let ab: i64 = area.y as i64 + area.height as i64;
    let x1: i64 = if rr > ar { ar } else { rr };
    let y1: i64 = if rb > ab { ab } else { rb };
    Rect {
        x: crate::geometry::sat(x0 - r.x as i64),
        y: crate::geometry::sat(y0 - r.y as i64),
        width: crate::geometry::sat(if x1 > x0 { x1 - x0 } else { 0 }),
        height: crate::geometry::sat(if y1 > y0 { y1 - y0 } else { 0 }),
    }
}

/// The geometry of a window after its target is committed, and the
/// requests that commit it, each skipped when the cache shows river
/// already has that value: a window without a target is hidden; otherwise
/// it moves to its target and is shown, a fullscreen one is handed to the
/// compositor on `output` (and a window no longer fullscreen is taken
/// back), a window not fullscreen gets its dimensions and position inside
/// its border (`inset` pixels), and every shown window is clipped to
/// `area`.
pub open spec fn placed(g: crate::wm::WindowGeom, id: u32, output: u32, area: Rect, inset: i32) -> (crate::wm::WindowGeom, Seq<Request>) {
    match g.finish {
        None => {
            let reqs = if g.sent_visible == Some(false) { Seq::<Request>::empty() } else { seq![Request::Hide(id)] };
            (crate::wm::WindowGeom { sent_visible: Some(false), ..g }, reqs)
        },
        Some(r) => {
            let show = if g.sent_visible == Some(true) { Seq::<Request>::empty() } else { seq![Request::Show(id)] };
            let fs_reqs = if g.is_fullscreen {
                if g.sent_fullscreen == Some(true) { Seq::<Request>::empty() } else { seq![Request::Fullscreen { window: id, output }] }
            } else {
                if g.sent_fullscreen == Some(true) { seq![Request::ExitFullscreen(id)] } else { Seq::<Request>::empty() }
            };
            let fs_sent = if g.is_fullscreen { Some(true) } else if g.sent_fullscreen == Some(true) { Some(false) } else { g.sent_fullscreen };
            let geo_reqs = if g.is_fullscreen || g.sent_current == Some(r) {
                Seq::<Request>::empty()
            } else {
                seq![
                    Request::ProposeDimensions {
                        window: id,
                        width: spec_clamp(r.width - 2 * inset, 1, i32::MAX as int) as i32,
                        height: spec_clamp(r.height - 2 * inset, 1, i32::MAX as int) as i32,
                    },
                    Request::SetPosition { window: id, x: spec_sat(r.x + inset) as i32, y: spec_sat(r.y + inset) as i32 },
                ]
            };
            let cur_sent = if g.is_fullscreen { g.sent_current } else { Some(r) };
            let clip = spec_clip(r, area, g.is_fullscreen);
            let clip_reqs = if g.sent_clip == Some(clip) { Seq::<Request>::empty() } else { seq![Request::SetClipBox { window: id, rect: clip }] };
            (crate::wm::WindowGeom {
                current: r,
                sent_visible: Some(true),
                sent_fullscreen: fs_sent,
                sent_current: cur_sent,
                sent_clip: Some(clip),
                ..g
            }, show + fs_reqs + geo_reqs + clip_reqs)
        },
    }
}

/// `w` after `placed`.
pub open spec fn placed_window(w: Window, output: u32, area: Rect, inset: i32) -> Window {
    Window { geom: placed(w.geom, w.id, output, area, inset).0, ..w }
}

/// Commit one window's target (see `placed`), appending the requests.
pub fn place_window(w: &mut Window, output: u32, area: Rect, inset: i32, out: &mut Vec<Request>)
    ensures
        *final(w) == placed_window(*old(w), output, area, inset),
        final(out)@ == old(out)@ + placed(old(w).geom, old(w).id, output, area, inset).1,
{
    let id = w.id;
    let ghost out0 = out@;
    match w.geom.finish {
        None => {
            if w.geom.sent_visible != Some(false) {
                out.push(Request::Hide(id));
            }
            w.geom.sent_visible = Some(false);
            proof {
                if old(w).geom.sent_visible == Some(false) {
                    assert(out@ =~= out0 + Seq::<Request>::empty());
                } else {
                    assert(out@ =~= out0 + seq![Request::Hide(id)]);
                }
            }
        }
        Some(r) => {
            let ghost g = w.geom;
            let ghost m0 = out@;
            if w.geom.sent_visible != Some(true) {
                out.push(Request::Show(id));
            }
            let ghost m1 = out@;
            if w.geom.is_fullscreen {
                if w.geom.sent_fullscreen != Some(true) {
                    out.push(Request::Fullscreen { window: id, output });
                }
                w.geom.sent_fullscreen = Some(true);
            } else if w.geom.sent_fullscreen == Some(true) {
                out.push(Request::ExitFullscreen(id));
                w.geom.sent_fullscreen = Some(false);
            }
            let ghost m2 = out@;
            if !w.geom.is_fullscreen {
                let same = match w.geom.sent_current {
                    Some(c) => c.eql(r),
                    None => false,
                };
                if !same {
                    let wd: i64 = r.width as i64 - 2 * inset as i64;
                    let ht: i64 = r.height as i64 - 2 * inset as i64;
                    let width: i32 = if wd > i32::MAX as i64 { i32::MAX } else if wd < 1 { 1 } else { wd as i32 };
                    let height: i32 = if ht > i32::MAX as i64 { i32::MAX } else if ht < 1 { 1 } else { ht as i32 };
                    out.push(Request::ProposeDimensions { window: id, width, height });
                    out.push(Request::SetPosition {
                        window: id,
                        x: crate::geometry::sat(r.x as i64 + inset as i64),
                        y: crate::geometry::sat(r.y as i64 + inset as i64),
                    });
                }
                w.geom.sent_current = Some(r);
            }
            let ghost m3 = out@;
            let clip = clip_box(r, area, w.geom.is_fullscreen);
            let same_clip = match w.geom.sent_clip {
                Some(c) => c.eql(clip),
                None => false,
            };
            if !same_clip {
                out.push(Request::SetClipBox { window: id, rect: clip });
            }
            w.geom.sent_clip = Some(clip);
            w.geom.current = r;
            w.geom.sent_visible = Some(true);
            proof {
                let p = placed(g, id, output, area, inset).1;
                assert(m0 == out0);
                assert(out@ =~= out0 + p);
            }
        }
    }
}

/// The requests of placing each window of `list` in turn.
pub open spec fn placed_list(list: Seq<Window>, output: u32, area: Rect, inset: i32) -> Seq<Request>
    decreases list.len(),
{
    if list.len() == 0 {
        Seq::empty()
    } else {
        placed_list(list.drop_last(), output, area, inset) + placed(list.last().geom, list.last().id, output, area, inset).1
    }
}

/// Commit every window of a workspace.
fn place_workspace(ws: &mut Workspace, output: u32, area: Rect, inset: i32, out: &mut Vec<Request>)
    ensures
        final(ws).window_list@.len() == old(ws).window_list@.len(),
        final(ws).focused_window_idx == old(ws).focused_window_idx,
        forall|i: int| 0 <= i < final(ws).window_list@.len() ==>
            #[trigger] final(ws).window_list@[i] == placed_window(old(ws).window_list@[i], output, area, inset),
        final(out)@ == old(out)@ + placed_list(old(ws).window_list@, output, area, inset),
{
    let ghost list0 = ws.window_list@;
    let ghost out0 = out@;
    let n = ws.window_list.len();
    let mut i: usize = 0;
    while i < n
        invariant
            n == list0.len(),
            ws.window_list@.len() == n,
            ws.focused_window_idx == old(ws).focused_window_idx,
            list0 == old(ws).window_list@,
            i <= n,
            forall|k: int| 0 <= k < i ==> #[trigger] ws.window_list@[k] == placed_window(list0[k], output, area, inset),
            forall|k: int| i <= k < n ==> #[trigger] ws.window_list@[k] == list0[k],
            out@ == out0 + placed_list(list0.take(i as int), output, area, inset),
        decreases n - i,
    {
        let ghost before = out@;
        place_window(&mut ws.window_list[i], output, area, inset, out);
        proof {
            assert(list0.take(i + 1).drop_last() =~= list0.take(i as int));
            assert(list0.take(i + 1).last() == list0[i as int]);
            assert(out@ =~= out0 + placed_list(list0.take(i + 1), output, area, inset));
        }
        i = i + 1;
    }
    proof { assert(list0.take(n as int) =~= list0); }
}

/// The area windows of output `o` are clipped to: the overview grid while
/// it is open, the output otherwise.
pub open spec fn clip_area_of(wm: WindowManager, o: int) -> Rect {
    match grid_of(wm) {
        Some(g) => g.area,
        None => spec_sanitize(wm.outputs@[o].rectangle),
    }
}

/// The border inset of placed windows.
pub open spec fn inset_of(wm: WindowManager) -> i32 {
    spec_sat(wm.config.border.width as int) as i32
}

/// The requests of committing workspaces `0..n` of output `o`, in order.
pub open spec fn output_commit(wm: WindowManager, o: int, n: int) -> Seq<Request>
    decreases n,
{
    if n <= 0 {
        Seq::empty()
    } else {
        output_commit(wm, o, n - 1)
            + placed_list(wm.ws(o, n - 1).window_list@, wm.outputs@[o].id, clip_area_of(wm, o), inset_of(wm))
    }
}

/// The requests of committing outputs `0..n` in order; an output river
/// removed sends none.
pub open spec fn commit_requests(wm: WindowManager, n: int) -> Seq<Request>
    decreases n,
{
    if n <= 0 {
        Seq::empty()
    } else {
        commit_requests(wm, n - 1) + if wm.outputs@[n - 1].is_removed {
            Seq::empty()
        } else {
            output_commit(wm, n - 1, NUM_WORKSPACES as int)
        }
    }
}

/// `b` is `a` with every target committed (see `snap_to_finish`).
pub open spec fn committed(a: WindowManager, b: WindowManager) -> bool {
    &&& (only_windows_changed(a, b))
    &&& (b.requests@ == a.requests@ + commit_requests(a, a.outputs@.len() as int))
    &&& (forall|o: int, w: int, i: int|
        0 <= o < a.outputs@.len() && 0 <= w < NUM_WORKSPACES && 0 <= i < a.ws(o, w).window_list@.len() ==>
            #[trigger] b.ws(o, w).window_list@[i] == (if a.outputs@[o].is_removed {
                a.ws(o, w).window_list@[i]
            } else {
                placed_window(a.ws(o, w).window_list@[i], a.outputs@[o].id, clip_area_of(a, o), inset_of(a))
            }))
}

/// Commit every target: each window of every output still present is
/// placed (see `placed`), output by output and workspace by workspace; the
/// requests are appended to the queue in that order.
#[verifier::spinoff_prover]
#[verifier::rlimit(40)]
pub fn snap_to_finish(wm: &mut WindowManager)
    requires
        old(wm).wf(),
    ensures
        final(wm).wf(),
        committed(*old(wm), *final(wm)),
{
    let ghost wm0 = *wm;
    let (grid, _entries) = overview_grid(wm);
    let inset = crate::geometry::sat(wm.config.border.width as i64);
    let n_out = wm.outputs.len();
    let mut o: usize = 0;
    while o < n_out
        invariant
            wm.wf(),
            wm0.wf(),
            n_out == wm0.outputs@.len(),
            o <= n_out,
            grid == grid_of(wm0),
            inset == inset_of(wm0),
            only_windows_changed(wm0, *wm),
            wm.requests@ == wm0.requests@ + commit_requests(wm0, o as int),
            forall|p: int| o <= p < n_out ==> #[trigger] wm.outputs@[p] == wm0.outputs@[p],
            forall|p: int, w: int, i: int|
                0 <= p < o && 0 <= w < NUM_WORKSPACES && 0 <= i < wm0.ws(p, w).window_list@.len() ==>
                    #[trigger] wm.ws(p, w).window_list@[i] == (if wm0.outputs@[p].is_removed {
                        wm0.ws(p, w).window_list@[i]
                    } else {
                        placed_window(wm0.ws(p, w).window_list@[i], wm0.outputs@[p].id, clip_area_of(wm0, p), inset_of(wm0))
                    }),
        decreases n_out - o,
    {
        let ghost start = *wm;
        proof {
            assert(wm0.outputs@[o as int].wf());
            assert(wm.outputs@[o as int] == wm0.outputs@[o as int]);
        }
        if wm.outputs[o].is_removed {
            proof {
                assert forall|p: int, w: int, i: int|
                    0 <= p < o + 1 && 0 <= w < NUM_WORKSPACES && 0 <= i < wm0.ws(p, w).window_list@.len() implies
                        #[trigger] wm.ws(p, w).window_list@[i] == (if wm0.outputs@[p].is_removed {
                            wm0.ws(p, w).window_list@[i]
                        } else {
                            placed_window(wm0.ws(p, w).window_list@[i], wm0.outputs@[p].id, clip_area_of(wm0, p), inset_of(wm0))
                        }) by {
                    if p == o {
                        assert(wm.ws(p, w) == wm0.ws(p, w));
                    }
                }
            }
        } else {
            let area = match grid {
                Some(g) => g.area,
                None => sanitize(wm.outputs[o].rectangle),
            };
            let id = wm.outputs[o].id;
            let mut w: usize = 0;
            while w < NUM_WORKSPACES
                invariant
                    wm.wf(),
                    wm0.wf(),
                    n_out == wm0.outputs@.len(),
                    o < n_out,
                    !wm0.outputs@[o as int].is_removed,
                    grid == grid_of(wm0),
                    inset == inset_of(wm0),
                    area == clip_area_of(wm0, o as int),
                    id == wm0.outputs@[o as int].id,
                    w <= NUM_WORKSPACES,
                    only_windows_changed(wm0, *wm),
                    wm.requests@ == wm0.requests@ + commit_requests(wm0, o as int) + output_commit(wm0, o as int, w as int),
                    forall|p: int| 0 <= p < n_out && p != o ==> #[trigger] wm.outputs@[p] == start.outputs@[p],
                    forall|p: int| o < p < n_out ==> #[trigger] wm.outputs@[p] == wm0.outputs@[p],
                    forall|v: int| w <= v < NUM_WORKSPACES ==> #[trigger] wm.ws(o as int, v) == wm0.ws(o as int, v),
                    forall|p: int, v: int, i: int|
                        0 <= p < o && 0 <= v < NUM_WORKSPACES && 0 <= i < wm0.ws(p, v).window_list@.len() ==>
                            #[trigger] wm.ws(p, v).window_list@[i] == (if wm0.outputs@[p].is_removed {
                                wm0.ws(p, v).window_list@[i]
                            } else {
                                placed_window(wm0.ws(p, v).window_list@[i], wm0.outputs@[p].id, clip_area_of(wm0, p), inset_of(wm0))
                            }),
                    forall|v: int, i: int|
                        0 <= v < w && 0 <= i < wm0.ws(o as int, v).window_list@.len() ==>
                            #[trigger] wm.ws(o as int, v).window_list@[i] == placed_window(wm0.ws(o as int, v).window_list@[i], id, area, inset),
                decreases NUM_WORKSPACES - w,
            {
                let ghost before = *wm;
                let mut ws = wm.take_workspace(o, w);
                let mut out: Vec<Request> = Vec::new();
                place_workspace(&mut ws, id, area, inset, &mut out);
                proof {
                    assert(ws.wf());
                }
                let ghost ws_new = ws;
                wm.put_workspace(o, w, ws);
                let ghost after_put = *wm;
                let ghost mid = wm.requests@;
                wm.requests.append(&mut out);
                proof {
                    assert(wm.outputs == after_put.outputs);
                    assert forall|v: int| 0 <= v < NUM_WORKSPACES && v != w implies #[trigger] after_put.ws(o as int, v) == before.ws(o as int, v) by {}
                    assert(before.ws(o as int, w as int) == wm0.ws(o as int, w as int));
                    assert(wm.requests@ =~= wm0.requests@ + commit_requests(wm0, o as int) + output_commit(wm0, o as int, w + 1));
                    assert forall|v: int| 0 <= v < NUM_WORKSPACES && v != w implies #[trigger] wm.ws(o as int, v) == before.ws(o as int, v) by { assert(wm.outputs@ == after_put.outputs@); assert(after_put.ws(o as int, v) == before.ws(o as int, v)); }
                    assert forall|p: int| 0 <= p < n_out && p != o implies #[trigger] wm.outputs@[p] == start.outputs@[p] by {
                        assert(wm.outputs@[p] == before.outputs@[p]);
                    }
                    assert(wm.ws(o as int, w as int).ids() =~= wm0.ws(o as int, w as int).ids()) by {
                        assert forall|k: int| 0 <= k < wm.ws(o as int, w as int).window_list@.len() implies
                            wm.ws(o as int, w as int).ids()[k] == wm0.ws(o as int, w as int).ids()[k] by {
                            assert(ws_new.window_list@[k] == placed_window(wm0.ws(o as int, w as int).window_list@[k], id, area, inset));
                        }
                    }
                    assert(only_windows_changed(wm0, *wm)) by {
                        assert forall|p: int| 0 <= p < wm0.outputs@.len() implies {
                            &&& (#[trigger] wm.outputs@[p]).id == wm0.outputs@[p].id
                            &&& wm.outputs@[p].is_removed == wm0.outputs@[p].is_removed
                            &&& wm.outputs@[p].focused_workspace_idx == wm0.outputs@[p].focused_workspace_idx
                            &&& wm.outputs@[p].rectangle == wm0.outputs@[p].rectangle
                            &&& wm.outputs@[p].workspace_list@.len() == wm0.outputs@[p].workspace_list@.len()
                            &&& wm.outputs@[p].name == wm0.outputs@[p].name
                            &&& wm.outputs@[p].non_exclusive == wm0.outputs@[p].non_exclusive
                            &&& wm.outputs@[p].has_layer_shell == wm0.outputs@[p].has_layer_shell
                            &&& forall|v: int| 0 <= v < NUM_WORKSPACES ==> {
                                &&& (#[trigger] wm.ws(p, v)).focused_window_idx == wm0.ws(p, v).focused_window_idx
                                &&& wm.ws(p, v).ids() == wm0.ws(p, v).ids()
                                &&& wm.ws(p, v).window_list@.len() == wm0.ws(p, v).window_list@.len()
                            }
                        } by {
                            assert(wm0.outputs@[p].wf());
                            assert(wm.outputs@[p].wf());
                            assert forall|v: int| 0 <= v < NUM_WORKSPACES implies {
                                &&& (#[trigger] wm.ws(p, v)).focused_window_idx == wm0.ws(p, v).focused_window_idx
                                &&& wm.ws(p, v).ids() == wm0.ws(p, v).ids()
                                &&& wm.ws(p, v).window_list@.len() == wm0.ws(p, v).window_list@.len()
                            } by {
                                if p != o {
                                    assert(wm.outputs@[p] == start.outputs@[p]);
                                    assert(before.ws(p, v).ids() == wm0.ws(p, v).ids());
                                } else if v != w {
                                    assert(wm.ws(p, v) == before.ws(p, v));
                                    assert(before.ws(p, v).ids() == wm0.ws(p, v).ids());
                                }
                            }
                        }
                    }
                    assert forall|v: int, i: int|
                        0 <= v < w + 1 && 0 <= i < wm0.ws(o as int, v).window_list@.len() implies
                            #[trigger] wm.ws(o as int, v).window_list@[i] == placed_window(wm0.ws(o as int, v).window_list@[i], id, area, inset) by {
                        if v == w {
                            assert(wm.ws(o as int, v).window_list@[i] == ws_new.window_list@[i]);
                        } else {
                            assert(wm.ws(o as int, v) == before.ws(o as int, v));
                        }
                    }
                    assert forall|p: int, v: int, i: int|
                        0 <= p < o && 0 <= v < NUM_WORKSPACES && 0 <= i < wm0.ws(p, v).window_list@.len() implies
                            #[trigger] wm.ws(p, v).window_list@[i] == (if wm0.outputs@[p].is_removed {
                                wm0.ws(p, v).window_list@[i]
                            } else {
                                placed_window(wm0.ws(p, v).window_list@[i], wm0.outputs@[p].id, clip_area_of(wm0, p), inset_of(wm0))
                            }) by {
                        assert(wm.outputs@[p] == before.outputs@[p]);
                        assert(wm.ws(p, v) == before.ws(p, v));
                    }
                }
                w = w + 1;
            }
            proof {
                assert(wm.requests@ =~= wm0.requests@ + commit_requests(wm0, o + 1));
            }
        }
        proof {
            if wm0.outputs@[o as int].is_removed {
                assert(wm.requests@ =~= wm0.requests@ + commit_requests(wm0, o + 1));
            }
        }
        o = o + 1;
    }
}

/// Law: committing a window a second time, with the same target, sends
/// nothing (every request of the first commit is remembered in the
/// caches).
pub proof fn law_second_placement_sends_nothing(g: crate::wm::WindowGeom, id: u32, output: u32, area: Rect, inset: i32)
    ensures
        placed(placed(g, id, output, area, inset).0, id, output, area, inset).1.len() == 0,
{
}

/// Law: the target of a floating window (not fullscreen, outside the
/// overview, on the shown workspace) lies inside its output.
pub proof fn law_floating_target_within_output(ctx: LayoutCtx, entries: Seq<u32>, list: Seq<Window>, focus: Option<usize>, i: int)
    requires
        sane_area(ctx.area),
        ctx.grid is None,
        ctx.shown,
        0 <= i < list.len(),
        list[i].geom.is_floating,
        !list[i].geom.is_fullscreen,
    ensures
        window_target(ctx, entries, list, focus, i) matches Some(r) && r.within(ctx.area),
{
    let m = min_floating_size(ctx.area, ctx.border);
    assert(0 <= m <= ctx.area.width && m <= ctx.area.height);
    let r = list[i].geom.floating;
    let w = crate::geometry::spec_clamp_axis(r.x as int, r.width as int, ctx.area.x as int, ctx.area.width as int, m);
    let h = crate::geometry::spec_clamp_axis(r.y as int, r.height as int, ctx.area.y as int, ctx.area.height as int, m);
    assert(ctx.area.x <= w.0 && w.0 + w.1 <= ctx.area.x + ctx.area.width);
    assert(ctx.area.y <= h.0 && h.0 + h.1 <= ctx.area.y + ctx.area.height);
}

} // verus!
