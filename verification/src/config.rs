//! The configuration the window manager runs with, its defaults, and the
//! choice of which candidate file a load or reload takes.
//!
//! Reading files and decoding TOML happen outside the library; what it is
//! handed per candidate path is a `ReadOutcome`.

use vstd::prelude::*;
use crate::actions::{Button, KeybindingAction, PointerAction};
use crate::keybinding::{default_keybindings, default_pointer_bindings, is_default_keybindings, is_default_pointer_bindings};

verus! {

/// A colour as river takes it: red, green, blue and alpha channels,
/// each scaled to the full `u32` range, the colour channels premultiplied
/// by alpha.
#[derive(Clone, Copy, Debug, PartialEq, Eq, Structural)]
pub struct RiverColor {
    pub r: u32,
    pub g: u32,
    pub b: u32,
    pub a: u32,
}

/// Window borders: their width and the colours of the focused window's
/// border and of the others.
#[derive(Clone, Debug, PartialEq, Eq)]
pub struct Border {
    pub width: u32,
    pub focused_color: RiverColor,
    pub unfocused_color: RiverColor,
}

/// The default colour of the focused window's border (#88c0d0, opaque).
pub open spec fn default_focused_color() -> RiverColor {
    RiverColor { r: 0x8888_8888, g: 0xc0c0_c0c0, b: 0xd0d0_d0d0, a: 0xffff_ffff }
}

/// The default colour of the other borders (#4c566a, opaque).
pub open spec fn default_unfocused_color() -> RiverColor {
    RiverColor { r: 0x4c4c_4c4c, g: 0x5656_5656, b: 0x6a6a_6a6a, a: 0xffff_ffff }
}

/// The xcursor theme set on the seat.
#[derive(Clone, Debug, PartialEq, Eq)]
pub struct CursorConfig {
    pub theme: String,
    pub size: u32,
}

/// A key (xkbcommon keysym name) with modifier names, bound to an action.
#[derive(Clone, Debug, PartialEq, Eq)]
pub struct Keybinding {
    pub key: String,
    pub modifiers: Vec<String>,
    pub action: KeybindingAction,
}

/// A pointer button with modifier names, bound to a drag.
#[derive(Clone, Debug, PartialEq, Eq)]
pub struct PointerBinding {
    pub button: Button,
    pub modifiers: Vec<String>,
    pub action: PointerAction,
}

/// Float windows whose app_id or title matches (globs with `*`).
#[derive(Clone, Debug, PartialEq, Eq)]
pub struct WindowRule {
    pub app_id: Option<String>,
    pub title: Option<String>,
    pub floating: bool,
}

/// The whole configuration.
#[derive(Clone, Debug, PartialEq, Eq)]
pub struct Config {
    pub keybindings: Vec<Keybinding>,
    pub pointer_bindings: Vec<PointerBinding>,
    pub window_rules: Vec<WindowRule>,
    pub spawn_at_startup: Vec<Vec<String>>,
    pub vertical_gap: i32,
    pub horizontal_gap: i32,
    pub border: Border,
    pub cursor: Option<CursorConfig>,
    pub focus_follows_pointer: bool,
}

/// The values a configuration file may leave out: no bindings (callers
/// fill in the defaults), no rules, 10px gaps, 3px borders, no cursor
/// theme, focus that does not follow the pointer.
pub open spec fn is_base_config(c: Config) -> bool {
    &&& c.keybindings@.len() == 0
    &&& c.pointer_bindings@.len() == 0
    &&& c.window_rules@.len() == 0
    &&& c.spawn_at_startup@.len() == 0
    &&& c.vertical_gap == 10
    &&& c.horizontal_gap == 10
    &&& c.border.width == 3
    &&& c.border.focused_color == default_focused_color()
    &&& c.border.unfocused_color == default_unfocused_color()
    &&& c.cursor is None
    &&& !c.focus_follows_pointer
}

impl Default for Config {
    fn default() -> (c: Config)
        ensures
            is_base_config(c),
    {
        Config {
            keybindings: Vec::new(),
            pointer_bindings: Vec::new(),
            window_rules: Vec::new(),
            spawn_at_startup: Vec::new(),
            vertical_gap: 10,
            horizontal_gap: 10,
            border: Border {
                width: 3,
                focused_color: RiverColor { r: 0x8888_8888, g: 0xc0c0_c0c0, b: 0xd0d0_d0d0, a: 0xffff_ffff },
                unfocused_color: RiverColor { r: 0x4c4c_4c4c, g: 0x5656_5656, b: 0x6a6a_6a6a, a: 0xffff_ffff },
            },
            cursor: None,
            focus_follows_pointer: false,
        }
    }
}

/// `r` is `c` with empty binding lists replaced by the built-in defaults;
/// every other field is `c`'s.
pub open spec fn completes(c: Config, r: Config) -> bool {
    &&& if c.keybindings@.len() == 0 { is_default_keybindings(r.keybindings@) } else { r.keybindings == c.keybindings }
    &&& if c.pointer_bindings@.len() == 0 { is_default_pointer_bindings(r.pointer_bindings@) } else { r.pointer_bindings == c.pointer_bindings }
    &&& r.window_rules == c.window_rules
    &&& r.spawn_at_startup == c.spawn_at_startup
    &&& r.vertical_gap == c.vertical_gap
    &&& r.horizontal_gap == c.horizontal_gap
    &&& r.border == c.border
    &&& r.cursor == c.cursor
    &&& r.focus_follows_pointer == c.focus_follows_pointer
}

/// Empty binding lists fall back to the built-in defaults; window rules and
/// startup commands stay as given (empty by default).
pub fn with_default_bindings(config: Config) -> (r: Config)
    ensures
        completes(config, r),
{
    let mut config = config;
    if config.keybindings.len() == 0 {
        config.keybindings = default_keybindings();
    }
    if config.pointer_bindings.len() == 0 {
        config.pointer_bindings = default_pointer_bindings();
    }
    config
}

/// The built-in configuration: the base values with the default bindings.
pub open spec fn is_default_config(c: Config) -> bool {
    &&& is_default_keybindings(c.keybindings@)
    &&& is_default_pointer_bindings(c.pointer_bindings@)
    &&& c.window_rules@.len() == 0
    &&& c.spawn_at_startup@.len() == 0
    &&& c.vertical_gap == 10
    &&& c.horizontal_gap == 10
    &&& c.border.width == 3
    &&& c.border.focused_color == default_focused_color()
    &&& c.border.unfocused_color == default_unfocused_color()
    &&& c.cursor is None
    &&& !c.focus_follows_pointer
}

/// The built-in configuration, used when no file exists.
pub fn default_config() -> (c: Config)
    ensures
        is_default_config(c),
{
    let base = Config::default();
    with_default_bindings(base)
}

/// Why a configuration file could not be used.
#[derive(Clone, Debug, PartialEq, Eq, Structural)]
pub enum ReadFailure {
    /// There is no file at the path.
    NotFound,
    /// The file exists but could not be read.
    Unreadable,
    /// The file is not a valid configuration (bad TOML, wrong type, unknown
    /// key).
    Invalid,
}

/// What reading one candidate path gave: the decoded configuration (before
/// the binding defaults are filled in), or why there is none.
pub enum ReadOutcome {
    Decoded(Config),
    Failed(ReadFailure),
}

/// Why `load` failed.
#[derive(Clone, Debug, PartialEq, Eq, Structural)]
pub enum LoadError {
    NotFound,
    Unreadable,
    Invalid,
}

pub open spec fn failure_to_error(f: ReadFailure) -> LoadError {
    match f {
        ReadFailure::NotFound => LoadError::NotFound,
        ReadFailure::Unreadable => LoadError::Unreadable,
        ReadFailure::Invalid => LoadError::Invalid,
    }
}

pub open spec fn is_not_found(o: ReadOutcome) -> bool {
    o matches ReadOutcome::Failed(ReadFailure::NotFound)
}

/// The index of the first candidate that is not missing, if any.
pub open spec fn first_present(outcomes: Seq<ReadOutcome>) -> Option<int> {
    if exists|i: int| 0 <= i < outcomes.len() && !is_not_found(#[trigger] outcomes[i]) {
        Some(choose|i: int| 0 <= i < outcomes.len() && !is_not_found(#[trigger] outcomes[i])
            && forall|j: int| 0 <= j < i ==> is_not_found(#[trigger] outcomes[j]))
    } else {
        None
    }
}

/// What `load` gives: for an explicit path its outcome decides, otherwise
/// the first candidate that exists; a decoded file gives its configuration
/// completed by the binding defaults, a failure its error, and no file at
/// all the built-in configuration.
pub open spec fn loaded(explicit: bool, outcomes: Seq<ReadOutcome>, r: Result<Config, LoadError>) -> bool {
    &&& explicit ==> match outcomes[0] {
        ReadOutcome::Decoded(c) => r matches Ok(rc) && completes(c, rc),
        ReadOutcome::Failed(f) => r == Err::<Config, LoadError>(failure_to_error(f)),
    }
    &&& !explicit ==> match first_present(outcomes) {
        Some(i) => match outcomes[i] {
            ReadOutcome::Decoded(c) => r matches Ok(rc) && completes(c, rc),
            ReadOutcome::Failed(f) => r == Err::<Config, LoadError>(failure_to_error(f)),
        },
        None => r matches Ok(rc) && is_default_config(rc),
    }
}

/// What `reload` gives: the completed configuration of the deciding file
/// when it decoded, `None` on any failure and when no file exists.
pub open spec fn reloaded(explicit: bool, outcomes: Seq<ReadOutcome>, r: Option<Config>) -> bool {
    &&& explicit ==> match outcomes[0] {
        ReadOutcome::Decoded(c) => r matches Some(rc) && completes(c, rc),
        ReadOutcome::Failed(_) => r is None,
    }
    &&& !explicit ==> match first_present(outcomes) {
        Some(i) => match outcomes[i] {
            ReadOutcome::Decoded(c) => r matches Some(rc) && completes(c, rc),
            ReadOutcome::Failed(_) => r is None,
        },
        None => r is None,
    }
}

/// A reload that gives a configuration agrees with a load of the same
/// files: the load succeeds too, both complete the same decoded file; and
/// where the load fails, the reload gives nothing.
pub proof fn law_reload_agrees_with_load(explicit: bool, outcomes: Seq<ReadOutcome>, r1: Result<Config, LoadError>, r2: Option<Config>)
    requires
        explicit ==> outcomes.len() == 1,
        loaded(explicit, outcomes, r1),
        reloaded(explicit, outcomes, r2),
    ensures
        r1 is Err ==> r2 is None,
        r2 matches Some(c2) ==> r1 matches Ok(c1) && exists|c: Config| completes(c, c1) && completes(c, c2),
{
    if explicit {
        match outcomes[0] {
            ReadOutcome::Decoded(c) => {
                assert(completes(c, r1->Ok_0) && completes(c, r2->0));
            }
            ReadOutcome::Failed(_) => {}
        }
    } else {
        match first_present(outcomes) {
            Some(i) => match outcomes[i] {
                ReadOutcome::Decoded(c) => {
                    assert(completes(c, r1->Ok_0) && completes(c, r2->0));
                }
                ReadOutcome::Failed(_) => {}
            },
            None => {}
        }
    }
}

/// Load the configuration. `explicit` tells whether the path was given on
/// the command line; `outcomes` are the results of reading the candidate
/// paths in order (for an explicit path, that one path).
///
/// Missing candidates are skipped; the first one that exists decides: its
/// configuration (binding defaults filled in), or its error. An explicit
/// path that does not exist is an error; when no searched candidate exists,
/// the built-in configuration is used.
pub fn load(explicit: bool, outcomes: Vec<ReadOutcome>) -> (r: Result<Config, LoadError>)
    requires
        explicit ==> outcomes@.len() == 1,
    ensures
        loaded(explicit, outcomes@, r),
{
    match pick_candidate(explicit, outcomes) {
        Some(ReadOutcome::Decoded(c)) => Ok(with_default_bindings(c)),
        Some(ReadOutcome::Failed(ReadFailure::NotFound)) => Err(LoadError::NotFound),
        Some(ReadOutcome::Failed(ReadFailure::Unreadable)) => Err(LoadError::Unreadable),
        Some(ReadOutcome::Failed(ReadFailure::Invalid)) => Err(LoadError::Invalid),
        None => Ok(default_config()),
    }
}

/// Reload the configuration: like `load`, but any failure, and finding no
/// file at all, gives `None` (the caller keeps the running configuration).
pub fn reload(explicit: bool, outcomes: Vec<ReadOutcome>) -> (r: Option<Config>)
    requires
        explicit ==> outcomes@.len() == 1,
    ensures
        reloaded(explicit, outcomes@, r),
{
    match pick_candidate(explicit, outcomes) {
        Some(ReadOutcome::Decoded(c)) => Some(with_default_bindings(c)),
        _ => None,
    }
}

/// The outcome that decides a load: for an explicit path its only outcome,
/// otherwise the first candidate that is not missing.
fn pick_candidate(explicit: bool, candidates: Vec<ReadOutcome>) -> (r: Option<ReadOutcome>)
    requires
        explicit ==> candidates@.len() == 1,
    ensures
        explicit ==> r == Some(candidates@[0]),
        !explicit ==> match first_present(candidates@) {
            Some(i) => r == Some(candidates@[i]),
            None => r is None,
        },
{
    let mut outcomes = candidates;
    if explicit {
        return Some(outcomes.swap_remove(0));
    }
    let ghost all = outcomes@;
    let mut i: usize = 0;
    while i < outcomes.len()
        invariant
            !explicit,
            all == candidates@,
            outcomes@ == all,
            i <= all.len(),
            forall|j: int| 0 <= j < i ==> is_not_found(#[trigger] all[j]),
        decreases outcomes.len() - i,
    {
        let missing = match &outcomes[i] {
            ReadOutcome::Failed(ReadFailure::NotFound) => true,
            _ => false,
        };
        if !missing {
            proof { lemma_first_present(all, i as int); }
            return Some(outcomes.swap_remove(i));
        }
        i = i + 1;
    }
    proof { lemma_none_present(all); }
    None
}

proof fn lemma_first_present(outcomes: Seq<ReadOutcome>, i: int)
    requires
        0 <= i < outcomes.len(),
        !is_not_found(outcomes[i]),
        forall|j: int| 0 <= j < i ==> is_not_found(#[trigger] outcomes[j]),
    ensures
        first_present(outcomes) == Some(i),
{
    assert(exists|k: int| 0 <= k < outcomes.len() && !is_not_found(#[trigger] outcomes[k]));
    let k = choose|k: int| 0 <= k < outcomes.len() && !is_not_found(#[trigger] outcomes[k])
        && forall|j: int| 0 <= j < k ==> is_not_found(#[trigger] outcomes[j]);
    assert(0 <= i < outcomes.len() && !is_not_found(outcomes[i])
        && forall|j: int| 0 <= j < i ==> is_not_found(#[trigger] outcomes[j]));
    if k < i {
        assert(is_not_found(outcomes[k]));
    }
    if i < k {
        assert(is_not_found(outcomes[i]));
    }
}

proof fn lemma_none_present(outcomes: Seq<ReadOutcome>)
    requires
        forall|j: int| 0 <= j < outcomes.len() ==> is_not_found(#[trigger] outcomes[j]),
    ensures
        first_present(outcomes) is None,
{
}

} // verus!
