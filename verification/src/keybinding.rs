//! Parsing binding descriptions (modifier names) and the
//! built-in key and pointer bindings.

use vstd::prelude::*;
use vstd::string::StringExecFns;
use crate::actions::{Button, KeybindingAction, PointerAction};
use crate::config::{Keybinding, PointerBinding};
use crate::text::str_equals;

pub use crate::bindings::{binding_pressed, setup_keybindings};
pub use crate::dispatch::dispatch_action;
pub use crate::overview::set_overview_keybinds;

verus! {

/// The river modifier bitfield (`river_seat_v1.modifiers`).
#[derive(Clone, Copy, Debug, PartialEq, Eq, Structural)]
pub struct Modifiers {
    pub bits: u32,
}

impl Modifiers {
    pub fn none() -> (m: Modifiers)
        ensures m.bits == 0,
    {
        Modifiers { bits: 0 }
    }

    pub fn shift() -> (m: Modifiers)
        ensures m.bits == 1,
    {
        Modifiers { bits: 1 }
    }

    pub fn ctrl() -> (m: Modifiers)
        ensures m.bits == 4,
    {
        Modifiers { bits: 4 }
    }

    pub fn mod1() -> (m: Modifiers)
        ensures m.bits == 8,
    {
        Modifiers { bits: 8 }
    }

    pub fn mod3() -> (m: Modifiers)
        ensures m.bits == 32,
    {
        Modifiers { bits: 32 }
    }

    pub fn mod4() -> (m: Modifiers)
        ensures m.bits == 64,
    {
        Modifiers { bits: 64 }
    }

    pub fn mod5() -> (m: Modifiers)
        ensures m.bits == 128,
    {
        Modifiers { bits: 128 }
    }

    /// Both sets of modifiers.
    pub fn union(self, other: Modifiers) -> (m: Modifiers)
        ensures m.bits == self.bits | other.bits,
    {
        Modifiers { bits: self.bits | other.bits }
    }
}

/// The bit a modifier name stands for.
pub open spec fn modifier_flag(name: Seq<char>) -> Option<u32> {
    if name == "shift"@ {
        Some(1u32)
    } else if name == "ctrl"@ {
        Some(4u32)
    } else if name == "mod1"@ {
        Some(8u32)
    } else if name == "mod3"@ {
        Some(32u32)
    } else if name == "mod4"@ {
        Some(64u32)
    } else if name == "mod5"@ {
        Some(128u32)
    } else {
        None
    }
}

/// The names, as character sequences.
pub open spec fn strings_view(v: Seq<String>) -> Seq<Seq<char>> {
    v.map_values(|s: String| s@)
}

/// The union of the names' bits, or the first name that is not a modifier.
pub open spec fn spec_parse_modifiers(names: Seq<Seq<char>>) -> Result<u32, Seq<char>>
    decreases names.len(),
{
    if names.len() == 0 {
        Ok(0u32)
    } else {
        match spec_parse_modifiers(names.drop_last()) {
            Err(e) => Err(e),
            Ok(m) => match modifier_flag(names.last()) {
                Some(f) => Ok(m | f),
                None => Err(names.last()),
            },
        }
    }
}

/// The bit of one modifier name.
fn modifier_of(name: &String) -> (r: Option<u32>)
    ensures
        r == modifier_flag(name@),
{
    let s = name.as_str();
    if str_equals(s, "shift") {
        Some(1)
    } else if str_equals(s, "ctrl") {
        Some(4)
    } else if str_equals(s, "mod1") {
        Some(8)
    } else if str_equals(s, "mod3") {
        Some(32)
    } else if str_equals(s, "mod4") {
        Some(64)
    } else if str_equals(s, "mod5") {
        Some(128)
    } else {
        None
    }
}

/// What a keysym-name lookup gives: libxkbcommon answers 0 (`NoSymbol`)
/// for a name it does not know.
pub fn known_keysym(raw: u32) -> (r: Option<u32>)
    ensures
        r == (if raw == 0 { None::<u32> } else { Some(raw) }),
{
    if raw != 0 { Some(raw) } else { None }
}

/// Parse modifier names (shift, ctrl, mod1, mod3, mod4, mod5) into the
/// river `Modifiers` bitfield. Returns the offending name on error.
pub fn parse_modifiers(names: &[String]) -> (r: Result<Modifiers, String>)
    ensures
        match spec_parse_modifiers(strings_view(names@)) {
            Ok(bits) => r matches Ok(m) && m.bits == bits,
            Err(bad) => r matches Err(s) && s@ == bad,
        },
{
    let mut mods = Modifiers::none();
    let mut i: usize = 0;
    while i < names.len()
        invariant
            i <= names@.len(),
            spec_parse_modifiers(strings_view(names@).take(i as int)) == Ok::<u32, Seq<char>>(mods.bits),
        decreases names.len() - i,
    {
        let ghost pre = strings_view(names@).take(i as int);
        let ghost post = strings_view(names@).take(i + 1);
        assert(post.drop_last() =~= pre);
        assert(post.last() == names@[i as int]@);
        match modifier_of(&names[i]) {
            Some(flag) => {
                mods = mods.union(Modifiers { bits: flag });
            }
            None => {
                proof { lemma_parse_prefix_err(strings_view(names@), i as int + 1); }
                return Err(names[i].clone());
            }
        }
        i = i + 1;
    }
    assert(strings_view(names@).take(names@.len() as int) =~= strings_view(names@));
    Ok(mods)
}

/// Once a prefix fails, the whole list fails with the same name.
proof fn lemma_parse_prefix_err(names: Seq<Seq<char>>, k: int)
    requires
        0 <= k <= names.len(),
        spec_parse_modifiers(names.take(k)) is Err,
    ensures
        spec_parse_modifiers(names) == spec_parse_modifiers(names.take(k)),
    decreases names.len() - k,
{
    if k == names.len() {
        assert(names.take(k) =~= names);
    } else {
        assert(names.take(k + 1).drop_last() =~= names.take(k));
        lemma_parse_prefix_err(names, k + 1);
    }
}

/// Whether some name in `names` stands for modifier bit `f`.
pub open spec fn names_flag(names: Seq<Seq<char>>, f: u32) -> bool {
    exists|i: int| 0 <= i < names.len() && modifier_flag(names[i]) == Some(f)
}

/// The bitfield with the six modifier bits chosen by the flags.
pub open spec fn flag_bits(shift: bool, ctrl: bool, mod1: bool, mod3: bool, mod4: bool, mod5: bool) -> u32 {
    (if shift { 1u32 } else { 0u32 }) | (if ctrl { 4u32 } else { 0u32 }) | (if mod1 { 8u32 } else { 0u32 })
        | (if mod3 { 32u32 } else { 0u32 }) | (if mod4 { 64u32 } else { 0u32 }) | (if mod5 { 128u32 } else { 0u32 })
}

/// The bitfield of the modifier bits that the names stand for.
pub open spec fn names_bits(names: Seq<Seq<char>>) -> u32 {
    flag_bits(names_flag(names, 1), names_flag(names, 4), names_flag(names, 8),
        names_flag(names, 32), names_flag(names, 64), names_flag(names, 128))
}

proof fn lemma_flag_bits_or(s: bool, c: bool, m1: bool, m3: bool, m4: bool, m5: bool, f: u32)
    by (bit_vector)
    requires
        f == 1 || f == 4 || f == 8 || f == 32 || f == 64 || f == 128,
    ensures
        flag_bits(s, c, m1, m3, m4, m5) | f
            == flag_bits(s || f == 1, c || f == 4, m1 || f == 8, m3 || f == 32, m4 || f == 64, m5 || f == 128),
{
}

/// Parsing succeeds exactly when every name is a modifier, and then gives
/// the bits that the names stand for.
proof fn lemma_parse_modifiers_bits(names: Seq<Seq<char>>)
    ensures
        (spec_parse_modifiers(names) is Ok) == (forall|i: int| 0 <= i < names.len() ==> #[trigger] modifier_flag(names[i]) is Some),
        spec_parse_modifiers(names) is Ok ==> spec_parse_modifiers(names) == Ok::<u32, Seq<char>>(names_bits(names)),
    decreases names.len(),
{
    if names.len() == 0 {
        assert(flag_bits(false, false, false, false, false, false) == 0u32) by (bit_vector);
        assert(names_bits(names) == flag_bits(false, false, false, false, false, false));
    } else {
        let pre = names.drop_last();
        lemma_parse_modifiers_bits(pre);
        assert forall|g: u32| #[trigger] names_flag(names, g) == (names_flag(pre, g) || modifier_flag(names.last()) == Some(g)) by {
            if names_flag(names, g) {
                let i = choose|i: int| 0 <= i < names.len() && modifier_flag(names[i]) == Some(g);
                if i < names.len() - 1 {
                    assert(pre[i] == names[i]);
                }
            }
            if names_flag(pre, g) {
                let i = choose|i: int| 0 <= i < pre.len() && modifier_flag(pre[i]) == Some(g);
                assert(names[i] == pre[i]);
            }
        }
        if forall|i: int| 0 <= i < names.len() ==> #[trigger] modifier_flag(names[i]) is Some {
            assert forall|i: int| 0 <= i < pre.len() implies #[trigger] modifier_flag(pre[i]) is Some by {
                assert(names[i] == pre[i]);
            }
            let f = modifier_flag(names.last())->0;
            lemma_flag_bits_or(names_flag(pre, 1), names_flag(pre, 4), names_flag(pre, 8),
                names_flag(pre, 32), names_flag(pre, 64), names_flag(pre, 128), f);
            assert(names_flag(names, 1) == (names_flag(pre, 1) || f == 1));
            assert(names_flag(names, 4) == (names_flag(pre, 4) || f == 4));
            assert(names_flag(names, 8) == (names_flag(pre, 8) || f == 8));
            assert(names_flag(names, 32) == (names_flag(pre, 32) || f == 32));
            assert(names_flag(names, 64) == (names_flag(pre, 64) || f == 64));
            assert(names_flag(names, 128) == (names_flag(pre, 128) || f == 128));
        } else {
            let i = choose|i: int| 0 <= i < names.len() && !(#[trigger] modifier_flag(names[i]) is Some);
            if i < names.len() - 1 {
                assert(pre[i] == names[i]);
                assert(!(modifier_flag(pre[i]) is Some));
            }
        }
    }
}

/// Each modifier name stands for its own river bit, and no other name
/// stands for one.
proof fn lemma_modifier_flag_names(x: Seq<char>)
    ensures
        (modifier_flag(x) == Some(1u32)) == (x == "shift"@),
        (modifier_flag(x) == Some(4u32)) == (x == "ctrl"@),
        (modifier_flag(x) == Some(8u32)) == (x == "mod1"@),
        (modifier_flag(x) == Some(32u32)) == (x == "mod3"@),
        (modifier_flag(x) == Some(64u32)) == (x == "mod4"@),
        (modifier_flag(x) == Some(128u32)) == (x == "mod5"@),
        modifier_flag(x) is Some ==> modifier_flag(x) == Some(1u32) || modifier_flag(x) == Some(4u32)
            || modifier_flag(x) == Some(8u32) || modifier_flag(x) == Some(32u32)
            || modifier_flag(x) == Some(64u32) || modifier_flag(x) == Some(128u32),
{
    reveal_strlit("shift");
    reveal_strlit("ctrl");
    reveal_strlit("mod1");
    reveal_strlit("mod3");
    reveal_strlit("mod4");
    reveal_strlit("mod5");
    assert("shift"@.len() != "ctrl"@.len());
    assert("shift"@.len() != "mod1"@.len());
    assert("ctrl"@[0] != "mod1"@[0]);
    assert("ctrl"@[0] != "mod3"@[0]);
    assert("ctrl"@[0] != "mod4"@[0]);
    assert("ctrl"@[0] != "mod5"@[0]);
    assert("mod1"@[3] != "mod3"@[3]);
    assert("mod1"@[3] != "mod4"@[3]);
    assert("mod1"@[3] != "mod5"@[3]);
    assert("mod3"@[3] != "mod4"@[3]);
    assert("mod3"@[3] != "mod5"@[3]);
    assert("mod4"@[3] != "mod5"@[3]);
}

/// Law: a successful parse sets bit 1 exactly when "shift" is among the
/// names, 4 for "ctrl", 8 for "mod1", 32 for "mod3", 64 for "mod4" and 128
/// for "mod5", and no other bit.
pub proof fn law_modifier_bits(names: Seq<Seq<char>>)
    requires
        spec_parse_modifiers(names) is Ok,
    ensures
        ({
            let m = spec_parse_modifiers(names)->Ok_0;
            &&& (m & 1u32 == 1u32) == names.contains("shift"@)
            &&& (m & 4u32 == 4u32) == names.contains("ctrl"@)
            &&& (m & 8u32 == 8u32) == names.contains("mod1"@)
            &&& (m & 32u32 == 32u32) == names.contains("mod3"@)
            &&& (m & 64u32 == 64u32) == names.contains("mod4"@)
            &&& (m & 128u32 == 128u32) == names.contains("mod5"@)
            &&& m & !237u32 == 0u32
        }),
{
    lemma_parse_modifiers_bits(names);
    let s = names_flag(names, 1);
    let c = names_flag(names, 4);
    let m1 = names_flag(names, 8);
    let m3 = names_flag(names, 32);
    let m4 = names_flag(names, 64);
    let m5 = names_flag(names, 128);
    assert(s == names.contains("shift"@)) by {
        if s {
            let i = choose|i: int| 0 <= i < names.len() && modifier_flag(names[i]) == Some(1u32);
            lemma_modifier_flag_names(names[i]);
        }
        if names.contains("shift"@) {
            let i = choose|i: int| 0 <= i < names.len() && names[i] == "shift"@;
            lemma_modifier_flag_names(names[i]);
        }
    }
    assert(c == names.contains("ctrl"@)) by {
        if c {
            let i = choose|i: int| 0 <= i < names.len() && modifier_flag(names[i]) == Some(4u32);
            lemma_modifier_flag_names(names[i]);
        }
        if names.contains("ctrl"@) {
            let i = choose|i: int| 0 <= i < names.len() && names[i] == "ctrl"@;
            lemma_modifier_flag_names(names[i]);
        }
    }
    assert(m1 == names.contains("mod1"@)) by {
        if m1 {
            let i = choose|i: int| 0 <= i < names.len() && modifier_flag(names[i]) == Some(8u32);
            lemma_modifier_flag_names(names[i]);
        }
        if names.contains("mod1"@) {
            let i = choose|i: int| 0 <= i < names.len() && names[i] == "mod1"@;
            lemma_modifier_flag_names(names[i]);
        }
    }
    assert(m3 == names.contains("mod3"@)) by {
        if m3 {
            let i = choose|i: int| 0 <= i < names.len() && modifier_flag(names[i]) == Some(32u32);
            lemma_modifier_flag_names(names[i]);
        }
        if names.contains("mod3"@) {
            let i = choose|i: int| 0 <= i < names.len() && names[i] == "mod3"@;
            lemma_modifier_flag_names(names[i]);
        }
    }
    assert(m4 == names.contains("mod4"@)) by {
        if m4 {
            let i = choose|i: int| 0 <= i < names.len() && modifier_flag(names[i]) == Some(64u32);
            lemma_modifier_flag_names(names[i]);
        }
        if names.contains("mod4"@) {
            let i = choose|i: int| 0 <= i < names.len() && names[i] == "mod4"@;
            lemma_modifier_flag_names(names[i]);
        }
    }
    assert(m5 == names.contains("mod5"@)) by {
        if m5 {
            let i = choose|i: int| 0 <= i < names.len() && modifier_flag(names[i]) == Some(128u32);
            lemma_modifier_flag_names(names[i]);
        }
        if names.contains("mod5"@) {
            let i = choose|i: int| 0 <= i < names.len() && names[i] == "mod5"@;
            lemma_modifier_flag_names(names[i]);
        }
    }
    lemma_flag_bits_members(s, c, m1, m3, m4, m5);
}

proof fn lemma_flag_bits_members(s: bool, c: bool, m1: bool, m3: bool, m4: bool, m5: bool)
    by (bit_vector)
    ensures
        (flag_bits(s, c, m1, m3, m4, m5) & 1u32 == 1u32) == s,
        (flag_bits(s, c, m1, m3, m4, m5) & 4u32 == 4u32) == c,
        (flag_bits(s, c, m1, m3, m4, m5) & 8u32 == 8u32) == m1,
        (flag_bits(s, c, m1, m3, m4, m5) & 32u32 == 32u32) == m3,
        (flag_bits(s, c, m1, m3, m4, m5) & 64u32 == 64u32) == m4,
        (flag_bits(s, c, m1, m3, m4, m5) & 128u32 == 128u32) == m5,
        flag_bits(s, c, m1, m3, m4, m5) & !237u32 == 0u32,
{
}

/// Parsing modifier names does not depend on their order or on repeated
/// names: two lists that hold the same names either both fail or both
/// give the same bitfield.
pub proof fn law_modifiers_order_free(a: Seq<Seq<char>>, b: Seq<Seq<char>>)
    requires
        forall|x: Seq<char>| a.contains(x) <==> b.contains(x),
    ensures
        (spec_parse_modifiers(a) is Ok) == (spec_parse_modifiers(b) is Ok),
        spec_parse_modifiers(a) is Ok ==> spec_parse_modifiers(a) == spec_parse_modifiers(b),
{
    lemma_parse_modifiers_bits(a);
    lemma_parse_modifiers_bits(b);
    assert forall|g: u32| #[trigger] names_flag(a, g) == names_flag(b, g) by {
        if names_flag(a, g) {
            let i = choose|i: int| 0 <= i < a.len() && modifier_flag(a[i]) == Some(g);
            assert(a.contains(a[i]));
            let j = choose|j: int| 0 <= j < b.len() && b[j] == a[i];
            assert(modifier_flag(b[j]) == Some(g));
        }
        if names_flag(b, g) {
            let i = choose|i: int| 0 <= i < b.len() && modifier_flag(b[i]) == Some(g);
            assert(b.contains(b[i]));
            let j = choose|j: int| 0 <= j < a.len() && a[j] == b[i];
            assert(modifier_flag(a[j]) == Some(g));
        }
    }
    if forall|i: int| 0 <= i < a.len() ==> #[trigger] modifier_flag(a[i]) is Some {
        assert forall|j: int| 0 <= j < b.len() implies #[trigger] modifier_flag(b[j]) is Some by {
            assert(b.contains(b[j]));
            let i = choose|i: int| 0 <= i < a.len() && a[i] == b[j];
            assert(modifier_flag(a[i]) is Some);
        }
    }
    if forall|j: int| 0 <= j < b.len() ==> #[trigger] modifier_flag(b[j]) is Some {
        assert forall|i: int| 0 <= i < a.len() implies #[trigger] modifier_flag(a[i]) is Some by {
            assert(a.contains(a[i]));
            let j = choose|j: int| 0 <= j < b.len() && b[j] == a[i];
            assert(modifier_flag(b[j]) is Some);
        }
    }
    assert(names_bits(a) == names_bits(b));
}

/// Swap target for a horizontal window move: the neighbour to the right or
/// left, or `None` when the move would leave the list (or wrap around the
/// integer range).
pub fn move_target(window_idx: usize, len: usize, right: bool) -> (r: Option<usize>)
    ensures
        r == (if right {
            if window_idx + 1 < len { Some((window_idx + 1) as usize) } else { None::<usize> }
        } else {
            if 0 < window_idx && window_idx - 1 < len { Some((window_idx - 1) as usize) } else { None::<usize> }
        }),
{
    let target = if right {
        match window_idx.checked_add(1) {
            Some(t) => t,
            None => return None,
        }
    } else {
        match window_idx.checked_sub(1) {
            Some(t) => t,
            None => return None,
        }
    };
    if target < len { Some(target) } else { None }
}

// ---------------------------------------------------------------------------
// Built-in bindings
// ---------------------------------------------------------------------------

/// `k` binds `key` with `mods` to `action`.
pub open spec fn binding_is(k: Keybinding, key: Seq<char>, mods: Seq<Seq<char>>, action: KeybindingAction) -> bool {
    &&& k.key@ == key
    &&& strings_view(k.modifiers@) == mods
    &&& k.action == action
}

/// `k` binds `key` with `mods` to spawning `argv`.
pub open spec fn spawn_binding_is(k: Keybinding, key: Seq<char>, mods: Seq<Seq<char>>, argv: Seq<Seq<char>>) -> bool {
    &&& k.key@ == key
    &&& strings_view(k.modifiers@) == mods
    &&& k.action matches KeybindingAction::Spawn(a) && strings_view(a@) == argv
}

/// The key of workspace `n` (1 to 10): its digit, with 0 for the tenth.
pub open spec fn workspace_key(n: int) -> Seq<char> {
    if n == 1 { "1"@ } else if n == 2 { "2"@ } else if n == 3 { "3"@ } else if n == 4 { "4"@ }
    else if n == 5 { "5"@ } else if n == 6 { "6"@ } else if n == 7 { "7"@ } else if n == 8 { "8"@ }
    else if n == 9 { "9"@ } else { "0"@ }
}

/// Entries 44.. of the defaults: for each workspace `n` in 1..=10, its key
/// with mod4 focuses it and with mod4+shift moves the focused window there.
pub open spec fn workspace_bindings_upto(v: Seq<Keybinding>, upto: int) -> bool {
    forall|n: int| 1 <= n < upto ==> {
        &&& #[trigger] binding_is(v[44 + 2 * (n - 1)], workspace_key(n), seq!["mod4"@], KeybindingAction::FocusWorkspaceNumber(n as usize))
        &&& binding_is(v[44 + 2 * (n - 1) + 1], workspace_key(n), seq!["mod4"@, "shift"@], KeybindingAction::MoveWindowToWorkspaceNumber(n as usize))
    }
}

/// The first 44 default keybindings, entry by entry.
pub open spec fn fixed_bindings(v: Seq<Keybinding>) -> bool {
    &&& binding_is(v[0], "q"@, seq!["mod4"@], KeybindingAction::CloseWindow)
    &&& binding_is(v[1], "f"@, seq!["mod4"@], KeybindingAction::ToggleFullscreen)
    &&& binding_is(v[2], "minus"@, seq!["mod4"@], KeybindingAction::AdjustWindowWidth(-100i32))
    &&& binding_is(v[3], "equal"@, seq!["mod4"@], KeybindingAction::AdjustWindowWidth(100i32))
    &&& binding_is(v[4], "BackSpace"@, seq!["mod4"@], KeybindingAction::SetWindowWidth(500u32))
    &&& binding_is(v[5], "minus"@, seq!["mod4"@, "ctrl"@], KeybindingAction::AdjustFloatingWindowSize(-100i32))
    &&& binding_is(v[6], "equal"@, seq!["mod4"@, "ctrl"@], KeybindingAction::AdjustFloatingWindowSize(100i32))
    &&& binding_is(v[7], "BackSpace"@, seq!["mod4"@, "ctrl"@], KeybindingAction::SetFloatingWindowHeight(500u32))
    &&& binding_is(v[8], "Left"@, seq!["mod4"@], KeybindingAction::FocusWindowLeft)
    &&& binding_is(v[9], "Right"@, seq!["mod4"@], KeybindingAction::FocusWindowRight)
    &&& binding_is(v[10], "Left"@, seq!["mod4"@, "shift"@], KeybindingAction::MoveWindowLeft)
    &&& binding_is(v[11], "Right"@, seq!["mod4"@, "shift"@], KeybindingAction::MoveWindowRight)
    &&& binding_is(v[12], "Left"@, seq!["mod4"@, "ctrl"@], KeybindingAction::MoveFloatingWindowLeft)
    &&& binding_is(v[13], "Right"@, seq!["mod4"@, "ctrl"@], KeybindingAction::MoveFloatingWindowRight)
    &&& binding_is(v[14], "Up"@, seq!["mod4"@, "ctrl"@], KeybindingAction::MoveFloatingWindowUp)
    &&& binding_is(v[15], "Down"@, seq!["mod4"@, "ctrl"@], KeybindingAction::MoveFloatingWindowDown)
    &&& binding_is(v[16], "v"@, seq!["mod4"@], KeybindingAction::ToggleWorkspaceFloating)
    &&& binding_is(v[17], "Up"@, seq!["mod4"@], KeybindingAction::FocusWorkspaceAbove)
    &&& binding_is(v[18], "Down"@, seq!["mod4"@], KeybindingAction::FocusWorkspaceBelow)
    &&& binding_is(v[19], "grave"@, seq!["mod4"@], KeybindingAction::FocusWorkspacePrevious)
    &&& binding_is(v[20], "Up"@, seq!["mod4"@, "shift"@], KeybindingAction::MoveWindowToWorkspaceAbove)
    &&& binding_is(v[21], "Down"@, seq!["mod4"@, "shift"@], KeybindingAction::MoveWindowToWorkspaceBelow)
    &&& binding_is(v[22], "h"@, seq!["mod4"@], KeybindingAction::FocusOutputLeft)
    &&& binding_is(v[23], "l"@, seq!["mod4"@], KeybindingAction::FocusOutputRight)
    &&& binding_is(v[24], "k"@, seq!["mod4"@], KeybindingAction::FocusOutputAbove)
    &&& binding_is(v[25], "j"@, seq!["mod4"@], KeybindingAction::FocusOutputBelow)
    &&& binding_is(v[26], "h"@, seq!["mod4"@, "shift"@], KeybindingAction::MoveWindowToOutputLeft)
    &&& binding_is(v[27], "l"@, seq!["mod4"@, "shift"@], KeybindingAction::MoveWindowToOutputRight)
    &&& binding_is(v[28], "k"@, seq!["mod4"@, "shift"@], KeybindingAction::MoveWindowToOutputAbove)
    &&& binding_is(v[29], "j"@, seq!["mod4"@, "shift"@], KeybindingAction::MoveWindowToOutputBelow)
    &&& binding_is(v[30], "Escape"@, seq!["mod4"@], KeybindingAction::Exit)
    &&& binding_is(v[31], "Escape"@, Seq::<Seq<char>>::empty(), KeybindingAction::OverviewCancel)
    &&& binding_is(v[32], "Return"@, Seq::<Seq<char>>::empty(), KeybindingAction::OverviewConfirm)
    &&& binding_is(v[33], "h"@, Seq::<Seq<char>>::empty(), KeybindingAction::OverviewNavLeft)
    &&& binding_is(v[34], "j"@, Seq::<Seq<char>>::empty(), KeybindingAction::OverviewNavDown)
    &&& binding_is(v[35], "k"@, Seq::<Seq<char>>::empty(), KeybindingAction::OverviewNavUp)
    &&& binding_is(v[36], "l"@, Seq::<Seq<char>>::empty(), KeybindingAction::OverviewNavRight)
    &&& binding_is(v[37], "r"@, seq!["mod4"@], KeybindingAction::ReloadConfig)
    &&& spawn_binding_is(v[38], "t"@, seq!["mod4"@], seq!["alacritty"@])
    &&& binding_is(v[39], "Space"@, seq!["mod4"@], KeybindingAction::EnterOverview)
    &&& spawn_binding_is(v[40], "XF86AudioRaiseVolume"@, Seq::<Seq<char>>::empty(), seq!["wpctl"@, "set-volume"@, "@DEFAULT_AUDIO_SINK@"@, "0.05+"@, "--limit"@, "1.0"@])
    &&& spawn_binding_is(v[41], "XF86AudioLowerVolume"@, Seq::<Seq<char>>::empty(), seq!["wpctl"@, "set-volume"@, "@DEFAULT_AUDIO_SINK@"@, "0.05-"@])
    &&& spawn_binding_is(v[42], "XF86AudioMute"@, Seq::<Seq<char>>::empty(), seq!["wpctl"@, "set-mute"@, "@DEFAULT_AUDIO_SINK@"@, "toggle"@])
    &&& spawn_binding_is(v[43], "XF86AudioMicMute"@, Seq::<Seq<char>>::empty(), seq!["wpctl"@, "set-mute"@, "@DEFAULT_AUDIO_SOURCE@"@, "toggle"@])
}

/// The built-in keybindings: the 44 fixed entries, then the 20 workspace
/// entries.
pub open spec fn is_default_keybindings(v: Seq<Keybinding>) -> bool {
    &&& v.len() == 64
    &&& fixed_bindings(v)
    &&& workspace_bindings_upto(v, 11)
}

/// The built-in pointer bindings: mod4 + left drags a window, mod4 + right
/// resizes it.
pub open spec fn is_default_pointer_bindings(v: Seq<PointerBinding>) -> bool {
    &&& v.len() == 2
    &&& v[0].button == Button::Left
    &&& strings_view(v[0].modifiers@) == seq!["mod4"@]
    &&& v[0].action == PointerAction::MoveWindow
    &&& v[1].button == Button::Right
    &&& strings_view(v[1].modifiers@) == seq!["mod4"@]
    &&& v[1].action == PointerAction::ResizeWindow
}

fn mods_none() -> (v: Vec<String>)
    ensures strings_view(v@) == Seq::<Seq<char>>::empty(),
{
    let v: Vec<String> = Vec::new();
    assert(strings_view(v@) =~= Seq::<Seq<char>>::empty());
    v
}

fn mods_mod4() -> (v: Vec<String>)
    ensures strings_view(v@) == seq!["mod4"@],
{
    let mut v: Vec<String> = Vec::new();
    v.push(String::from_str("mod4"));
    assert(strings_view(v@) =~= seq!["mod4"@]);
    v
}

fn mods_mod4_shift() -> (v: Vec<String>)
    ensures strings_view(v@) == seq!["mod4"@, "shift"@],
{
    let mut v: Vec<String> = Vec::new();
    v.push(String::from_str("mod4"));
    v.push(String::from_str("shift"));
    assert(strings_view(v@) =~= seq!["mod4"@, "shift"@]);
    v
}

fn mods_mod4_ctrl() -> (v: Vec<String>)
    ensures strings_view(v@) == seq!["mod4"@, "ctrl"@],
{
    let mut v: Vec<String> = Vec::new();
    v.push(String::from_str("mod4"));
    v.push(String::from_str("ctrl"));
    assert(strings_view(v@) =~= seq!["mod4"@, "ctrl"@]);
    v
}

fn kb(key: &str, modifiers: Vec<String>, action: KeybindingAction) -> (k: Keybinding)
    ensures
        k.key@ == key@,
        k.modifiers == modifiers,
        k.action == action,
{
    Keybinding { key: String::from_str(key), modifiers, action }
}

fn workspace_key_str(n: usize) -> (s: &'static str)
    requires
        1 <= n <= 10,
    ensures
        s@ == workspace_key(n as int),
{
    if n == 1 { "1" } else if n == 2 { "2" } else if n == 3 { "3" } else if n == 4 { "4" }
    else if n == 5 { "5" } else if n == 6 { "6" } else if n == 7 { "7" } else if n == 8 { "8" }
    else if n == 9 { "9" } else { "0" }
}

fn fixed_keybindings() -> (v: Vec<Keybinding>)
    ensures
        v@.len() == 44,
        fixed_bindings(v@),
{
    let mut v: Vec<Keybinding> = Vec::new();
    v.push(kb("q", mods_mod4(), KeybindingAction::CloseWindow));
    v.push(kb("f", mods_mod4(), KeybindingAction::ToggleFullscreen));
    v.push(kb("minus", mods_mod4(), KeybindingAction::AdjustWindowWidth(-100i32)));
    v.push(kb("equal", mods_mod4(), KeybindingAction::AdjustWindowWidth(100i32)));
    v.push(kb("BackSpace", mods_mod4(), KeybindingAction::SetWindowWidth(500u32)));
    v.push(kb("minus", mods_mod4_ctrl(), KeybindingAction::AdjustFloatingWindowSize(-100i32)));
    v.push(kb("equal", mods_mod4_ctrl(), KeybindingAction::AdjustFloatingWindowSize(100i32)));
    v.push(kb("BackSpace", mods_mod4_ctrl(), KeybindingAction::SetFloatingWindowHeight(500u32)));
    v.push(kb("Left", mods_mod4(), KeybindingAction::FocusWindowLeft));
    v.push(kb("Right", mods_mod4(), KeybindingAction::FocusWindowRight));
    v.push(kb("Left", mods_mod4_shift(), KeybindingAction::MoveWindowLeft));
    v.push(kb("Right", mods_mod4_shift(), KeybindingAction::MoveWindowRight));
    v.push(kb("Left", mods_mod4_ctrl(), KeybindingAction::MoveFloatingWindowLeft));
    v.push(kb("Right", mods_mod4_ctrl(), KeybindingAction::MoveFloatingWindowRight));
    v.push(kb("Up", mods_mod4_ctrl(), KeybindingAction::MoveFloatingWindowUp));
    v.push(kb("Down", mods_mod4_ctrl(), KeybindingAction::MoveFloatingWindowDown));
    v.push(kb("v", mods_mod4(), KeybindingAction::ToggleWorkspaceFloating));
    v.push(kb("Up", mods_mod4(), KeybindingAction::FocusWorkspaceAbove));
    v.push(kb("Down", mods_mod4(), KeybindingAction::FocusWorkspaceBelow));
    v.push(kb("grave", mods_mod4(), KeybindingAction::FocusWorkspacePrevious));
    v.push(kb("Up", mods_mod4_shift(), KeybindingAction::MoveWindowToWorkspaceAbove));
    v.push(kb("Down", mods_mod4_shift(), KeybindingAction::MoveWindowToWorkspaceBelow));
    v.push(kb("h", mods_mod4(), KeybindingAction::FocusOutputLeft));
    v.push(kb("l", mods_mod4(), KeybindingAction::FocusOutputRight));
    v.push(kb("k", mods_mod4(), KeybindingAction::FocusOutputAbove));
    v.push(kb("j", mods_mod4(), KeybindingAction::FocusOutputBelow));
    v.push(kb("h", mods_mod4_shift(), KeybindingAction::MoveWindowToOutputLeft));
    v.push(kb("l", mods_mod4_shift(), KeybindingAction::MoveWindowToOutputRight));
    v.push(kb("k", mods_mod4_shift(), KeybindingAction::MoveWindowToOutputAbove));
    v.push(kb("j", mods_mod4_shift(), KeybindingAction::MoveWindowToOutputBelow));
    v.push(kb("Escape", mods_mod4(), KeybindingAction::Exit));
    v.push(kb("Escape", mods_none(), KeybindingAction::OverviewCancel));
    v.push(kb("Return", mods_none(), KeybindingAction::OverviewConfirm));
    v.push(kb("h", mods_none(), KeybindingAction::OverviewNavLeft));
    v.push(kb("j", mods_none(), KeybindingAction::OverviewNavDown));
    v.push(kb("k", mods_none(), KeybindingAction::OverviewNavUp));
    v.push(kb("l", mods_none(), KeybindingAction::OverviewNavRight));
    v.push(kb("r", mods_mod4(), KeybindingAction::ReloadConfig));
    {
        let mut argv: Vec<String> = Vec::new();
        argv.push(String::from_str("alacritty"));
        proof { assert(strings_view(argv@) =~= seq!["alacritty"@]); }
        v.push(kb("t", mods_mod4(), KeybindingAction::Spawn(argv)));
    }
    v.push(kb("Space", mods_mod4(), KeybindingAction::EnterOverview));
    {
        let mut argv: Vec<String> = Vec::new();
        argv.push(String::from_str("wpctl"));
        argv.push(String::from_str("set-volume"));
        argv.push(String::from_str("@DEFAULT_AUDIO_SINK@"));
        argv.push(String::from_str("0.05+"));
        argv.push(String::from_str("--limit"));
        argv.push(String::from_str("1.0"));
        proof { assert(strings_view(argv@) =~= seq!["wpctl"@, "set-volume"@, "@DEFAULT_AUDIO_SINK@"@, "0.05+"@, "--limit"@, "1.0"@]); }
        v.push(kb("XF86AudioRaiseVolume", mods_none(), KeybindingAction::Spawn(argv)));
    }
    {
        let mut argv: Vec<String> = Vec::new();
        argv.push(String::from_str("wpctl"));
        argv.push(String::from_str("set-volume"));
        argv.push(String::from_str("@DEFAULT_AUDIO_SINK@"));
        argv.push(String::from_str("0.05-"));
        proof { assert(strings_view(argv@) =~= seq!["wpctl"@, "set-volume"@, "@DEFAULT_AUDIO_SINK@"@, "0.05-"@]); }
        v.push(kb("XF86AudioLowerVolume", mods_none(), KeybindingAction::Spawn(argv)));
    }
    {
        let mut argv: Vec<String> = Vec::new();
        argv.push(String::from_str("wpctl"));
        argv.push(String::from_str("set-mute"));
        argv.push(String::from_str("@DEFAULT_AUDIO_SINK@"));
        argv.push(String::from_str("toggle"));
        proof { assert(strings_view(argv@) =~= seq!["wpctl"@, "set-mute"@, "@DEFAULT_AUDIO_SINK@"@, "toggle"@]); }
        v.push(kb("XF86AudioMute", mods_none(), KeybindingAction::Spawn(argv)));
    }
    {
        let mut argv: Vec<String> = Vec::new();
        argv.push(String::from_str("wpctl"));
        argv.push(String::from_str("set-mute"));
        argv.push(String::from_str("@DEFAULT_AUDIO_SOURCE@"));
        argv.push(String::from_str("toggle"));
        proof { assert(strings_view(argv@) =~= seq!["wpctl"@, "set-mute"@, "@DEFAULT_AUDIO_SOURCE@"@, "toggle"@]); }
        v.push(kb("XF86AudioMicMute", mods_none(), KeybindingAction::Spawn(argv)));
    }
    v
}

/// Default keybindings: window, workspace and output navigation on mod4,
/// the overview's bare keys, volume keys, and workspaces 1 to 10 on the
/// digit keys.
pub fn default_keybindings() -> (v: Vec<Keybinding>)
    ensures
        is_default_keybindings(v@),
{
    let mut v = fixed_keybindings();
    let ghost fixed = v@;
    let mut n: usize = 1;
    while n <= 10
        invariant
            1 <= n <= 11,
            v@.len() == 44 + 2 * (n - 1),
            v@.subrange(0, 44) == fixed,
            fixed_bindings(fixed),
            workspace_bindings_upto(v@, n as int),
        decreases 11 - n,
    {
        let ghost before = v@;
        let key = workspace_key_str(n);
        v.push(kb(key, mods_mod4(), KeybindingAction::FocusWorkspaceNumber(n)));
        v.push(kb(key, mods_mod4_shift(), KeybindingAction::MoveWindowToWorkspaceNumber(n)));
        assert(v@.subrange(0, 44) =~= before.subrange(0, 44));
        assert forall|m: int| 1 <= m < n + 1 implies {
            &&& #[trigger] binding_is(v@[44 + 2 * (m - 1)], workspace_key(m), seq!["mod4"@], KeybindingAction::FocusWorkspaceNumber(m as usize))
            &&& binding_is(v@[44 + 2 * (m - 1) + 1], workspace_key(m), seq!["mod4"@, "shift"@], KeybindingAction::MoveWindowToWorkspaceNumber(m as usize))
        } by {
            if m < n {
                assert(v@[44 + 2 * (m - 1)] == before[44 + 2 * (m - 1)]);
                assert(v@[44 + 2 * (m - 1) + 1] == before[44 + 2 * (m - 1) + 1]);
            }
        }
        n = n + 1;
    }
    proof {
        assert forall|i: int| 0 <= i < 44 implies v@[i] == #[trigger] fixed[i] by {
            assert(v@.subrange(0, 44)[i] == v@[i]);
        }
        lemma_fixed_prefix(fixed, v@);
    }
    v
}

/// `fixed_bindings` only looks at the first 44 entries.
proof fn lemma_fixed_prefix(a: Seq<Keybinding>, b: Seq<Keybinding>)
    requires
        fixed_bindings(a),
        a.len() == 44,
        b.len() >= 44,
        forall|i: int| 0 <= i < 44 ==> b[i] == #[trigger] a[i],
    ensures
        fixed_bindings(b),
{
}

/// Default pointer bindings: mod4 + left button moves a window, mod4 +
/// right button resizes it.
pub fn default_pointer_bindings() -> (v: Vec<PointerBinding>)
    ensures
        is_default_pointer_bindings(v@),
{
    let mut v: Vec<PointerBinding> = Vec::new();
    v.push(PointerBinding { button: Button::Left, modifiers: mods_mod4(), action: PointerAction::MoveWindow });
    v.push(PointerBinding { button: Button::Right, modifiers: mods_mod4(), action: PointerAction::ResizeWindow });
    v
}

} // verus!
