use tailrace::keybinding::{known_keysym, move_target, parse_modifiers, Modifiers};

#[test]
fn modifiers_parse() {
    let m = parse_modifiers(&["mod4".into(), "shift".into()]).unwrap();
    assert_eq!(m, Modifiers::mod4().union(Modifiers::shift()));
    assert!(parse_modifiers(&["bogus".into()]).is_err());
    assert_eq!(parse_modifiers(&[]).unwrap(), Modifiers::none());
}

#[test]
fn modifier_bits_and_the_offending_name() {
    assert_eq!(parse_modifiers(&["ctrl".into(), "mod1".into()]).unwrap().bits, 4 | 8);
    assert_eq!(parse_modifiers(&["shift".into(), "hyper".into()]).unwrap_err(), "hyper");
}

#[test]
fn move_target_bounds() {
    assert_eq!(move_target(0, 2, false), None);
    assert_eq!(move_target(1, 2, false), Some(0));
    assert_eq!(move_target(0, 2, true), Some(1));
    assert_eq!(move_target(1, 2, true), None);
    assert_eq!(move_target(0, 1, true), None);
    assert_eq!(move_target(usize::MAX, 2, false), None);
    assert_eq!(move_target(usize::MAX, 2, true), None);
}

#[test]
fn known_keysym_rejects_no_symbol() {
    assert_eq!(known_keysym(0), None);
    assert_eq!(known_keysym(0xff0d), Some(0xff0d));
}

#[test]
fn modifier_order_and_repetition_do_not_matter() {
    let a = parse_modifiers(&["mod4".into(), "shift".into()]).unwrap();
    let b = parse_modifiers(&["shift".into(), "mod4".into(), "shift".into()]).unwrap();
    assert_eq!(a, b);
    assert_eq!(a.bits, 65);
    assert!(parse_modifiers(&["ctrl".into(), "hyper".into()]).is_err());
    assert!(parse_modifiers(&["hyper".into(), "ctrl".into()]).is_err());
}
