use tailrace::actions::KeybindingAction;
use tailrace::config::{default_config, load, reload, Config, LoadError, ReadFailure, ReadOutcome};

#[test]
fn default_config_has_bindings() {
    let config = default_config();
    assert!(config.keybindings.len() > 50);
    assert!(config.keybindings.iter().any(|kb| kb.action == KeybindingAction::CloseWindow));
    assert_eq!(config.pointer_bindings.len(), 2);
}

#[test]
fn default_config_has_ten_pixel_gaps_and_three_pixel_borders() {
    let config = default_config();
    assert_eq!(config.horizontal_gap, 10);
    assert_eq!(config.vertical_gap, 10);
    assert_eq!(config.border.width, 3);
    assert!(config.cursor.is_none());
    assert!(!config.focus_follows_pointer);
}

fn decoded_with_gap(gap: i32) -> ReadOutcome {
    let mut c = Config::default();
    c.vertical_gap = gap;
    ReadOutcome::Decoded(c)
}

#[test]
fn load_takes_the_first_file_that_exists() {
    let outcomes = vec![ReadOutcome::Failed(ReadFailure::NotFound), decoded_with_gap(42), decoded_with_gap(7)];
    let c = load(false, outcomes).unwrap();
    assert_eq!(c.vertical_gap, 42);
    // Empty binding lists fall back to the built-in ones.
    assert_eq!(c.keybindings.len(), default_config().keybindings.len());
}

#[test]
fn load_without_any_file_uses_the_defaults() {
    let c = load(false, vec![ReadOutcome::Failed(ReadFailure::NotFound)]).unwrap();
    assert_eq!(c, default_config());
}

#[test]
fn load_reports_a_broken_file() {
    let r = load(false, vec![ReadOutcome::Failed(ReadFailure::Invalid), decoded_with_gap(1)]);
    assert_eq!(r.unwrap_err(), LoadError::Invalid);
}

#[test]
fn load_reports_a_missing_explicit_file() {
    let r = load(true, vec![ReadOutcome::Failed(ReadFailure::NotFound)]);
    assert_eq!(r.unwrap_err(), LoadError::NotFound);
}

#[test]
fn reload_keeps_the_old_config_on_failure() {
    assert!(reload(false, vec![ReadOutcome::Failed(ReadFailure::NotFound)]).is_none());
    assert!(reload(true, vec![ReadOutcome::Failed(ReadFailure::Unreadable)]).is_none());
    assert_eq!(reload(false, vec![decoded_with_gap(5)]).unwrap().vertical_gap, 5);
}

#[test]
fn reload_agrees_with_load_when_a_file_decodes() {
    let outcomes = || vec![ReadOutcome::Failed(ReadFailure::NotFound), decoded_with_gap(9)];
    assert_eq!(reload(false, outcomes()).unwrap(), load(false, outcomes()).unwrap());
    let broken = || vec![ReadOutcome::Failed(ReadFailure::Invalid)];
    assert!(load(false, broken()).is_err());
    assert!(reload(false, broken()).is_none());
}
