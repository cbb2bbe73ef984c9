use tailrace::args::{parse_args_from, ArgsError, Parsed};

/// `Ok(None)`: the program stops early (help or version); otherwise the
/// configuration path.
fn args(list: &[&str]) -> Result<Option<Option<String>>, String> {
    match parse_args_from(list.iter().map(|s| s.to_string()).collect()) {
        Ok(Parsed::Run { config }) => Ok(Some(config)),
        Ok(Parsed::Help) | Ok(Parsed::Version) => Ok(None),
        Err(ArgsError::MissingPath(flag)) => Err(format!("{flag} needs a path")),
        Err(ArgsError::Unknown(arg)) => Err(format!("unknown argument '{arg}'")),
    }
}

#[test]
fn config_path_is_parsed() {
    let parsed = args(&["-c", "/tmp/x.toml"]).unwrap().unwrap();
    assert_eq!(parsed, Some("/tmp/x.toml".to_string()));
    let parsed = args(&["--config", "/tmp/y.toml"]).unwrap().unwrap();
    assert_eq!(parsed, Some("/tmp/y.toml".to_string()));
    assert!(args(&[]).unwrap().unwrap().is_none());
}

#[test]
fn help_and_version_exit_early() {
    assert!(args(&["--help"]).unwrap().is_none());
    assert!(args(&["-V"]).unwrap().is_none());
}

#[test]
fn bad_arguments_are_rejected() {
    assert!(args(&["--config"]).is_err(), "missing path");
    assert!(args(&["--nope"]).is_err(), "unknown flag");
}

#[test]
fn the_last_config_flag_wins_and_errors_name_the_argument() {
    assert_eq!(args(&["-c", "a", "--config", "b"]).unwrap().unwrap(), Some("b".to_string()));
    assert_eq!(args(&["-x"]).unwrap_err(), "unknown argument '-x'");
    assert_eq!(args(&["-c"]).unwrap_err(), "-c needs a path");
    assert!(matches!(parse_args_from(vec!["--version".to_string()]), Ok(Parsed::Version)));
    assert!(matches!(parse_args_from(vec!["-h".to_string(), "--nope".to_string()]), Ok(Parsed::Help)));
}
