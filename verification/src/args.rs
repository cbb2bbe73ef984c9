//! Command-line arguments: `-c`/`--config <path>`, `-h`/`--help`,
//! `-V`/`--version`.

use vstd::prelude::*;
use crate::keybinding::strings_view;
use crate::text::str_equals;

verus! {

/// What the arguments ask for.
pub enum Parsed {
    /// Run, with the configuration file named (if any).
    Run { config: Option<String> },
    /// Print the usage and stop.
    Help,
    /// Print the version and stop.
    Version,
}

/// Arguments that cannot be used.
pub enum ArgsError {
    /// The flag (`-c` or `--config`) needs a path after it.
    MissingPath(String),
    /// Not an argument the program takes.
    Unknown(String),
}

/// The text of an optional string.
pub open spec fn opt_view(o: Option<String>) -> Option<Seq<char>> {
    match o {
        Some(s) => Some(s@),
        None => None,
    }
}

/// The arguments read left to right: a config flag takes the next
/// argument as its path (a later one wins); help and version stop at
/// once; anything else is an error. `Ok((0, config))` runs,
/// `Ok((1, _))` is help, `Ok((2, _))` version; `Err((true, flag))` is a
/// flag without its path, `Err((false, arg))` an unknown argument.
pub open spec fn args_result(args: Seq<Seq<char>>, config: Option<Seq<char>>) -> Result<(int, Option<Seq<char>>), (bool, Seq<char>)>
    decreases args.len(),
{
    if args.len() == 0 {
        Ok((0, config))
    } else {
        let a = args[0];
        if a == "-c"@ || a == "--config"@ {
            if args.len() < 2 {
                Err((true, a))
            } else {
                args_result(args.skip(2), Some(args[1]))
            }
        } else if a == "-h"@ || a == "--help"@ {
            Ok((1, config))
        } else if a == "-V"@ || a == "--version"@ {
            Ok((2, config))
        } else {
            Err((false, a))
        }
    }
}

/// The spec result a parse gives back.
pub open spec fn parsed_view(r: Result<Parsed, ArgsError>) -> Result<(int, Option<Seq<char>>), (bool, Seq<char>)> {
    match r {
        Ok(Parsed::Run { config }) => Ok((0, opt_view(config))),
        Ok(Parsed::Help) => Ok((1, None)),
        Ok(Parsed::Version) => Ok((2, None)),
        Err(ArgsError::MissingPath(s)) => Err((true, s@)),
        Err(ArgsError::Unknown(s)) => Err((false, s@)),
    }
}

/// Read the arguments (without the program name); see `args_result`.
pub fn parse_args_from(args: Vec<String>) -> (r: Result<Parsed, ArgsError>)
    ensures
        match args_result(strings_view(args@), None) {
            Ok((k, c)) => if k == 0 { parsed_view(r) == Ok::<(int, Option<Seq<char>>), (bool, Seq<char>)>((0, c)) } else { parsed_view(r) == Ok::<(int, Option<Seq<char>>), (bool, Seq<char>)>((k, None)) },
            Err(e) => parsed_view(r) == Err::<(int, Option<Seq<char>>), (bool, Seq<char>)>(e),
        },
{
    let ghost all = strings_view(args@);
    let mut config: Option<String> = None;
    let mut i: usize = 0;
    proof { assert(all.skip(0) =~= all); }
    while i < args.len()
        invariant
            all == strings_view(args@),
            i <= args@.len(),
            args_result(all, None) == args_result(all.skip(i as int), opt_view(config)),
        decreases args@.len() - i,
    {
        let a = &args[i];
        let ghost rest = all.skip(i as int);
        proof {
            assert(rest.len() > 0);
            assert(rest[0] == a@);
        }
        if str_equals(a.as_str(), "-c") || str_equals(a.as_str(), "--config") {
            if i + 1 >= args.len() {
                return Err(ArgsError::MissingPath(a.clone()));
            }
            config = Some(args[i + 1].clone());
            proof {
                assert(rest[1] == args@[i + 1]@);
                assert(rest.skip(2) =~= all.skip(i + 2));
            }
            i = i + 2;
        } else if str_equals(a.as_str(), "-h") || str_equals(a.as_str(), "--help") {
            return Ok(Parsed::Help);
        } else if str_equals(a.as_str(), "-V") || str_equals(a.as_str(), "--version") {
            return Ok(Parsed::Version);
        } else {
            return Err(ArgsError::Unknown(a.clone()));
        }
    }
    proof {
        assert(all.skip(i as int).len() == 0);
    }
    Ok(Parsed::Run { config })
}

} // verus!
