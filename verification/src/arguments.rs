//! Command-line arguments of the launcher.

use vstd::prelude::*;
use crate::text::str_eq;

verus! {

/// How dmenu mode reads its choices from the standard input.
#[derive(Debug, Clone, Copy, PartialEq, Eq, Structural)]
pub enum Protocol {
    /// One choice per line; `\0icon\x1f<icon>` after the name sets its icon.
    RofiExtended,
    /// The choice lists of the plugin protocol.
    Keal,
}

/// The launcher's options.
#[derive(Debug)]
pub struct Arguments {
    /// Read the choices from the standard input and print the chosen one.
    pub dmenu: bool,
    pub protocol: Protocol,
    /// Show how long the start-up steps take.
    pub timings: bool,
    /// The name of the frontend.
    pub frontend: String,
}

/// Why the arguments do not let the launcher start.
#[derive(Debug)]
pub enum Error {
    /// Help or the version was asked for and shown.
    Exit,
    /// An argument that is no option.
    UnknownFlag(String),
}

/// What an argument means.
#[derive(Debug, Clone, Copy, PartialEq, Eq, Structural)]
pub enum Flag {
    Dmenu,
    Keal,
    Timings,
    Help,
    Version,
    Unknown,
}

/// The option an argument names.
pub open spec fn flag_of(arg: Seq<char>) -> Flag {
    if arg == "--dmenu"@ || arg == "-d"@ {
        Flag::Dmenu
    } else if arg == "--keal"@ || arg == "-k"@ {
        Flag::Keal
    } else if arg == "--timings"@ {
        Flag::Timings
    } else if arg == "--help"@ || arg == "-h"@ {
        Flag::Help
    } else if arg == "--version"@ || arg == "-v"@ {
        Flag::Version
    } else {
        Flag::Unknown
    }
}

/// The option an argument names.
pub fn flag(arg: &str) -> (r: Flag)
    ensures
        r == flag_of(arg@),
{
    if str_eq(arg, "--dmenu") || str_eq(arg, "-d") {
        Flag::Dmenu
    } else if str_eq(arg, "--keal") || str_eq(arg, "-k") {
        Flag::Keal
    } else if str_eq(arg, "--timings") {
        Flag::Timings
    } else if str_eq(arg, "--help") || str_eq(arg, "-h") {
        Flag::Help
    } else if str_eq(arg, "--version") || str_eq(arg, "-v") {
        Flag::Version
    } else {
        Flag::Unknown
    }
}

/// The index of the first argument that ends the reading: help, the
/// version, or an unknown argument; the number of arguments when there is
/// none.
pub open spec fn first_stop(args: Seq<Seq<char>>, i: int) -> int
    decreases args.len() - i,
{
    if i >= args.len() {
        args.len() as int
    } else {
        match flag_of(args[i]) {
            Flag::Help | Flag::Version | Flag::Unknown => i,
            _ => first_stop(args, i + 1),
        }
    }
}

/// Whether one of the first `n` arguments names `f`.
pub open spec fn names_flag(args: Seq<Seq<char>>, n: int, f: Flag) -> bool {
    exists|k: int| 0 <= k < n && #[trigger] flag_of(args[k]) == f
}

/// The help text.
pub open spec fn help_text() -> Seq<char> {
    "usage: keal [options...]\n\noptions:\n  -h, --help    Show this help and exit\n  -v, --version Show the current version and frontend of keal\n  -d, --dmenu   Launch keal in dmenu mode (pipe choices into it)\n  -k, --keal    In dmenu mode, use the same protocol as plugins, instead of the default rofi extended dmenu protocol\n      --timings Show how long the different keal systems take to start up\n"@
}

/// The version text.
pub open spec fn version_text(version: Seq<char>, frontend: Seq<char>) -> Seq<char> {
    "keal version "@ + version + ", "@ + frontend + " frontend\n"@
}

impl Arguments {
    /// Reads the arguments (without the program's name). The options are
    /// `-d`/`--dmenu`, `-k`/`--keal` (the plugin protocol in dmenu mode) and
    /// `--timings`; `-h`/`--help` and `-v`/`--version` stop with `Exit` and
    /// give the help or the version text to print; any other argument stops
    /// with `UnknownFlag`. The arguments are read in order and the first that
    /// stops decides.
    pub fn parse(frontend: &str, version: &str, args: &Vec<String>) -> (r: (Result<Arguments, Error>, Option<String>))
        ensures
            ({
                let a = args@.map_values(|s: String| s@);
                let stop = first_stop(a, 0);
                if stop == a.len() {
                    &&& r.0 matches Ok(p) && {
                        &&& p.dmenu == names_flag(a, a.len() as int, Flag::Dmenu)
                        &&& (p.protocol == Protocol::Keal) == names_flag(a, a.len() as int, Flag::Keal)
                        &&& p.timings == names_flag(a, a.len() as int, Flag::Timings)
                        &&& p.frontend@ == frontend@
                    }
                    &&& r.1 is None
                } else {
                    match flag_of(a[stop]) {
                        Flag::Help => r.0 matches Err(Error::Exit) && r.1 matches Some(t) && t@ == help_text(),
                        Flag::Version => r.0 matches Err(Error::Exit) && r.1 matches Some(t) && t@ == version_text(
                            version@,
                            frontend@,
                        ),
                        _ => r.0 matches Err(Error::UnknownFlag(f)) && f@ == a[stop] && r.1 is None,
                    }
                }
            }),
    {
        let ghost a = args@.map_values(|s: String| s@);
        let mut dmenu = false;
        let mut protocol = Protocol::RofiExtended;
        let mut timings = false;
        let mut i: usize = 0;
        while i < args.len()
            invariant
                0 <= i <= args.len(),
                a == args@.map_values(|s: String| s@),
                first_stop(a, 0) == first_stop(a, i as int),
                dmenu == names_flag(a, i as int, Flag::Dmenu),
                (protocol == Protocol::Keal) == names_flag(a, i as int, Flag::Keal),
                timings == names_flag(a, i as int, Flag::Timings),
            decreases args.len() - i,
        {
            let f = flag(args[i].as_str());
            assert(a[i as int] == args@[i as int]@);
            match f {
                Flag::Dmenu => {
                    dmenu = true;
                },
                Flag::Keal => {
                    protocol = Protocol::Keal;
                },
                Flag::Timings => {
                    timings = true;
                },
                Flag::Help => {
                    return (Err(Error::Exit), Some(help()));
                },
                Flag::Version => {
                    return (Err(Error::Exit), Some(crate::utf8_text::concat3(
                        crate::utf8_text::concat3("keal version ", version, ", ").as_str(),
                        frontend,
                        " frontend\n",
                    )));
                },
                Flag::Unknown => {
                    return (Err(Error::UnknownFlag(args[i].clone())), None);
                },
            }
            proof {
                assert forall|g: Flag| #[trigger] names_flag(a, i + 1, g) == (names_flag(a, i as int, g) || flag_of(a[i as int]) == g) by {
                    if names_flag(a, i + 1, g) {
                        let k = choose|k: int| 0 <= k < i + 1 && #[trigger] flag_of(a[k]) == g;
                        if k < i {
                            assert(names_flag(a, i as int, g));
                        }
                    }
                }
            }
            i += 1;
        }
        (Ok(Arguments { dmenu, protocol, timings, frontend: frontend.to_owned() }), None)
    }
}

fn help() -> (r: String)
    ensures
        r@ == help_text(),
{
    "usage: keal [options...]\n\noptions:\n  -h, --help    Show this help and exit\n  -v, --version Show the current version and frontend of keal\n  -d, --dmenu   Launch keal in dmenu mode (pipe choices into it)\n  -k, --keal    In dmenu mode, use the same protocol as plugins, instead of the default rofi extended dmenu protocol\n      --timings Show how long the different keal systems take to start up\n".to_owned()
}

} // verus!
