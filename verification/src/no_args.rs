//! The command line: an optional path to the configuration, and a few flags
//! that say what to do with it.
use crate::ansi::Ansi;
use crate::ansi::RESET;
use vstd::prelude::*;
use vstd::string::*;

verus! {

/// Where the configuration is read from.
#[derive(Debug, Clone, PartialEq, Eq)]
pub struct NoArgs {
    pub path: String,
}

impl NoArgs {
    pub fn path(&self) -> (p: &str)
        ensures
            p@ == self.path@,
    {
        self.path.as_str()
    }
}

/// What a command line asks for.
#[derive(Debug, Clone, Copy, PartialEq, Eq, Structural)]
pub enum Outcome {
    /// run with the configuration at the path
    Run,
    /// read the configuration at the path, say whether it is in order, exit
    Check,
    /// show the default configuration and exit
    ShowDefault,
    /// show the usage and exit
    Help,
    /// an option that is not known; show the usage and exit
    UnexpectedOption,
    /// a second path; show the usage and exit
    UnexpectedPositional,
}

/// What a command line asks for, and about what: the path of the
/// configuration, or the argument that was not expected.
#[derive(Debug, Clone, PartialEq, Eq)]
pub struct Invocation {
    pub outcome: Outcome,
    pub text: String,
}

/// How far a command line is read.
pub struct Scan {
    /// the path so far
    pub path: Seq<char>,
    /// whether a path was given
    pub taken: bool,
    /// whether an argument that begins with a dash is still a flag
    pub flags: bool,
    /// whether the configuration is only to be checked
    pub check: bool,
}

/// What the arguments from place `i` on ask for: arguments are read in
/// order, and the first that ends the reading decides. `--` ends the flags,
/// `--check` asks for a check, the first other argument is the path.
pub open spec fn scan(args: Seq<String>, i: int, s: Scan) -> (Outcome, Seq<char>)
    decreases args.len() - i,
{
    if i < 0 || i >= args.len() {
        (
            if s.check {
                Outcome::Check
            } else {
                Outcome::Run
            },
            s.path,
        )
    } else {
        let arg = args[i]@;
        if s.flags && arg.len() > 0 && arg[0] == '-' {
            if arg == "-h"@ || arg == "--help"@ {
                (Outcome::Help, arg)
            } else if arg == "--check"@ {
                scan(args, i + 1, Scan { check: true, ..s })
            } else if arg == "--show-default"@ {
                (Outcome::ShowDefault, arg)
            } else if arg == "--"@ {
                scan(args, i + 1, Scan { flags: false, ..s })
            } else {
                (Outcome::UnexpectedOption, arg)
            }
        } else if s.taken {
            (Outcome::UnexpectedPositional, arg)
        } else {
            scan(args, i + 1, Scan { path: arg, taken: true, ..s })
        }
    }
}

/// What the arguments ask for, where the configuration is read from
/// `default` unless they name a path.
pub open spec fn asked(args: Seq<String>, default: Seq<char>) -> (Outcome, Seq<char>) {
    scan(args, 0, Scan { path: default, taken: false, flags: true, check: false })
}

fn same(a: &str, b: &str) -> (r: bool)
    ensures
        r == (a@ == b@),
{
    let x = a.to_owned();
    let y = b.to_owned();
    x == y
}

/// Reads the arguments of the command line, without the name of the program.
pub fn from_args(args: &Vec<String>, default: &str) -> (r: Invocation)
    ensures
        (r.outcome, r.text@) == asked(args@, default@),
{
    let mut path = default.to_owned();
    let mut taken = false;
    let mut flags = true;
    let mut check = false;
    let mut i: usize = 0;
    while i < args.len()
        invariant
            i <= args@.len(),
            asked(args@, default@) == scan(
                args@,
                i as int,
                Scan { path: path@, taken, flags, check },
            ),
        decreases args@.len() - i,
    {
        let arg = args[i].as_str();
        let dashed = arg.unicode_len() > 0 && arg.get_char(0) == '-';
        if flags && dashed {
            if same(arg, "-h") || same(arg, "--help") {
                return Invocation { outcome: Outcome::Help, text: arg.to_owned() };
            } else if same(arg, "--check") {
                check = true;
            } else if same(arg, "--show-default") {
                return Invocation { outcome: Outcome::ShowDefault, text: arg.to_owned() };
            } else if same(arg, "--") {
                flags = false;
            } else {
                return Invocation { outcome: Outcome::UnexpectedOption, text: arg.to_owned() };
            }
        } else if taken {
            return Invocation { outcome: Outcome::UnexpectedPositional, text: arg.to_owned() };
        } else {
            path = arg.to_owned();
            taken = true;
        }
        i += 1;
    }
    Invocation {
        outcome: if check {
            Outcome::Check
        } else {
            Outcome::Run
        },
        text: path,
    }
}

impl Outcome {
    /// The status that the process exits with, for an outcome that ends it
    /// before it runs: whether the configuration is in order decides for a
    /// check. A run does not exit.
    pub fn exit_code(self, config_in_order: bool) -> (code: Option<i32>)
        ensures
            code == (match self {
                Outcome::Run => None::<i32>,
                Outcome::ShowDefault => Some(0i32),
                Outcome::Check => if config_in_order {
                    Some(0i32)
                } else {
                    Some(2i32)
                },
                _ => Some(2i32),
            }),
    {
        match self {
            Outcome::Run => None,
            Outcome::ShowDefault => Some(0),
            Outcome::Check => if config_in_order {
                Some(0)
            } else {
                Some(2)
            },
            _ => Some(2),
        }
    }
}

/// What is shown to someone who asks how the program is called.
pub open spec fn usage_text(exe: Seq<char>, path: Seq<char>) -> Seq<char> {
    "\x1b[38;5;12m"@ + "usage"@ + RESET@ + " » "@ + exe + " [--show-default] (or) [--check] ["@
        + path
        + "]\n\t--check       \tread the config & exit.\n\t              \tfails when config can't be read or is busted\n\t--show-default\tshow default config file to stdout and exit"@
}

pub fn usage(exe: &str, path: &str) -> (s: String)
    ensures
        s@ == usage_text(exe@, path@),
{
    let mut s = Ansi::blue().fg("usage").to_string();
    s.append(" » ");
    s.append(exe);
    s.append(" [--show-default] (or) [--check] [");
    s.append(path);
    s.append(
        "]\n\t--check       \tread the config & exit.\n\t              \tfails when config can't be read or is busted\n\t--show-default\tshow default config file to stdout and exit",
    );
    s
}

} // verus!
