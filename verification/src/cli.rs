//! The command line: which command runs, with which host and scope.

use vstd::prelude::*;
use crate::text::{has_prefix, str_eq, to_chars, starts_with_at};

verus! {

/// `--host`/`--host=H` and `--local`/`--global` read from position `k` on,
/// starting from `host` and `global`; the last flag of each kind wins.
pub open spec fn scope_from(args: Seq<Seq<char>>, k: nat, host: Seq<char>, global: bool) -> (
    Seq<char>,
    bool,
)
    decreases args.len() - k,
{
    if k >= args.len() {
        (host, global)
    } else {
        let a = args[k as int];
        if a == "--local"@ {
            scope_from(args, k + 1, host, false)
        } else if a == "--global"@ {
            scope_from(args, k + 1, host, true)
        } else if a == "--host"@ && k + 1 < args.len() {
            scope_from(args, k + 2, args[k + 1int], global)
        } else if has_prefix(a, "--host="@) {
            scope_from(args, k + 1, a.skip(7), global)
        } else {
            scope_from(args, k + 1, host, global)
        }
    }
}

/// The view of a list of strings.
pub open spec fn strings_view(v: Seq<String>) -> Seq<Seq<char>> {
    v.map_values(|s: String| s@)
}

/// `--host`/`--host=H` and `--local`/`--global` read from `args[start..]`.
fn scope_from_index(args: &[String], start: usize) -> (r: (String, bool))
    ensures
        (r.0@, r.1) == scope_from(strings_view(args@), start as nat, "github.com"@, true),
{
    let ghost av = strings_view(args@);
    let mut host = String::from_str("github.com");
    let mut global = true;
    let mut i: usize = start;
    if i > args.len() {
        return (host, global);
    }
    while i < args.len()
        invariant
            av == strings_view(args@),
            i <= args.len(),
            scope_from(av, start as nat, "github.com"@, true) == scope_from(
                av,
                i as nat,
                host@,
                global,
            ),
        decreases args.len() - i,
    {
        let a = args[i].as_str();
        assert(av[i as int] == a@);
        proof {
            reveal_strlit("--host=");
            reveal_strlit("--host");
            reveal_strlit("--local");
            reveal_strlit("--global");
            assert("--host"@.len() == 6 && "--local"@.len() == 7 && "--global"@.len() == 8);
        }
        if str_eq(a, "--local") {
            global = false;
        } else if str_eq(a, "--global") {
            global = true;
        } else if str_eq(a, "--host") && i + 1 < args.len() {
            host = args[i + 1].clone();
            assert(av[i + 1] == host@);
            i = i + 1;
        } else {
            let v = to_chars(a);
            assert(v@.subrange(0, v@.len() as int) =~= v@);
            if starts_with_at(&v, 0, v.len(), "--host=") {
                host = String::from_str(a.substring_char(7, v.len()));
                assert(host@ =~= a@.skip(7));
            }
        }
        i = i + 1;
    }
    (host, global)
}

/// Parse `--host H|--host=H` and `--local|--global` (default: github.com, global).
pub fn parse_scope(args: &[String]) -> (r: (String, bool))
    ensures
        (r.0@, r.1) == scope_from(strings_view(args@), 0, "github.com"@, true),
{
    scope_from_index(args, 0)
}

/// What the command line asks for.
#[derive(Debug)]
pub enum Command {
    /// `git-credential <op>`: the credential-helper protocol.
    GitCredential(String),
    /// `install [--host H] [--local|--global]`.
    Install(String, bool),
    /// `uninstall [--host H] [--local|--global]`.
    Uninstall(String, bool),
    /// `doctor [host]`.
    Doctor(String),
    /// `tui`, `edit`, or no argument: the configuration editor.
    Tui,
    /// `help`, `-h` or `--help`.
    Help,
    /// Anything else.
    Unknown(String),
}

/// The argument at `i`, or `default`.
pub open spec fn arg_or(args: Seq<Seq<char>>, i: int, default: Seq<char>) -> Seq<char> {
    if 0 <= i < args.len() {
        args[i]
    } else {
        default
    }
}

/// The command that `args` (without the program name) select.
pub open spec fn command_spec(args: Seq<Seq<char>>) -> CommandView {
    let cmd = arg_or(args, 0, "tui"@);
    if cmd == "git-credential"@ {
        CommandView::GitCredential(arg_or(args, 1, Seq::<char>::empty()))
    } else if cmd == "install"@ {
        let s = scope_from(args, 1, "github.com"@, true);
        CommandView::Install(s.0, s.1)
    } else if cmd == "uninstall"@ {
        let s = scope_from(args, 1, "github.com"@, true);
        CommandView::Uninstall(s.0, s.1)
    } else if cmd == "doctor"@ {
        CommandView::Doctor(arg_or(args, 1, "github.com"@))
    } else if cmd == "tui"@ || cmd == "edit"@ {
        CommandView::Tui
    } else if cmd == "help"@ || cmd == "-h"@ || cmd == "--help"@ {
        CommandView::Help
    } else {
        CommandView::Unknown(cmd)
    }
}

/// A command as mathematical values.
pub enum CommandView {
    GitCredential(Seq<char>),
    Install(Seq<char>, bool),
    Uninstall(Seq<char>, bool),
    Doctor(Seq<char>),
    Tui,
    Help,
    Unknown(Seq<char>),
}

impl View for Command {
    type V = CommandView;

    open spec fn view(&self) -> CommandView {
        match self {
            Command::GitCredential(op) => CommandView::GitCredential(op@),
            Command::Install(h, g) => CommandView::Install(h@, *g),
            Command::Uninstall(h, g) => CommandView::Uninstall(h@, *g),
            Command::Doctor(h) => CommandView::Doctor(h@),
            Command::Tui => CommandView::Tui,
            Command::Help => CommandView::Help,
            Command::Unknown(c) => CommandView::Unknown(c@),
        }
    }
}

/// The argument at `i`, or `default`.
fn arg_or_default(args: &[String], i: usize, default: &str) -> (r: String)
    ensures
        r@ == arg_or(strings_view(args@), i as int, default@),
{
    if i < args.len() {
        args[i].clone()
    } else {
        String::from_str(default)
    }
}

/// Select the command from the arguments (without the program name).
pub fn parse_command(args: &[String]) -> (r: Command)
    ensures
        r@ == command_spec(strings_view(args@)),
        args@.len() >= 2 && args@[0]@ == "doctor"@ ==> r@ == CommandView::Doctor(args@[1]@),
        args@.len() == 1 && args@[0]@ == "doctor"@ ==> r@ == CommandView::Doctor("github.com"@),
        args@.len() >= 2 && args@[0]@ == "git-credential"@ ==> r@ == CommandView::GitCredential(
            args@[1]@,
        ),
{
    let ghost av = strings_view(args@);
    proof {
        lemma_command_arguments(av);
        if args@.len() >= 1 {
            assert(av[0] == args@[0]@);
        }
        if args@.len() >= 2 {
            assert(av[1] == args@[1]@);
        }
    }
    let cmd = arg_or_default(args, 0, "tui");
    let c = cmd.as_str();
    if str_eq(c, "git-credential") {
        proof {
            reveal_strlit("");
            assert(""@.len() == 0);
            assert(""@ =~= Seq::<char>::empty());
        }
        Command::GitCredential(arg_or_default(args, 1, ""))
    } else if str_eq(c, "install") || str_eq(c, "uninstall") {
        proof {
            reveal_strlit("tui");
            reveal_strlit("install");
            reveal_strlit("uninstall");
            assert("tui"@.len() == 3 && "install"@.len() == 7 && "uninstall"@.len() == 9);
            if args@.len() == 0 {
                assert(c@ == "tui"@);
                assert(c@ != "install"@ && c@ != "uninstall"@);
            }
        }
        let (host, global) = scope_from_index(args, 1);
        if str_eq(c, "install") {
            Command::Install(host, global)
        } else {
            Command::Uninstall(host, global)
        }
    } else if str_eq(c, "doctor") {
        Command::Doctor(arg_or_default(args, 1, "github.com"))
    } else if str_eq(c, "tui") || str_eq(c, "edit") {
        Command::Tui
    } else if str_eq(c, "help") || str_eq(c, "-h") || str_eq(c, "--help") {
        Command::Help
    } else {
        Command::Unknown(cmd)
    }
}

/// The argument after `doctor` is the host it reports on (`github.com` when
/// there is none), and the argument after `git-credential` is the operation.
pub proof fn lemma_command_arguments(args: Seq<Seq<char>>)
    ensures
        args.len() >= 2 && args[0] == "doctor"@ ==> command_spec(args) == CommandView::Doctor(
            args[1],
        ),
        args.len() == 1 && args[0] == "doctor"@ ==> command_spec(args) == CommandView::Doctor(
            "github.com"@,
        ),
        args.len() >= 2 && args[0] == "git-credential"@ ==> command_spec(args)
            == CommandView::GitCredential(args[1]),
{
    reveal_strlit("doctor");
    reveal_strlit("git-credential");
    reveal_strlit("install");
    reveal_strlit("uninstall");
    assert("doctor"@.len() == 6);
    assert("git-credential"@.len() == 14);
    assert("install"@.len() == 7);
    assert("uninstall"@.len() == 9);
}

} // verus!
