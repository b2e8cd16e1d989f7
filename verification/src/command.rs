//! The command surface: mapping a command word to the operation it
//! names, and the shared validation of an index argument.

use vstd::prelude::*;
use vstd::string::StringExecFns;
use crate::digits::dec_value;
use crate::digits::parse_usize;
use crate::digits::parses_usize;

verus! {

/// The operations of the tool, plus `Unknown` for anything else.
#[derive(Debug, PartialEq, Eq, Structural, Clone, Copy)]
pub enum CommandKind {
    Help,
    Add,
    Show,
    Delete,
    List,
    Clean,
    Version,
    Unknown,
}

/// The operation a command word names, aliases included.
pub open spec fn command_spec(s: Seq<char>) -> CommandKind {
    if s == "help"@ || s == "-h"@ || s == "--help"@ {
        CommandKind::Help
    } else if s == "add"@ || s == "new"@ || s == "-a"@ || s == "-n"@ {
        CommandKind::Add
    } else if s == "show"@ || s == "see"@ || s == "open"@ || s == "-s"@ || s == "-o"@ {
        CommandKind::Show
    } else if s == "delete"@ || s == "remove"@ || s == "-d"@ || s == "-r"@ {
        CommandKind::Delete
    } else if s == "list"@ || s == "all"@ || s == "-l"@ {
        CommandKind::List
    } else if s == "clean"@ || s == "deleteall"@ || s == "removeall"@ || s == "-c"@ {
        CommandKind::Clean
    } else if s == "version"@ || s == "-v"@ || s == "--version"@ {
        CommandKind::Version
    } else {
        CommandKind::Unknown
    }
}

/// Whether a string equals the given literal.
fn str_eq(a: &String, b: &str) -> (r: bool)
    ensures
        r == (a@ == b@),
{
    let bs = String::from_str(b);
    *a == bs
}

/// Maps a command word to the operation it names.
pub fn parse_command(cmd: &String) -> (r: CommandKind)
    ensures
        r == command_spec(cmd@),
{
    if str_eq(cmd, "help") || str_eq(cmd, "-h") || str_eq(cmd, "--help") {
        CommandKind::Help
    } else if str_eq(cmd, "add") || str_eq(cmd, "new") || str_eq(cmd, "-a") || str_eq(cmd, "-n") {
        CommandKind::Add
    } else if str_eq(cmd, "show") || str_eq(cmd, "see") || str_eq(cmd, "open") || str_eq(
        cmd,
        "-s",
    ) || str_eq(cmd, "-o") {
        CommandKind::Show
    } else if str_eq(cmd, "delete") || str_eq(cmd, "remove") || str_eq(cmd, "-d") || str_eq(
        cmd,
        "-r",
    ) {
        CommandKind::Delete
    } else if str_eq(cmd, "list") || str_eq(cmd, "all") || str_eq(cmd, "-l") {
        CommandKind::List
    } else if str_eq(cmd, "clean") || str_eq(cmd, "deleteall") || str_eq(cmd, "removeall")
        || str_eq(cmd, "-c") {
        CommandKind::Clean
    } else if str_eq(cmd, "version") || str_eq(cmd, "-v") || str_eq(cmd, "--version") {
        CommandKind::Version
    } else {
        CommandKind::Unknown
    }
}

/// The shared validation of `show` and `delete`: exactly one argument,
/// which must be a decimal numeral; returns its value, or nothing when
/// the argument count or the numeral is wrong.
pub fn parse_index_arg(args: &Vec<String>) -> (r: Option<usize>)
    ensures
        r is Some <==> args@.len() == 1 && parses_usize(args@[0]@),
        r matches Some(v) ==> v as nat == dec_value(args@[0]@),
{
    if args.len() != 1 {
        None
    } else {
        parse_usize(args[0].as_str())
    }
}

} // verus!
