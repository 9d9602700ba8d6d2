//! The naming rules of the terminal-process tracker.
//!
//! The host polls the process table; what stands here is the decision of
//! which name a terminal session shows.

use vstd::prelude::*;

use crate::text::str_eq;

verus! {

/// Whether a process name is one of the shells the tracker looks
/// through.
pub open spec fn shell_name(s: Seq<char>) -> bool {
    s == "bash"@ || s == "zsh"@ || s == "sh"@
}

/// Tests whether a process name is a shell.
pub fn is_shell(name: &str) -> (r: bool)
    ensures
        r == shell_name(name@),
{
    str_eq(name, "bash") || str_eq(name, "zsh") || str_eq(name, "sh")
}

/// The name a terminal session displays, given its tracked process and
/// the most relevant child of that process.
///
/// A vanished process falls back to `bash`; a shell with a non-shell
/// child shows the child; anything else shows itself.
pub open spec fn display_name_spec(process: Option<Seq<char>>, child: Option<Seq<char>>) -> Seq<
    char,
> {
    match process {
        None => "bash"@,
        Some(name) => if shell_name(name) {
            match child {
                Some(c) => c,
                None => name,
            }
        } else {
            name
        },
    }
}

/// Decides the name a terminal session displays.
pub fn terminal_display_name(process: Option<String>, child: Option<String>) -> (r: String)
    ensures
        r@ == display_name_spec(
            match process {
                Some(p) => Some(p@),
                None => None,
            },
            match child {
                Some(c) => Some(c@),
                None => None,
            },
        ),
{
    match process {
        None => String::from_str("bash"),
        Some(name) => {
            if is_shell(name.as_str()) {
                match child {
                    Some(c) => c,
                    None => name,
                }
            } else {
                name
            }
        },
    }
}

} // verus!
