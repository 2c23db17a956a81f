//! Which program a local shell runs.

use vstd::prelude::*;
use vstd::string::*;

verus! {

/// The program of a local shell: the one asked for, else the user's shell, else
/// `/bin/sh`.
pub open spec fn shell_of(program: Option<Seq<char>>, user_shell: Option<Seq<char>>) -> Seq<char> {
    match program {
        Some(p) => p,
        None => match user_shell {
            Some(s) => s,
            None => "/bin/sh"@,
        },
    }
}

/// The characters of a string that may be absent.
pub open spec fn chars_of_option(s: Option<&str>) -> Option<Seq<char>> {
    match s {
        Some(t) => Some(t@),
        None => None,
    }
}

/// The program to spawn in a new PTY. `user_shell` is what the environment names
/// as the user's shell.
pub fn choose_shell(program: Option<&str>, user_shell: Option<&str>) -> (r: String)
    ensures
        r@ == shell_of(chars_of_option(program), chars_of_option(user_shell)),
{
    match program {
        Some(p) => p.to_string(),
        None => match user_shell {
            Some(s) => s.to_string(),
            None => "/bin/sh".to_string(),
        },
    }
}

/// The program that is asked for comes before the user's shell, and that before
/// `/bin/sh`.
pub proof fn law_choice_of_the_shell(program: Seq<char>, user_shell: Option<Seq<char>>)
    ensures
        shell_of(Some(program), user_shell) == program,
        shell_of(None, Some(program)) == program,
        shell_of(None, None) == "/bin/sh"@,
{
}

} // verus!
