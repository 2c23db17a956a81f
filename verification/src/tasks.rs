//! Developer tasks: which cargo invocation each one is.

use vstd::prelude::*;
use vstd::string::*;

use crate::text::text_eq;

verus! {

/// What is shown for a task that is not known.
pub const HELP: &'static str = "tasks: build | build-release | test | fmt | lint | run-cli";

/// The cargo arguments of a task, or `None` where there is no such task.
pub open spec fn arguments_of(task: Seq<char>) -> Option<Seq<Seq<char>>> {
    if task == "build"@ {
        Some(seq!["build"@, "--workspace"@])
    } else if task == "build-release"@ {
        Some(seq!["build"@, "--workspace"@, "--release"@])
    } else if task == "test"@ {
        Some(seq!["test"@, "--workspace"@])
    } else if task == "fmt"@ {
        Some(seq!["fmt"@, "--all"@])
    } else if task == "lint"@ {
        Some(seq!["clippy"@, "--workspace"@, "--all-targets"@])
    } else if task == "run-cli"@ {
        Some(seq!["run"@, "-p"@, "rrs-cli"@, "--"@, "check"@])
    } else {
        None
    }
}

/// Strings as characters.
pub open spec fn texts(strings: Seq<&'static str>) -> Seq<Seq<char>> {
    Seq::new(strings.len(), |i: int| strings[i]@)
}

/// The cargo arguments of a task, or `None` where there is no such task.
pub fn cargo_args(task: &str) -> (r: Option<Vec<&'static str>>)
    ensures
        match r {
            Some(args) => arguments_of(task@) == Some(texts(args@)),
            None => arguments_of(task@) is None,
        },
{
    let args: Vec<&'static str> = if text_eq(task, "build") {
        vec!["build", "--workspace"]
    } else if text_eq(task, "build-release") {
        vec!["build", "--workspace", "--release"]
    } else if text_eq(task, "test") {
        vec!["test", "--workspace"]
    } else if text_eq(task, "fmt") {
        vec!["fmt", "--all"]
    } else if text_eq(task, "lint") {
        vec!["clippy", "--workspace", "--all-targets"]
    } else if text_eq(task, "run-cli") {
        vec!["run", "-p", "rrs-cli", "--", "check"]
    } else {
        return None;
    };
    assert(texts(args@) =~= arguments_of(task@)->0);
    Some(args)
}

/// Each task is the cargo invocation that its name says, and there are no others.
pub proof fn law_tasks(task: Seq<char>)
    ensures
        task == "build"@ ==> arguments_of(task) == Some(seq!["build"@, "--workspace"@]),
        task == "build-release"@ ==> arguments_of(task) == Some(seq!["build"@, "--workspace"@, "--release"@]),
        task == "test"@ ==> arguments_of(task) == Some(seq!["test"@, "--workspace"@]),
        task == "fmt"@ ==> arguments_of(task) == Some(seq!["fmt"@, "--all"@]),
        task == "lint"@ ==> arguments_of(task) == Some(seq!["clippy"@, "--workspace"@, "--all-targets"@]),
        task == "run-cli"@ ==> arguments_of(task) == Some(seq!["run"@, "-p"@, "rrs-cli"@, "--"@, "check"@]),
        task != "build"@ && task != "build-release"@ && task != "test"@ && task != "fmt"@ && task != "lint"@ && task != "run-cli"@ ==> arguments_of(task) is None,
{
    reveal_strlit("build");
    reveal_strlit("build-release");
    reveal_strlit("test");
    reveal_strlit("fmt");
    reveal_strlit("lint");
    reveal_strlit("run-cli");
    assert("build"@.len() == 5 && "build-release"@.len() == 13 && "test"@.len() == 4);
    assert("fmt"@.len() == 3 && "lint"@.len() == 4 && "run-cli"@.len() == 7);
    assert("test"@[0] == 't' && "lint"@[0] == 'l');
}

} // verus!
