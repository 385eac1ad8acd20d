//! What can keep a run from starting.
use crate::text::{a_sum_is_framed, framed};
use vstd::prelude::*;
use vstd::string::*;

verus! {

/// What can keep a run from starting.
#[derive(Debug, PartialEq, Eq)]
pub enum PreciousError {
    NoModeOrPathsInCliArgs,
    ConfigFileHasNoParent { file: String },
    CannotFindRoot { cwd: String },
    NoCommands { what: String },
    NoCommandsMatch { what: String, name: String },
}

/// What a `PreciousError` says.
pub enum Problem {
    NoModeOrPathsInCliArgs,
    ConfigFileHasNoParent { file: Seq<char> },
    CannotFindRoot { cwd: Seq<char> },
    NoCommands { what: Seq<char> },
    NoCommandsMatch { what: Seq<char>, name: Seq<char> },
}

impl View for PreciousError {
    type V = Problem;

    open spec fn view(&self) -> Problem {
        match *self {
            PreciousError::NoModeOrPathsInCliArgs => Problem::NoModeOrPathsInCliArgs,
            PreciousError::ConfigFileHasNoParent { file } => Problem::ConfigFileHasNoParent {
                file: file@,
            },
            PreciousError::CannotFindRoot { cwd } => Problem::CannotFindRoot { cwd: cwd@ },
            PreciousError::NoCommands { what } => Problem::NoCommands { what: what@ },
            PreciousError::NoCommandsMatch { what, name } => Problem::NoCommandsMatch {
                what: what@,
                name: name@,
            },
        }
    }
}

/// The words in which a problem is told.
pub open spec fn wording(problem: Problem) -> Seq<char> {
    match problem {
        Problem::NoModeOrPathsInCliArgs => {
            "No mode or paths were provided in the command line args"@
        },
        Problem::ConfigFileHasNoParent { file } => {
            "The path given in --config, "@ + file + ", has no parent directory"@
        },
        Problem::CannotFindRoot { cwd } => {
            "Could not find a VCS checkout root starting from "@ + cwd
        },
        Problem::NoCommands { what } => "No "@ + what + " commands defined in your config"@,
        Problem::NoCommandsMatch { what, name } => {
            "No "@ + what + " commands match the given command name, "@ + name
        },
    }
}

impl PreciousError {
    /// The words in which the error is told.
    pub fn message(&self) -> (res: String)
        ensures
            res@ == wording(self@),
    {
        match self {
            PreciousError::NoModeOrPathsInCliArgs => {
                "No mode or paths were provided in the command line args".to_string()
            },
            PreciousError::ConfigFileHasNoParent { file } => {
                "The path given in --config, ".to_string().concat(file.as_str()).concat(
                    ", has no parent directory",
                )
            },
            PreciousError::CannotFindRoot { cwd } => {
                "Could not find a VCS checkout root starting from ".to_string().concat(cwd.as_str())
            },
            PreciousError::NoCommands { what } => {
                "No ".to_string().concat(what.as_str()).concat(" commands defined in your config")
            },
            PreciousError::NoCommandsMatch { what, name } => {
                "No ".to_string().concat(what.as_str()).concat(
                    " commands match the given command name, ",
                ).concat(name.as_str())
            },
        }
    }
}

/// Each problem is told in words of its own, with what it is about in its
/// place.
pub proof fn a_problem_is_told_with_its_details(text: Seq<char>, name: Seq<char>)
    ensures
        wording(Problem::NoModeOrPathsInCliArgs)
            == "No mode or paths were provided in the command line args"@,
        framed(
            wording(Problem::ConfigFileHasNoParent { file: text }),
            "The path given in --config, "@,
            text,
            ", has no parent directory"@,
        ),
        framed(
            wording(Problem::CannotFindRoot { cwd: text }),
            "Could not find a VCS checkout root starting from "@,
            text,
            Seq::empty(),
        ),
        framed(
            wording(Problem::NoCommands { what: text }),
            "No "@,
            text,
            " commands defined in your config"@,
        ),
        framed(
            wording(Problem::NoCommandsMatch { what: text, name }),
            "No "@ + text,
            " commands match the given command name, "@,
            name,
        ),
{
    a_sum_is_framed("The path given in --config, "@, text, ", has no parent directory"@);
    let root = "Could not find a VCS checkout root starting from "@;
    assert(root + text + Seq::empty() =~= wording(Problem::CannotFindRoot { cwd: text }));
    a_sum_is_framed(root, text, Seq::empty());
    a_sum_is_framed("No "@, text, " commands defined in your config"@);
    a_sum_is_framed("No "@ + text, " commands match the given command name, "@, name);
}

/// An error is read variant by variant, each with its texts.
pub proof fn an_error_is_read_variant_by_variant(e: PreciousError)
    ensures
        match e {
            PreciousError::NoModeOrPathsInCliArgs => e@ == Problem::NoModeOrPathsInCliArgs,
            PreciousError::ConfigFileHasNoParent { file } => e@
                == (Problem::ConfigFileHasNoParent { file: file@ }),
            PreciousError::CannotFindRoot { cwd } => e@ == (Problem::CannotFindRoot { cwd: cwd@ }),
            PreciousError::NoCommands { what } => e@ == (Problem::NoCommands { what: what@ }),
            PreciousError::NoCommandsMatch { what, name } => e@ == (Problem::NoCommandsMatch {
                what: what@,
                name: name@,
            }),
        },
{
}

} // verus!
