//! A run from its first decision to its last.
use crate::cli::Mode;
use crate::error::{PreciousError, Problem};
use crate::exit::{
    an_ending_follows_from_its_failures, an_exit_is_read_field_by_field, ending, entry,
    every_failure_is_listed, failures_of, no_files_ending, ActionFailure, Ending, Exit, Failure,
};
use crate::precious::Precious;
use crate::report::{
    a_set_failed_if_and_only_if_there_is_a_failure, copied_texts, failed, linter_told, set_failed,
    tidier_told, Command, LintOutcome, TidyOutcome,
};
use crate::text::{
    a_list_of_strings_is_read_one_by_one, mentions, mentions_are_passed_on, stands_at, texts,
};
use vstd::prelude::*;
use vstd::string::*;

verus! {

/// What the commands of a run are to do.
#[derive(Clone, Copy, Debug, PartialEq, Eq, Structural)]
pub enum Action {
    Tidy,
    Lint,
}

/// A run that is looking for files.
#[derive(Debug, PartialEq, Eq)]
pub struct Search {
    pub action: Action,
    /// How many commands there are.
    pub commands: usize,
    /// The paths to start from, as text; none where the mode selects the files.
    pub cli_paths: Vec<String>,
}

/// A run that is at one of its commands.
#[derive(Debug, PartialEq, Eq)]
pub struct Run {
    pub action: Action,
    /// How many commands there are.
    pub commands: usize,
    /// The place of the command to execute.
    pub index: usize,
    /// The failures of the commands before it.
    pub failures: Vec<ActionFailure>,
}

/// What a run does next.
#[derive(Debug, PartialEq, Eq)]
pub enum Step {
    /// Execute the command that the run is at.
    Execute(Run),
    /// End, with the exit to take or the error that stopped the run.
    Finish(Result<Exit, String>),
}

/// What a `Run` says.
#[verifier::ext_equal]
pub struct Stage {
    pub action: Action,
    pub commands: nat,
    pub index: nat,
    pub failures: Seq<Failure>,
}

/// What a `Step` says.
#[verifier::ext_equal]
pub enum Next {
    Execute(Stage),
    Finish(Result<Ending, Seq<char>>),
}

/// What comes of a command: its failures, or the error that kept it from
/// running.
pub type Outcome = Result<Seq<Failure>, Seq<char>>;

/// The last words of a run, and its status.
#[derive(Debug, PartialEq, Eq)]
pub struct Farewell {
    /// What to print.
    pub printed: String,
    /// What to log as an error, if anything.
    pub logged: Option<String>,
    pub status: i8,
}

impl View for Run {
    type V = Stage;

    open spec fn view(&self) -> Stage {
        Stage {
            action: self.action,
            commands: self.commands as nat,
            index: self.index as nat,
            failures: failures_of(self.failures@),
        }
    }
}

/// What the end of a run says.
pub open spec fn end_of(result: Result<Exit, String>) -> Result<Ending, Seq<char>> {
    match result {
        Ok(exit) => Ok(exit@),
        Err(e) => Err(e@),
    }
}

impl View for Step {
    type V = Next;

    open spec fn view(&self) -> Next {
        match *self {
            Step::Execute(run) => Next::Execute(run@),
            Step::Finish(result) => Next::Finish(end_of(result)),
        }
    }
}

/// What comes of a command, by what running it returned.
pub open spec fn outcome_of(outcome: Result<Option<Vec<ActionFailure>>, String>) -> Outcome {
    match outcome {
        Ok(Some(list)) => Ok(failures_of(list@)),
        Ok(None) => Ok(Seq::empty()),
        Err(e) => Err(e@),
    }
}

/// The name of an action, as it stands in a sentence.
pub open spec fn action_name(action: Action) -> Seq<char> {
    match action {
        Action::Tidy => "tidying"@,
        Action::Lint => "linting"@,
    }
}

impl Stage {
    /// There is a command to execute.
    pub open spec fn wf(self) -> bool {
        self.index < self.commands
    }
}

/// What a run with `commands` commands does once the search for files has
/// ended: stop at an error, end where there are no files, and otherwise
/// execute the first command.
pub open spec fn after_search(
    action: Action,
    commands: nat,
    found: Result<bool, Seq<char>>,
) -> Next {
    match found {
        Err(e) => Next::Finish(Err(e)),
        Ok(false) => Next::Finish(Ok(no_files_ending())),
        Ok(true) => Next::Execute(Stage { action, commands, index: 0, failures: Seq::empty() }),
    }
}

/// What a run does once the command it was at has come to `outcome`: stop at
/// an error, and otherwise go on to the next command, or end behind the last.
pub open spec fn after_command(bullet: Seq<char>, stage: Stage, outcome: Outcome) -> Next {
    match outcome {
        Err(e) => Next::Finish(Err(e)),
        Ok(failures) => if stage.index + 1 < stage.commands {
            Next::Execute(
                Stage { index: stage.index + 1, failures: stage.failures + failures, ..stage },
            )
        } else {
            Next::Finish(
                Ok(ending(bullet, action_name(stage.action), stage.failures + failures)),
            )
        },
    }
}

/// The paths to start the search from: those of the command line, if the mode
/// is to take them.
pub open spec fn starting_paths(p: Precious) -> Seq<Seq<char>> {
    if p.mode == Mode::FromCli {
        texts(p.paths@)
    } else {
        Seq::empty()
    }
}

/// The status with which a run ends.
pub open spec fn final_status(end: Result<Ending, Seq<char>>) -> i8 {
    match end {
        Ok(ending) => ending.status,
        Err(_) => 1,
    }
}

/// What is printed at the end of a run: the error as it is, then the message
/// on a line of its own.
pub open spec fn final_words(empty: Seq<char>, end: Result<Ending, Seq<char>>) -> Seq<char> {
    match end {
        Ok(ending) => {
            let error = match ending.error {
                Some(error) => error,
                None => Seq::empty(),
            };
            match ending.message {
                Some(message) => error + empty + " "@ + message + "\n"@,
                None => error,
            }
        },
        Err(_) => Seq::empty(),
    }
}

impl Action {
    /// The name of the action, as it stands in a sentence.
    pub fn name(&self) -> (res: &'static str)
        ensures
            res@ == action_name(*self),
    {
        match self {
            Action::Tidy => "tidying",
            Action::Lint => "linting",
        }
    }

    /// The name of the action, as it opens a sentence.
    pub fn title(&self) -> (res: &'static str)
        ensures
            res@ == match *self {
                Action::Tidy => "Tidying"@,
                Action::Lint => "Linting"@,
            },
    {
        match self {
            Action::Tidy => "Tidying",
            Action::Lint => "Linting",
        }
    }
}

impl Precious {
    /// The line that opens a run of tidiers; `mode` says what it works on.
    pub fn tidy(&self, mode: &str) -> (res: String)
        ensures
            res@ == self.chars.ring@ + " Tidying "@ + mode@,
    {
        self.chars.ring.to_string().concat(" Tidying ").concat(mode)
    }

    /// The line that opens a run of linters; `mode` says what it works on.
    pub fn lint(&self, mode: &str) -> (res: String)
        ensures
            res@ == self.chars.ring@ + " Linting "@ + mode@,
    {
        self.chars.ring.to_string().concat(" Linting ").concat(mode)
    }

    /// What the run is to do, and the line that opens it.
    pub fn run_subcommand(&self, mode: &str) -> (res: (Action, String))
        ensures
            self.should_lint ==> res.0 == Action::Lint && res.1@ == self.chars.ring@ + " Linting "@
                + mode@,
            !self.should_lint ==> res.0 == Action::Tidy && res.1@ == self.chars.ring@
                + " Tidying "@ + mode@,
    {
        if self.should_lint {
            (Action::Lint, self.lint(mode))
        } else {
            (Action::Tidy, self.tidy(mode))
        }
    }

    /// Starts a run of `commands` commands.
    pub fn run_all_commands(&self, action: Action, commands: usize) -> (res: Result<
        Search,
        PreciousError,
    >)
        ensures
            match res {
                Ok(search) => {
                    &&& commands > 0
                    &&& search.action == action
                    &&& search.commands == commands
                    &&& texts(search.cli_paths@) == starting_paths(*self)
                    &&& search.cli_paths@.len() == if self.mode == Mode::FromCli {
                        self.paths@.len()
                    } else {
                        0
                    }
                    &&& forall|i: int|
                        0 <= i < search.cli_paths@.len() ==> (#[trigger] search.cli_paths@[i])@
                            == self.paths@[i]@
                },
                Err(e) => {
                    &&& commands == 0
                    &&& e@ == match self.command {
                        Some(name) => Problem::NoCommandsMatch {
                            what: action_name(action),
                            name: name@,
                        },
                        None => Problem::NoCommands { what: action_name(action) },
                    }
                },
            },
    {
        if commands == 0 {
            if let Some(c) = &self.command {
                return Err(
                    PreciousError::NoCommandsMatch {
                        what: action.name().to_string(),
                        name: c.clone(),
                    },
                );
            }
            return Err(PreciousError::NoCommands { what: action.name().to_string() });
        }
        let cli_paths: Vec<String> = match self.mode {
            Mode::FromCli => copied_texts(&self.paths),
            _ => Vec::new(),
        };
        proof {
            assert(texts(cli_paths@) =~= starting_paths(*self));
            a_list_of_strings_is_read_one_by_one(cli_paths@);
            a_list_of_strings_is_read_one_by_one(self.paths@);
            assert forall|i: int| 0 <= i < cli_paths@.len() implies (#[trigger] cli_paths@[i])@
                == self.paths@[i]@ by {
                assert(texts(cli_paths@)[i] == texts(self.paths@)[i]);
            }
        }
        Ok(Search { action, commands, cli_paths })
    }

    /// Ends a run.
    pub fn run(&self, result: Result<Exit, String>) -> (res: Farewell)
        ensures
            res.status == final_status(end_of(result)),
            res.printed@ == final_words(self.chars.empty@, end_of(result)),
            match result {
                Ok(exit) => {
                    &&& res.logged is None
                    &&& res.status == exit.status
                    &&& exit.error is Some ==> exit.error->0@.is_prefix_of(res.printed@)
                    &&& exit.message is Some ==> (self.chars.empty@ + " "@ + exit.message->0@
                        + "\n"@).is_suffix_of(res.printed@)
                    &&& exit.error is None && exit.message is None ==> res.printed@.len() == 0
                },
                Err(e) => {
                    &&& res.logged is Some
                    &&& res.logged->0@ == "Failed to run precious: "@ + e@
                    &&& res.status == 1
                    &&& res.printed@.len() == 0
                },
            },
    {
        match result {
            Ok(e) => {
                proof {
                    the_last_words_tell_error_and_message(self.chars.empty@, e@);
                    an_exit_is_read_field_by_field(e);
                }
                let mut printed: String = String::new();
                if let Some(err) = e.error {
                    printed = err;
                }
                if let Some(msg) = e.message {
                    printed = printed.concat(self.chars.empty).concat(" ").concat(
                        msg.as_str(),
                    ).concat("\n");
                }
                Farewell { printed, logged: None, status: e.status }
            },
            Err(e) => Farewell {
                printed: String::new(),
                logged: Some("Failed to run precious: ".to_string().concat(e.as_str())),
                status: 1,
            },
        }
    }
}

impl Search {
    /// What the run does once the search has ended: it found files, found none
    /// or failed.
    pub fn found(self, p: &Precious, found: Result<bool, String>) -> (res: Step)
        ensures
            res@ == after_search(
                self.action,
                self.commands as nat,
                match found {
                    Ok(any) => Ok(any),
                    Err(e) => Err(e@),
                },
            ),
            found is Err ==> res == Step::Finish(Err::<Exit, String>(found->Err_0)),
            found is Ok ==> (res is Execute <==> found->Ok_0),
            res matches Step::Execute(run) ==> {
                &&& run.action == self.action
                &&& run.commands == self.commands
                &&& run.index == 0
                &&& run.failures@.len() == 0
            },
    {
        match found {
            Err(e) => Step::Finish(Err(e)),
            Ok(false) => Step::Finish(Ok(p.no_files_exit())),
            Ok(true) => {
                let run: Run = Run {
                    action: self.action,
                    commands: self.commands,
                    index: 0,
                    failures: Vec::new(),
                };
                assert(run@.failures =~= Seq::empty());
                Step::Execute(run)
            },
        }
    }
}

impl Run {
    /// What the run does once the command it was at has been executed: it ran,
    /// with the failures it had, or could not be run.
    pub fn executed(
        self,
        p: &Precious,
        outcome: Result<Option<Vec<ActionFailure>>, String>,
    ) -> (res: Step)
        requires
            self@.wf(),
        ensures
            res@ == after_command(p.chars.bullet@, self@, outcome_of(outcome)),
            res matches Step::Execute(run) ==> run@.wf(),
            outcome is Err ==> res == Step::Finish(Err::<Exit, String>(outcome->Err_0)),
            outcome is Ok ==> (res is Execute <==> self.index + 1 < self.commands),
            res matches Step::Execute(run) ==> {
                &&& run.action == self.action
                &&& run.commands == self.commands
                &&& run.index == self.index + 1
                &&& run.failures@ == self.failures@ + match outcome->Ok_0 {
                    Some(list) => list@,
                    None => Seq::empty(),
                }
            },
            res matches Step::Finish(end) ==> (end is Ok <==> outcome is Ok),
    {
        let mut failures: Vec<ActionFailure> = self.failures;
        let ghost before = self@.failures;
        let ghost added = outcome_of(outcome);
        match outcome {
            Err(e) => {
                return Step::Finish(Err(e));
            },
            Ok(Some(list)) => {
                let mut list: Vec<ActionFailure> = list;
                failures.append(&mut list);
            },
            Ok(None) => {},
        }
        assert(failures_of(failures@) =~= before + added->Ok_0);
        if self.index + 1 < self.commands {
            Step::Execute(
                Run {
                    action: self.action,
                    commands: self.commands,
                    index: self.index + 1,
                    failures,
                },
            )
        } else {
            Step::Finish(Ok(p.make_exit(failures, self.action.name())))
        }
    }
}

/// Where a run gets from `next` on when its commands come to `outcomes`, one
/// after the other; a run that has ended stays where it is.
pub open spec fn driven(bullet: Seq<char>, next: Next, outcomes: Seq<Outcome>) -> Next
    decreases outcomes.len(),
{
    if outcomes.len() == 0 {
        next
    } else {
        match driven(bullet, next, outcomes.drop_last()) {
            Next::Execute(stage) => after_command(bullet, stage, outcomes.last()),
            Next::Finish(end) => Next::Finish(end),
        }
    }
}

/// The failures of all outcomes, in their order.
pub open spec fn gathered(outcomes: Seq<Outcome>) -> Seq<Failure>
    decreases outcomes.len(),
{
    if outcomes.len() == 0 {
        Seq::empty()
    } else {
        match outcomes.last() {
            Ok(failures) => gathered(outcomes.drop_last()) + failures,
            Err(_) => gathered(outcomes.drop_last()),
        }
    }
}

/// No command of a run that came to `outcomes` was kept from running.
pub open spec fn all_ran(outcomes: Seq<Outcome>) -> bool {
    forall|i: int| 0 <= i < outcomes.len() ==> #[trigger] outcomes[i] is Ok
}

/// The commands are executed in their order, each once: as long as none was
/// kept from running, the run is at the command behind those that came to an
/// outcome, with all their failures.
pub proof fn commands_are_executed_in_order(
    bullet: Seq<char>,
    action: Action,
    commands: nat,
    outcomes: Seq<Outcome>,
)
    requires
        outcomes.len() < commands,
        all_ran(outcomes),
    ensures
        driven(bullet, after_search(action, commands, Ok(true)), outcomes) == Next::Execute(
            Stage { action, commands, index: outcomes.len(), failures: gathered(outcomes) },
        ),
    decreases outcomes.len(),
{
    if outcomes.len() > 0 {
        let before = outcomes.drop_last();
        assert forall|i: int| 0 <= i < before.len() implies #[trigger] before[i] is Ok by {
            assert(before[i] == outcomes[i]);
        }
        commands_are_executed_in_order(bullet, action, commands, before);
        assert(outcomes.last() is Ok);
    }
}

/// A run none of whose commands was kept from running ends behind the last of
/// them, with the failures of all of them in their order.
pub proof fn a_complete_run_tells_all_failures(
    bullet: Seq<char>,
    action: Action,
    outcomes: Seq<Outcome>,
)
    requires
        outcomes.len() > 0,
        all_ran(outcomes),
    ensures
        driven(bullet, after_search(action, outcomes.len(), Ok(true)), outcomes) == Next::Finish(
            Ok::<_, Seq<char>>(ending(bullet, action_name(action), gathered(outcomes))),
        ),
{
    let before = outcomes.drop_last();
    assert forall|i: int| 0 <= i < before.len() implies #[trigger] before[i] is Ok by {
        assert(before[i] == outcomes[i]);
    }
    commands_are_executed_in_order(bullet, action, outcomes.len(), before);
    assert(outcomes.last() is Ok);
}

/// The first command that is kept from running stops the run with its error,
/// whatever would have come behind it.
pub proof fn an_error_stops_the_run(
    bullet: Seq<char>,
    action: Action,
    commands: nat,
    outcomes: Seq<Outcome>,
    k: int,
)
    requires
        0 <= k < outcomes.len(),
        k < commands,
        all_ran(outcomes.take(k)),
        outcomes[k] is Err,
    ensures
        driven(bullet, after_search(action, commands, Ok(true)), outcomes) == Next::Finish(
            Err::<Ending, _>(outcomes[k]->Err_0),
        ),
    decreases outcomes.len(),
{
    let before = outcomes.drop_last();
    if k == outcomes.len() - 1 {
        assert(before =~= outcomes.take(k));
        commands_are_executed_in_order(bullet, action, commands, before);
    } else {
        assert(before.take(k) =~= outcomes.take(k));
        an_error_stops_the_run(bullet, action, commands, before, k);
    }
}

/// A command ran and had no failure.
pub open spec fn succeeded(outcome: Outcome) -> bool {
    outcome is Ok && outcome->Ok_0.len() == 0
}

/// Where all commands ran, no failure is gathered if and only if all of them
/// succeeded.
proof fn gathered_nothing(outcomes: Seq<Outcome>)
    requires
        all_ran(outcomes),
    ensures
        gathered(outcomes).len() == 0 <==> forall|i: int|
            0 <= i < outcomes.len() ==> succeeded(#[trigger] outcomes[i]),
    decreases outcomes.len(),
{
    if outcomes.len() > 0 {
        let before = outcomes.drop_last();
        assert forall|i: int| 0 <= i < before.len() implies #[trigger] before[i] is Ok by {
            assert(before[i] == outcomes[i]);
        }
        gathered_nothing(before);
        assert(outcomes.last() is Ok);
        assert(forall|i: int| 0 <= i < before.len() ==> #[trigger] before[i] == outcomes[i]);
        if gathered(outcomes).len() == 0 {
            assert forall|i: int| 0 <= i < outcomes.len() implies succeeded(
                #[trigger] outcomes[i],
            ) by {
                if i < before.len() {
                    assert(succeeded(before[i]));
                }
            }
        } else if gathered(before).len() > 0 {
            let i = choose|i: int| 0 <= i < before.len() && !succeeded(#[trigger] before[i]);
            assert(!succeeded(outcomes[i]));
        } else {
            assert(!succeeded(outcomes[outcomes.len() - 1]));
        }
    }
}

/// The place of the first outcome that is an error.
proof fn first_error(outcomes: Seq<Outcome>) -> (k: int)
    requires
        !all_ran(outcomes),
    ensures
        0 <= k < outcomes.len(),
        outcomes[k] is Err,
        all_ran(outcomes.take(k)),
    decreases outcomes.len(),
{
    let before = outcomes.drop_last();
    if all_ran(before) {
        assert(before =~= outcomes.take(outcomes.len() - 1));
        assert forall|i: int| 0 <= i < outcomes.len() - 1 implies #[trigger] outcomes[i] is Ok by {
            assert(before[i] is Ok);
        }
        outcomes.len() - 1
    } else {
        let k = first_error(before);
        assert(before.take(k) =~= outcomes.take(k));
        k
    }
}

/// A run whose commands come to `outcomes` ends behind the last of them, or
/// before. Its status is 0 where every command ran and had no failure, and 1
/// otherwise.
pub proof fn status_tells_success(bullet: Seq<char>, action: Action, outcomes: Seq<Outcome>)
    requires
        outcomes.len() > 0,
    ensures
        ({
            let last = driven(bullet, after_search(action, outcomes.len(), Ok(true)), outcomes);
            &&& last is Finish
            &&& final_status(last->Finish_0) == if forall|i: int|
                0 <= i < outcomes.len() ==> succeeded(#[trigger] outcomes[i]) {
                0i8
            } else {
                1i8
            }
        }),
{
    if all_ran(outcomes) {
        a_complete_run_tells_all_failures(bullet, action, outcomes);
        gathered_nothing(outcomes);
    } else {
        let k = first_error(outcomes);
        an_error_stops_the_run(bullet, action, outcomes.len(), outcomes, k);
        assert(!succeeded(outcomes[k]));
    }
}

/// What is kept of the linter `l`, run on each of the `sets`.
pub open spec fn linted(
    p: Precious,
    l: Command,
    sets: Seq<Seq<Seq<char>>>,
    lints: Seq<Result<Option<LintOutcome>, String>>,
    github_actions: Option<String>,
) -> Seq<Option<Result<(), Failure>>> {
    Seq::new(
        lints.len(),
        |j: int| linter_told(p, sets[j], l, lints[j], github_actions).result,
    )
}

/// What is kept of the tidier `t`, run on each of the `sets`.
pub open spec fn tidied(
    p: Precious,
    t: Command,
    sets: Seq<Seq<Seq<char>>>,
    tidies: Seq<Result<Option<TidyOutcome>, String>>,
) -> Seq<Option<Result<(), Failure>>> {
    Seq::new(tidies.len(), |j: int| tidier_told(p, sets[j], t, tidies[j]).result)
}

/// A linter found a problem in a set of files, or could not be run on it.
pub open spec fn lint_problem(lint: Result<Option<LintOutcome>, String>) -> bool {
    match lint {
        Ok(Some(lo)) => !lo.ok,
        Ok(None) => false,
        Err(_) => true,
    }
}

/// What comes of each of the linters.
pub open spec fn lint_outcomes(
    p: Precious,
    linters: Seq<Command>,
    sets: Seq<Seq<Seq<Seq<char>>>>,
    lints: Seq<Seq<Result<Option<LintOutcome>, String>>>,
    github_actions: Option<String>,
) -> Seq<Outcome> {
    Seq::new(
        linters.len(),
        |k: int| Ok(failed(linted(p, linters[k], sets[k], lints[k], github_actions))),
    )
}

/// What comes of each of the tidiers.
pub open spec fn tidy_outcomes(
    p: Precious,
    tidiers: Seq<Command>,
    sets: Seq<Seq<Seq<Seq<char>>>>,
    tidies: Seq<Seq<Result<Option<TidyOutcome>, String>>>,
) -> Seq<Outcome> {
    Seq::new(
        tidiers.len(),
        |k: int| Ok(failed(tidied(p, tidiers[k], sets[k], tidies[k]))),
    )
}

/// A run of linters ends with the status 1 where one of them found a problem in
/// a set of files or could not be run on it, and with the status 0 otherwise:
/// `lints[k][i]` is what the linter at `k` said of the set `sets[k][i]`.
pub proof fn status_of_linting(
    p: Precious,
    linters: Seq<Command>,
    sets: Seq<Seq<Seq<Seq<char>>>>,
    lints: Seq<Seq<Result<Option<LintOutcome>, String>>>,
    github_actions: Option<String>,
)
    requires
        linters.len() > 0,
        sets.len() == linters.len(),
        lints.len() == linters.len(),
        forall|k: int| 0 <= k < lints.len() ==> (#[trigger] lints[k]).len() == sets[k].len(),
    ensures
        ({
            let outcomes = lint_outcomes(p, linters, sets, lints, github_actions);
            let start = after_search(Action::Lint, linters.len(), Ok(true));
            let last = driven(p.chars.bullet@, start, outcomes);
            &&& last is Finish
            &&& final_status(last->Finish_0) == if exists|k: int, i: int|
                0 <= k < linters.len() && 0 <= i < lints[k].len() && lint_problem(
                    #[trigger] lints[k][i],
                ) {
                1i8
            } else {
                0i8
            }
        }),
{
    let outcomes = lint_outcomes(p, linters, sets, lints, github_actions);
    status_tells_success(p.chars.bullet@, Action::Lint, outcomes);
    assert forall|k: int| 0 <= k < linters.len() implies succeeded(#[trigger] outcomes[k]) == (
    forall|i: int| 0 <= i < lints[k].len() ==> !lint_problem(#[trigger] lints[k][i])) by {
        let results = linted(p, linters[k], sets[k], lints[k], github_actions);
        a_set_failed_if_and_only_if_there_is_a_failure(results);
        assert forall|i: int| 0 <= i < lints[k].len() implies lint_problem(
            #[trigger] lints[k][i],
        ) == set_failed(results[i]) by {}
        if forall|i: int| 0 <= i < lints[k].len() ==> !lint_problem(#[trigger] lints[k][i]) {
            assert forall|i: int| 0 <= i < results.len() implies !set_failed(
                #[trigger] results[i],
            ) by {
                assert(!lint_problem(lints[k][i]));
            }
        } else {
            let i = choose|i: int| 0 <= i < lints[k].len() && lint_problem(#[trigger] lints[k][i]);
            assert(set_failed(results[i]));
        }
    }
    if exists|k: int, i: int|
        0 <= k < linters.len() && 0 <= i < lints[k].len() && lint_problem(#[trigger] lints[k][i]) {
        let (k, i) = choose|k: int, i: int|
            0 <= k < linters.len() && 0 <= i < lints[k].len() && lint_problem(
                #[trigger] lints[k][i],
            );
        assert(!succeeded(outcomes[k]));
    }
}

/// A run of tidiers ends with the status 1 where one of them could not be run
/// on a set of files, and with the status 0 otherwise: `tidies[k][i]` is what
/// the tidier at `k` did to the set `sets[k][i]`.
pub proof fn status_of_tidying(
    p: Precious,
    tidiers: Seq<Command>,
    sets: Seq<Seq<Seq<Seq<char>>>>,
    tidies: Seq<Seq<Result<Option<TidyOutcome>, String>>>,
)
    requires
        tidiers.len() > 0,
        sets.len() == tidiers.len(),
        tidies.len() == tidiers.len(),
        forall|k: int| 0 <= k < tidies.len() ==> (#[trigger] tidies[k]).len() == sets[k].len(),
    ensures
        ({
            let outcomes = tidy_outcomes(p, tidiers, sets, tidies);
            let start = after_search(Action::Tidy, tidiers.len(), Ok(true));
            let last = driven(p.chars.bullet@, start, outcomes);
            &&& last is Finish
            &&& final_status(last->Finish_0) == if exists|k: int, i: int|
                0 <= k < tidiers.len() && 0 <= i < tidies[k].len() && (
                #[trigger] tidies[k][i]) is Err {
                1i8
            } else {
                0i8
            }
        }),
{
    let outcomes = tidy_outcomes(p, tidiers, sets, tidies);
    status_tells_success(p.chars.bullet@, Action::Tidy, outcomes);
    assert forall|k: int| 0 <= k < tidiers.len() implies succeeded(#[trigger] outcomes[k]) == (
    forall|i: int| 0 <= i < tidies[k].len() ==> (#[trigger] tidies[k][i]) is Ok) by {
        let results = tidied(p, tidiers[k], sets[k], tidies[k]);
        a_set_failed_if_and_only_if_there_is_a_failure(results);
        assert forall|i: int| 0 <= i < tidies[k].len() implies (#[trigger] tidies[k][i]) is Err
            == set_failed(results[i]) by {}
        if forall|i: int| 0 <= i < tidies[k].len() ==> (#[trigger] tidies[k][i]) is Ok {
            assert forall|i: int| 0 <= i < results.len() implies !set_failed(
                #[trigger] results[i],
            ) by {
                assert(tidies[k][i] is Ok);
            }
        } else {
            let i = choose|i: int| 0 <= i < tidies[k].len() && !((#[trigger] tidies[k][i]) is Ok);
            assert(set_failed(results[i]));
        }
    }
    if exists|k: int, i: int|
        0 <= k < tidiers.len() && 0 <= i < tidies[k].len() && (#[trigger] tidies[k][i]) is Err {
        let (k, i) = choose|k: int, i: int|
            0 <= k < tidiers.len() && 0 <= i < tidies[k].len() && (#[trigger] tidies[k][i]) is Err;
        assert(!succeeded(outcomes[k]));
    }
}

/// A run is read field by field, and so is a step.
pub proof fn a_step_is_read_field_by_field(step: Step)
    ensures
        match step {
            Step::Execute(run) => {
                &&& step@ is Execute
                &&& step@->Execute_0.action == run.action
                &&& step@->Execute_0.commands == run.commands
                &&& step@->Execute_0.index == run.index
                &&& step@->Execute_0.failures == failures_of(run.failures@)
            },
            Step::Finish(Ok(exit)) => step@ is Finish && step@->Finish_0 is Ok
                && step@->Finish_0->Ok_0 == exit@,
            Step::Finish(Err(e)) => step@ is Finish && step@->Finish_0 is Err
                && step@->Finish_0->Err_0 == e@,
        },
{
}

/// A command's outcome has the failures that it came with, none where it came
/// with no list, and the error where it could not run.
pub proof fn an_outcome_is_what_a_command_returned(
    outcome: Result<Option<Vec<ActionFailure>>, String>,
)
    ensures
        match outcome {
            Ok(Some(list)) => outcome_of(outcome) is Ok && outcome_of(outcome)->Ok_0 == failures_of(
                list@,
            ),
            Ok(None) => outcome_of(outcome) is Ok && outcome_of(outcome)->Ok_0.len() == 0,
            Err(e) => outcome_of(outcome) is Err && outcome_of(outcome)->Err_0 == e@,
        },
{
}

/// The two actions have their names.
pub proof fn actions_have_their_names()
    ensures
        action_name(Action::Tidy) == "tidying"@,
        action_name(Action::Lint) == "linting"@,
{
}

/// The search starts from all the paths of the command line where the mode is
/// to take them, and from none otherwise.
pub proof fn the_search_starts_from_the_named_paths(p: Precious)
    ensures
        p.mode == Mode::FromCli ==> starting_paths(p).len() == p.paths@.len() && forall|i: int|
            0 <= i < p.paths@.len() ==> #[trigger] starting_paths(p)[i] == p.paths@[i]@,
        p.mode != Mode::FromCli ==> starting_paths(p).len() == 0,
{
}

/// A search that failed or found nothing executes no command; the latter is no
/// failure. One that found files leads to the first command, with all of them
/// still to come and no failure yet.
pub proof fn a_search_leads_to_the_first_command(action: Action, commands: nat, e: Seq<char>)
    ensures
        after_search(action, commands, Err(e)) is Finish,
        after_search(action, commands, Err(e))->Finish_0 is Err,
        after_search(action, commands, Err(e))->Finish_0->Err_0 == e,
        after_search(action, commands, Ok(false)) is Finish,
        after_search(action, commands, Ok(false))->Finish_0 is Ok,
        after_search(action, commands, Ok(false))->Finish_0->Ok_0.status == 0,
        after_search(action, commands, Ok(false))->Finish_0->Ok_0.message == Some(
            "No files found"@,
        ),
        after_search(action, commands, Ok(false))->Finish_0->Ok_0.error is None,
        ({
            let first = after_search(action, commands, Ok(true));
            &&& first is Execute
            &&& first->Execute_0.action == action
            &&& first->Execute_0.commands == commands
            &&& first->Execute_0.index == 0
            &&& first->Execute_0.failures.len() == 0
        }),
{
}

/// A command that could not run ends the run with its error. One that ran
/// leads to the next, with its failures behind those of the commands before
/// it, or, where it was the last, to an ending that is good if and only if no
/// command had a failure and that lists every failure of each.
pub proof fn a_command_leads_to_the_next(bullet: Seq<char>, stage: Stage, outcome: Outcome)
    ensures
        ({
            let next = after_command(bullet, stage, outcome);
            match outcome {
                Err(e) => next is Finish && next->Finish_0 is Err && next->Finish_0->Err_0 == e,
                Ok(failures) => {
                    &&& next is Execute <==> stage.index + 1 < stage.commands
                    &&& next is Execute ==> {
                        let then = next->Execute_0;
                        &&& then.action == stage.action
                        &&& then.commands == stage.commands
                        &&& then.index == stage.index + 1
                        &&& then.failures.len() == stage.failures.len() + failures.len()
                        &&& stage.failures.is_prefix_of(then.failures)
                        &&& failures.is_suffix_of(then.failures)
                    }
                    &&& next is Finish ==> {
                        let end = next->Finish_0;
                        &&& end is Ok
                        &&& end->Ok_0.status == 0 <==> stage.failures.len() == 0 && failures.len()
                            == 0
                        &&& end->Ok_0.message is None
                        &&& forall|i: int|
                            0 <= i < stage.failures.len() ==> mentions(
                                end->Ok_0.error->0,
                                entry(bullet, #[trigger] stage.failures[i]),
                            )
                        &&& forall|i: int|
                            0 <= i < failures.len() ==> mentions(
                                end->Ok_0.error->0,
                                entry(bullet, #[trigger] failures[i]),
                            )
                    }
                },
            }
        }),
{
    if let Ok(failures) = outcome {
        let all = stage.failures + failures;
        let action = action_name(stage.action);
        assert(stage.failures =~= all.subrange(0, stage.failures.len() as int));
        assert(failures =~= all.subrange(all.len() - failures.len(), all.len() as int));
        an_ending_follows_from_its_failures(bullet, action, all);
        assert forall|i: int| 0 <= i < stage.failures.len() implies mentions(
            ending(bullet, action, all).error->0,
            entry(bullet, #[trigger] stage.failures[i]),
        ) by {
            assert(all[i] == stage.failures[i]);
            every_failure_is_listed(bullet, action, all, i);
        }
        assert forall|i: int| 0 <= i < failures.len() implies mentions(
            ending(bullet, action, all).error->0,
            entry(bullet, #[trigger] failures[i]),
        ) by {
            assert(all[stage.failures.len() + i] == failures[i]);
            every_failure_is_listed(bullet, action, all, stage.failures.len() + i);
        }
    }
}

/// A run that ended stays ended, whatever comes; and to come to outcomes one
/// list after the other is to come to both lists in one.
pub proof fn a_run_goes_on_where_it_was(
    bullet: Seq<char>,
    next: Next,
    first: Seq<Outcome>,
    second: Seq<Outcome>,
)
    ensures
        driven(bullet, next, first + second) == driven(
            bullet,
            driven(bullet, next, first),
            second,
        ),
        next is Finish ==> driven(bullet, next, first) == next,
    decreases first.len() + second.len(),
{
    if second.len() > 0 {
        a_run_goes_on_where_it_was(bullet, next, first, second.drop_last());
        assert((first + second).drop_last() =~= first + second.drop_last());
        assert((first + second).last() == second.last());
    } else {
        assert(first + second =~= first);
        if first.len() > 0 {
            a_run_goes_on_where_it_was(bullet, next, first.drop_last(), Seq::empty());
        }
    }
}

/// The failures of one command are gathered as they are, those of one that
/// could not run are none, and those of two lists of commands one behind the
/// other.
pub proof fn gathered_failures_add_up(
    first: Seq<Outcome>,
    second: Seq<Outcome>,
    failures: Seq<Failure>,
    e: Seq<char>,
)
    ensures
        gathered(Seq::empty()) == Seq::<Failure>::empty(),
        gathered(seq![Ok(failures)]) == failures,
        gathered(seq![Err(e)]) == Seq::<Failure>::empty(),
        gathered(first + second) == gathered(first) + gathered(second),
    decreases second.len(),
{
    let one: Seq<Outcome> = seq![Ok(failures)];
    let none: Seq<Outcome> = seq![Err(e)];
    assert(one.drop_last() =~= Seq::empty());
    assert(none.drop_last() =~= Seq::empty());
    assert(gathered(one.drop_last()) =~= Seq::empty());
    assert(gathered(one) =~= failures);
    assert(gathered(none) =~= Seq::empty());
    if second.len() == 0 {
        assert(first + second =~= first);
        assert(gathered(first) + gathered(second) =~= gathered(first));
    } else {
        gathered_failures_add_up(first, second.drop_last(), failures, e);
        assert((first + second).drop_last() =~= first + second.drop_last());
        assert((first + second).last() == second.last());
        assert(gathered(first + second) =~= gathered(first) + gathered(second));
    }
}

/// Every failure of a command is gathered.
pub proof fn no_failure_is_lost(outcomes: Seq<Outcome>, i: int, j: int)
    requires
        0 <= i < outcomes.len(),
        outcomes[i] is Ok,
        0 <= j < outcomes[i]->Ok_0.len(),
    ensures
        gathered(outcomes).contains(outcomes[i]->Ok_0[j]),
    decreases outcomes.len(),
{
    let f = outcomes[i]->Ok_0[j];
    let before = gathered(outcomes.drop_last());
    if i == outcomes.len() - 1 {
        assert(gathered(outcomes)[before.len() + j] == f);
    } else {
        no_failure_is_lost(outcomes.drop_last(), i, j);
        let k = choose|k: int| 0 <= k < before.len() && before[k] == f;
        assert(gathered(outcomes)[k] == f);
    }
}

/// At the end of a run the error, if any, is printed as it is, and the message,
/// if any, behind it on a line that opens with the symbol; each without regard
/// to the other, and nothing else is printed.
pub proof fn the_last_words_tell_error_and_message(empty: Seq<char>, end: Ending)
    ensures
        ({
            let words = final_words(empty, Ok(end));
            let error: nat = if end.error is Some {
                end.error->0.len()
            } else {
                0
            };
            let message: nat = if end.message is Some {
                (empty + " "@ + end.message->0 + "\n"@).len()
            } else {
                0
            };
            &&& end.error is Some ==> end.error->0.is_prefix_of(words)
            &&& end.message is Some ==> (empty + " "@ + end.message->0 + "\n"@).is_suffix_of(words)
            &&& words.len() == error + message
        }),
{
    let words = final_words(empty, Ok(end));
    if let Some(error) = end.error {
        assert(error =~= words.subrange(0, error.len() as int));
    }
    if let Some(message) = end.message {
        let line = empty + " "@ + message + "\n"@;
        assert(line =~= words.subrange(words.len() - line.len(), words.len() as int));
    }
}

/// A run that an error stopped prints nothing and fails; any other has the
/// status of its ending.
pub proof fn the_status_is_that_of_the_ending(empty: Seq<char>, end: Ending, e: Seq<char>)
    ensures
        final_status(Ok(end)) == end.status,
        final_status(Err(e)) == 1,
        final_words(empty, Err(e)).len() == 0,
{
}

/// A run that ends in failures prints the entry of each of them.
pub proof fn every_failure_is_printed(
    empty: Seq<char>,
    bullet: Seq<char>,
    action: Seq<char>,
    failures: Seq<Failure>,
    i: int,
)
    requires
        0 <= i < failures.len(),
    ensures
        mentions(
            final_words(empty, Ok(ending(bullet, action, failures))),
            entry(bullet, failures[i]),
        ),
{
    let end = ending(bullet, action, failures);
    let words = final_words(empty, Ok(end));
    let error = end.error->0;
    every_failure_is_listed(bullet, action, failures, i);
    the_last_words_tell_error_and_message(empty, end);
    assert(stands_at(words, error, 0));
    mentions_are_passed_on(words, error, entry(bullet, failures[i]));
}

/// A complete run prints every failure of every command.
pub proof fn a_run_prints_every_failure(
    empty: Seq<char>,
    bullet: Seq<char>,
    action: Action,
    outcomes: Seq<Outcome>,
    i: int,
    j: int,
)
    requires
        forall|k: int| 0 <= k < outcomes.len() ==> #[trigger] outcomes[k] is Ok,
        0 <= i < outcomes.len(),
        0 <= j < outcomes[i]->Ok_0.len(),
    ensures
        ({
            let last = driven(bullet, after_search(action, outcomes.len(), Ok(true)), outcomes);
            &&& last is Finish
            &&& final_status(last->Finish_0) == 1
            &&& mentions(
                final_words(empty, last->Finish_0),
                entry(bullet, outcomes[i]->Ok_0[j]),
            )
        }),
{
    let f = outcomes[i]->Ok_0[j];
    let all = gathered(outcomes);
    a_complete_run_tells_all_failures(bullet, action, outcomes);
    no_failure_is_lost(outcomes, i, j);
    let k = choose|k: int| 0 <= k < all.len() && all[k] == f;
    every_failure_is_printed(empty, bullet, action_name(action), all, k);
}

} // verus!
