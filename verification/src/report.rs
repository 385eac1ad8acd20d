//! What is told of a command that was run on a set of files, and what is kept
//! of it.
use crate::exit::{failures_of, ActionFailure, Failure};
use crate::precious::Precious;
use crate::text::{a_sum_is_framed, decimal, decimal_text, framed, join, joined, texts};
use vstd::prelude::*;
use vstd::string::*;

verus! {

/// A command of the config.
#[derive(Debug, PartialEq, Eq)]
pub struct Command {
    pub name: String,
    /// Its key in the config.
    pub config_key: String,
}

/// What a tidier did to a set of files.
#[derive(Clone, Copy, Debug, PartialEq, Eq, Structural)]
pub enum TidyOutcome {
    Changed,
    Unchanged,
    Unknown,
}

/// What a linter said of a set of files.
#[derive(Debug, PartialEq, Eq)]
pub struct LintOutcome {
    pub ok: bool,
    pub stdout: Option<String>,
    pub stderr: Option<String>,
}

/// What comes of a set of files: nothing where the command did not apply to
/// it, and otherwise success or a failure.
pub type SetResult = Option<Result<(), ActionFailure>>;

/// The lines to print, each on a line of its own, and what to keep.
#[derive(Debug, PartialEq, Eq)]
pub struct Report {
    pub lines: Vec<String>,
    pub result: SetResult,
}

/// What a `Report` says.
#[verifier::ext_equal]
pub struct Told {
    pub lines: Seq<Seq<char>>,
    pub result: Option<Result<(), Failure>>,
}

/// What a `SetResult` says.
pub open spec fn kept(result: SetResult) -> Option<Result<(), Failure>> {
    match result {
        None => None,
        Some(Ok(_)) => Some(Ok(())),
        Some(Err(f)) => Some(Err(f@)),
    }
}

impl View for Report {
    type V = Told;

    open spec fn view(&self) -> Told {
        Told { lines: texts(self.lines@), result: kept(self.result) }
    }
}

/// A symbol, what happened, the command, and the files behind `open`.
pub open spec fn line(
    symbol: Seq<char>,
    verb: Seq<char>,
    name: Seq<char>,
    open: Seq<char>,
    files: Seq<Seq<char>>,
) -> Seq<char> {
    symbol + verb + name + open + joined(files, " "@)
}

/// A line that may be suppressed.
pub open spec fn unless_quiet(quiet: bool, line: Seq<char>) -> Seq<Seq<char>> {
    if quiet {
        Seq::empty()
    } else {
        seq![line]
    }
}

/// An optional line.
pub open spec fn if_any(text: Option<String>) -> Seq<Seq<char>> {
    match text {
        Some(text) => seq![text@],
        None => Seq::empty(),
    }
}

/// The failure of a command on a set of files.
pub open spec fn failure(error: Seq<char>, c: Command, files: Seq<Seq<char>>) -> Failure {
    Failure { error, config_key: c.config_key@, paths: files }
}

/// What is told of a tidier, and kept of it, by its outcome.
pub open spec fn tidier_told(
    p: Precious,
    files: Seq<Seq<char>>,
    t: Command,
    outcome: Result<Option<TidyOutcome>, String>,
) -> Told {
    match outcome {
        Ok(Some(TidyOutcome::Changed)) => Told {
            lines: unless_quiet(
                p.quiet,
                line(p.chars.tidied@, " Tidied by "@, t.name@, ":    ["@, files) + "]"@,
            ),
            result: Some(Ok(())),
        },
        Ok(Some(TidyOutcome::Unchanged)) => Told {
            lines: unless_quiet(
                p.quiet,
                line(p.chars.unchanged@, " Unchanged by "@, t.name@, ": ["@, files) + "]"@,
            ),
            result: Some(Ok(())),
        },
        Ok(Some(TidyOutcome::Unknown)) => Told {
            lines: unless_quiet(
                p.quiet,
                line(p.chars.unknown@, " Maybe changed by "@, t.name@, ": ["@, files) + "]"@,
            ),
            result: Some(Ok(())),
        },
        Ok(None) => Told { lines: Seq::empty(), result: None },
        Err(e) => Told {
            lines: seq![
                line(p.chars.execution_error@, " Error from "@, t.name@, ": ["@, files) + "]"@,
            ],
            result: Some(Err(failure(e@, t, files))),
        },
    }
}

/// The line by which a failed linter is brought to the notice of a GitHub
/// workflow, where the run is part of one.
pub open spec fn workflow_notice(
    github_actions: Option<String>,
    files: Seq<Seq<char>>,
    name: Seq<char>,
) -> Seq<Seq<char>> {
    match github_actions {
        Some(value) => if value@.len() == 0 {
            Seq::empty()
        } else if files.len() == 1 {
            seq!["::error file="@ + files[0] + "::Linting with "@ + name + " failed"@]
        } else {
            seq!["::error::Linting with "@ + name + " failed"@]
        },
        None => Seq::empty(),
    }
}

/// What is told of a linter, and kept of it, by its outcome.
pub open spec fn linter_told(
    p: Precious,
    files: Seq<Seq<char>>,
    l: Command,
    outcome: Result<Option<LintOutcome>, String>,
    github_actions: Option<String>,
) -> Told {
    match outcome {
        Ok(Some(lo)) => if lo.ok {
            Told {
                lines: unless_quiet(
                    p.quiet,
                    line(p.chars.lint_free@, " Passed "@, l.name@, ": "@, files),
                ),
                result: Some(Ok(())),
            }
        } else {
            Told {
                lines: seq![line(p.chars.lint_dirty@, " Failed "@, l.name@, ": "@, files)] + if_any(
                    lo.stdout,
                ) + if_any(lo.stderr) + workflow_notice(github_actions, files, l.name@),
                result: Some(Err(failure("linting failed"@, l, files))),
            }
        },
        Ok(None) => Told { lines: Seq::empty(), result: None },
        Err(e) => Told {
            lines: seq![line(p.chars.execution_error@, " error "@, l.name@, ": "@, files)],
            result: Some(Err(failure(e@, l, files))),
        },
    }
}

/// The failures among the results, in their order.
pub open spec fn failed(results: Seq<Option<Result<(), Failure>>>) -> Seq<Failure>
    decreases results.len(),
{
    if results.len() == 0 {
        Seq::empty()
    } else {
        match results.last() {
            Some(Err(f)) => failed(results.drop_last()).push(f),
            _ => failed(results.drop_last()),
        }
    }
}

/// How many of the sets the command applied to.
pub open spec fn applied(results: Seq<Option<Result<(), Failure>>>) -> nat
    decreases results.len(),
{
    if results.len() == 0 {
        0
    } else if results.last() is Some {
        applied(results.drop_last()) + 1
    } else {
        applied(results.drop_last())
    }
}

/// What each result of a list says.
pub open spec fn all_kept(results: Seq<SetResult>) -> Seq<Option<Result<(), Failure>>> {
    results.map_values(|r: SetResult| kept(r))
}

/// What is logged of a command that applied to `count` sets.
pub open spec fn timing(
    what: Seq<char>,
    name: Seq<char>,
    count: nat,
    elapsed: Seq<char>,
) -> Seq<char> {
    what + " with "@ + name + " on "@ + decimal(count) + " path"@ + (if count > 1 {
        "s"@
    } else {
        ""@
    }) + ", elapsed time = "@ + elapsed
}

/// What comes of all the sets of a command.
#[derive(Debug, PartialEq, Eq)]
pub struct Summary {
    /// What to log, if anything.
    pub timing: Option<String>,
    /// The failures, where there are any.
    pub failures: Option<Vec<ActionFailure>>,
}

/// Writes a line.
fn line_text(symbol: &str, verb: &str, name: &str, open: &str, files: &Vec<String>) -> (res: String)
    ensures
        res@ == line(symbol@, verb@, name@, open@, texts(files@)),
{
    proof {
        reveal_strlit(" ");
    }
    symbol.to_string().concat(verb).concat(name).concat(open).concat(join(files, " ").as_str())
}

/// Copies a list of strings.
pub(crate) fn copied_texts(list: &Vec<String>) -> (res: Vec<String>)
    ensures
        texts(res@) == texts(list@),
{
    let res: Vec<String> = list.clone();
    assert(texts(res@) =~= texts(list@));
    res
}

/// The failure of a command on a set of files.
fn failure_on(error: String, c: &Command, files: &Vec<String>) -> (res: ActionFailure)
    ensures
        res@ == failure(error@, *c, texts(files@)),
{
    ActionFailure { error, config_key: c.config_key.clone(), paths: copied_texts(files) }
}

/// One line, unless output is suppressed.
fn lines_unless_quiet(quiet: bool, line: String) -> (res: Vec<String>)
    ensures
        texts(res@) == unless_quiet(quiet, line@),
{
    let mut res: Vec<String> = Vec::new();
    if !quiet {
        res.push(line);
    }
    assert(texts(res@) =~= unless_quiet(quiet, line@));
    res
}

/// Adds a line behind the others.
fn add_line(lines: &mut Vec<String>, line: String)
    ensures
        texts(final(lines)@) == texts(old(lines)@).push(line@),
{
    lines.push(line);
    assert(texts(lines@) =~= texts(old(lines)@).push(line@));
}

/// Adds the line by which a failed linter is brought to the notice of a GitHub
/// workflow, where the run is part of one.
fn add_workflow_notice(
    lines: &mut Vec<String>,
    github_actions: &Option<String>,
    files: &Vec<String>,
    name: &str,
)
    ensures
        texts(final(lines)@) == texts(old(lines)@) + workflow_notice(
            *github_actions,
            texts(files@),
            name@,
        ),
{
    let ghost before = texts(lines@);
    if let Some(value) = github_actions {
        if !value.as_str().is_empty() {
            let notice: String = if files.len() == 1 {
                "::error file=".to_string().concat(files[0].as_str()).concat(
                    "::Linting with ",
                ).concat(name).concat(" failed")
            } else {
                "::error::Linting with ".to_string().concat(name).concat(" failed")
            };
            add_line(lines, notice);
        }
    }
    assert(texts(lines@) =~= before + workflow_notice(*github_actions, texts(files@), name@));
}

impl Precious {
    /// What is told of the tidier `t`, run on a set of files, and kept of it.
    pub fn run_one_tidier(
        &self,
        files: &Vec<String>,
        t: &Command,
        outcome: Result<Option<TidyOutcome>, String>,
    ) -> (res: Report)
        ensures
            res@ == tidier_told(*self, texts(files@), *t, outcome),
    {
        match outcome {
            Ok(Some(TidyOutcome::Changed)) => {
                let line: String = line_text(
                    self.chars.tidied,
                    " Tidied by ",
                    t.name.as_str(),
                    ":    [",
                    files,
                ).concat("]");
                Report { lines: lines_unless_quiet(self.quiet, line), result: Some(Ok(())) }
            },
            Ok(Some(TidyOutcome::Unchanged)) => {
                let line: String = line_text(
                    self.chars.unchanged,
                    " Unchanged by ",
                    t.name.as_str(),
                    ": [",
                    files,
                ).concat("]");
                Report { lines: lines_unless_quiet(self.quiet, line), result: Some(Ok(())) }
            },
            Ok(Some(TidyOutcome::Unknown)) => {
                let line: String = line_text(
                    self.chars.unknown,
                    " Maybe changed by ",
                    t.name.as_str(),
                    ": [",
                    files,
                ).concat("]");
                Report { lines: lines_unless_quiet(self.quiet, line), result: Some(Ok(())) }
            },
            Ok(None) => {
                let res: Report = Report { lines: Vec::new(), result: None };
                assert(res@.lines =~= Seq::empty());
                res
            },
            Err(e) => {
                let line: String = line_text(
                    self.chars.execution_error,
                    " Error from ",
                    t.name.as_str(),
                    ": [",
                    files,
                ).concat("]");
                Report {
                    lines: lines_unless_quiet(false, line),
                    result: Some(Err(failure_on(e, t, files))),
                }
            },
        }
    }

    /// What is told of the linter `l`, run on a set of files, and kept of it.
    /// `github_actions` is the value of the environment variable
    /// `GITHUB_ACTIONS`, where it has one.
    pub fn run_one_linter(
        &self,
        files: &Vec<String>,
        l: &Command,
        outcome: Result<Option<LintOutcome>, String>,
        github_actions: &Option<String>,
    ) -> (res: Report)
        ensures
            res@ == linter_told(*self, texts(files@), *l, outcome, *github_actions),
    {
        match outcome {
            Ok(Some(lo)) => {
                if lo.ok {
                    let line: String = line_text(
                        self.chars.lint_free,
                        " Passed ",
                        l.name.as_str(),
                        ": ",
                        files,
                    );
                    Report { lines: lines_unless_quiet(self.quiet, line), result: Some(Ok(())) }
                } else {
                    let line: String = line_text(
                        self.chars.lint_dirty,
                        " Failed ",
                        l.name.as_str(),
                        ": ",
                        files,
                    );
                    let mut lines: Vec<String> = lines_unless_quiet(false, line);
                    let ghost first = texts(lines@);
                    let ghost stdout = lo.stdout;
                    let ghost stderr = lo.stderr;
                    if let Some(s) = lo.stdout {
                        add_line(&mut lines, s);
                    }
                    assert(texts(lines@) =~= first + if_any(stdout));
                    if let Some(s) = lo.stderr {
                        add_line(&mut lines, s);
                    }
                    assert(texts(lines@) =~= first + if_any(stdout) + if_any(stderr));
                    add_workflow_notice(&mut lines, github_actions, files, l.name.as_str());
                    Report {
                        lines,
                        result: Some(Err(failure_on("linting failed".to_string(), l, files))),
                    }
                }
            },
            Ok(None) => {
                let res: Report = Report { lines: Vec::new(), result: None };
                assert(res@.lines =~= Seq::empty());
                res
            },
            Err(e) => {
                let line: String = line_text(
                    self.chars.execution_error,
                    " error ",
                    l.name.as_str(),
                    ": ",
                    files,
                );
                Report {
                    lines: lines_unless_quiet(false, line),
                    result: Some(Err(failure_on(e, l, files))),
                }
            },
        }
    }

    /// What comes of all the sets on which the command `c` was run: the time
    /// it took, where it applied to any, and the failures, where there are any.
    pub fn run_parallel(
        &self,
        what: &str,
        c: &Command,
        results: Vec<SetResult>,
        elapsed: &str,
    ) -> (res: Summary)
        ensures
            match res.timing {
                Some(text) => applied(all_kept(results@)) > 0 && text@ == timing(
                    what@,
                    c.name@,
                    applied(all_kept(results@)),
                    elapsed@,
                ),
                None => applied(all_kept(results@)) == 0,
            },
            match res.failures {
                Some(list) => failed(all_kept(results@)).len() > 0 && failures_of(list@) == failed(
                    all_kept(results@),
                ),
                None => failed(all_kept(results@)).len() == 0,
            },
    {
        let ghost all = all_kept(results@);
        let mut failures: Vec<ActionFailure> = Vec::new();
        let mut count: u64 = 0;
        assert(failures_of(failures@) =~= failed(all.take(0)));
        assert(results.len() <= usize::MAX);
        for result in it: results
            invariant
                all == all_kept(it.seq()),
                failures_of(failures@) == failed(all.take(it.index())),
                count == applied(all.take(it.index())),
                count <= it.index() <= it.seq().len() <= usize::MAX,
        {
            let ghost i = it.index();
            let ghost before = failures@;
            proof {
                assert(all.take(i + 1).drop_last() =~= all.take(i));
                assert(all.take(i + 1).last() == kept(result));
            }
            if let Some(done) = result {
                count = count + 1;
                if let Err(f) = done {
                    failures.push(f);
                    assert(failures_of(failures@) =~= failures_of(before).push(f@));
                }
            }
        }
        assert(all.take(all.len() as int) =~= all);
        let timing: Option<String> = if count > 0 {
            let plural: &str = if count > 1 {
                "s"
            } else {
                ""
            };
            Some(
                what.to_string().concat(" with ").concat(c.name.as_str()).concat(" on ").concat(
                    decimal_text(count).as_str(),
                ).concat(" path").concat(plural).concat(", elapsed time = ").concat(elapsed),
            )
        } else {
            None
        };
        assert(failures_of(failures@).len() == failures@.len());
        if failures.len() == 0 {
            Summary { timing, failures: None }
        } else {
            Summary { timing, failures: Some(failures) }
        }
    }
}

/// The command failed on the set.
pub open spec fn set_failed(result: Option<Result<(), Failure>>) -> bool {
    result is Some && result->0 is Err
}

/// A set on which a command failed leaves a failure behind.
pub proof fn a_failed_set_is_a_failure(results: Seq<Option<Result<(), Failure>>>, i: int)
    requires
        0 <= i < results.len(),
        set_failed(results[i]),
    ensures
        failed(results).contains(results[i]->0->Err_0),
    decreases results.len(),
{
    let before = failed(results.drop_last());
    if i == results.len() - 1 {
        assert(failed(results).last() == results[i]->0->Err_0);
    } else {
        a_failed_set_is_a_failure(results.drop_last(), i);
        let j = choose|j: int| 0 <= j < before.len() && before[j] == results[i]->0->Err_0;
        assert(failed(results)[j] == results[i]->0->Err_0);
    }
}

/// Every failure comes from a set on which the command failed.
pub proof fn a_failure_has_a_failed_set(results: Seq<Option<Result<(), Failure>>>, f: Failure)
    requires
        failed(results).contains(f),
    ensures
        results.contains(Some(Err(f))),
    decreases results.len(),
{
    if results.len() > 0 {
        let before = results.drop_last();
        let j = choose|j: int| 0 <= j < failed(results).len() && failed(results)[j] == f;
        if results.last() == Some(Err::<(), Failure>(f)) {
            assert(results[results.len() - 1] == Some(Err::<(), Failure>(f)));
        } else {
            assert(failed(before)[j] == f);
            a_failure_has_a_failed_set(before, f);
            let i = choose|i: int|
                0 <= i < before.len() && before[i] == Some(Err::<(), Failure>(f));
            assert(results[i] == Some(Err::<(), Failure>(f)));
        }
    }
}

/// There are failures if and only if the command failed on one of the sets.
pub proof fn a_set_failed_if_and_only_if_there_is_a_failure(
    results: Seq<Option<Result<(), Failure>>>,
)
    ensures
        failed(results).len() > 0 <==> exists|i: int|
            0 <= i < results.len() && set_failed(#[trigger] results[i]),
{
    if failed(results).len() > 0 {
        let f = failed(results)[0];
        a_failure_has_a_failed_set(results, f);
        let i = choose|i: int|
            0 <= i < results.len() && results[i] == Some(Err::<(), Failure>(f));
        assert(set_failed(results[i]));
    }
    if exists|i: int| 0 <= i < results.len() && set_failed(#[trigger] results[i]) {
        let i = choose|i: int| 0 <= i < results.len() && set_failed(#[trigger] results[i]);
        a_failed_set_is_a_failure(results, i);
    }
}

/// Suppressed output says nothing of a command that did not fail, and all that
/// there is to say of one that did; what is kept is the same either way.
pub proof fn quiet_tells_failures_only(
    quiet: Precious,
    loud: Precious,
    files: Seq<Seq<char>>,
    c: Command,
    tidied: Result<Option<TidyOutcome>, String>,
    linted: Result<Option<LintOutcome>, String>,
    github_actions: Option<String>,
)
    requires
        quiet.quiet,
        !loud.quiet,
        quiet.chars == loud.chars,
    ensures
        ({
            let told = tidier_told(quiet, files, c, tidied);
            let said = tidier_told(loud, files, c, tidied);
            &&& told.result == said.result
            &&& told.lines == if told.result is Some && told.result->0 is Err {
                said.lines
            } else {
                Seq::empty()
            }
        }),
        ({
            let told = linter_told(quiet, files, c, linted, github_actions);
            let said = linter_told(loud, files, c, linted, github_actions);
            &&& told.result == said.result
            &&& told.lines == if told.result is Some && told.result->0 is Err {
                said.lines
            } else {
                Seq::empty()
            }
        }),
{
}

/// A report is read line by line, with what is kept of the set.
pub proof fn a_report_is_read_line_by_line(report: Report)
    ensures
        report@.lines.len() == report.lines@.len(),
        forall|i: int|
            0 <= i < report.lines@.len() ==> #[trigger] report@.lines[i] == report.lines@[i]@,
        report@.result is Some <==> report.result is Some,
        report.result is Some ==> (report@.result->0 is Err <==> report.result->0 is Err),
        report.result is Some && report.result->0 is Err ==> report@.result->0->Err_0
            == report.result->0->Err_0@,
{
}

/// A list of results is read one by one.
pub proof fn results_are_read_one_by_one(results: Seq<SetResult>)
    ensures
        all_kept(results).len() == results.len(),
        forall|i: int|
            #![trigger all_kept(results)[i]]
            0 <= i < results.len() ==> match results[i] {
                None => all_kept(results)[i] is None,
                Some(Ok(_)) => all_kept(results)[i] == Some(Ok::<(), Failure>(())),
                Some(Err(f)) => all_kept(results)[i] == Some(Err::<(), Failure>(f@)),
            },
{
}

/// The failures are the errors of the failed sets: each of those once, in the
/// order of the sets, and nothing else.
pub proof fn failures_are_the_errors_of_the_failed_sets(
    results: Seq<Option<Result<(), Failure>>>,
)
    ensures
        failed(results) == results.filter(
            |r: Option<Result<(), Failure>>| r is Some && r->0 is Err,
        ).map_values(|r: Option<Result<(), Failure>>| r->0->Err_0),
    decreases results.len(),
{
    reveal(Seq::filter);
    let is_failed = |r: Option<Result<(), Failure>>| r is Some && r->0 is Err;
    let error = |r: Option<Result<(), Failure>>| r->0->Err_0;
    if results.len() > 0 {
        let before = results.drop_last();
        failures_are_the_errors_of_the_failed_sets(before);
        assert(failed(before) =~= before.filter(is_failed).map_values(error));
        assert(failed(results) =~= results.filter(is_failed).map_values(error));
    } else {
        assert(failed(results) =~= results.filter(is_failed).map_values(error));
    }
}

/// The places of the failures among the sets: they rise, each failure is the
/// error of the set at its place, and every failed set is at such a place. So
/// there are as many failures as failed sets.
pub proof fn failures_keep_the_order_of_the_sets(
    results: Seq<Option<Result<(), Failure>>>,
) -> (at: Seq<int>)
    ensures
        at.len() == failed(results).len(),
        forall|j: int|
            #![trigger at[j]]
            0 <= j < at.len() ==> 0 <= at[j] < results.len() && results[at[j]] is Some
                && results[at[j]]->0 is Err && failed(results)[j] == results[at[j]]->0->Err_0,
        forall|j: int, k: int| 0 <= j < k < at.len() ==> at[j] < at[k],
        forall|i: int|
            0 <= i < results.len() && (#[trigger] results[i]) is Some && results[i]->0 is Err
                ==> at.contains(i),
    decreases results.len(),
{
    if results.len() == 0 {
        Seq::empty()
    } else {
        let before = results.drop_last();
        let last = results.len() - 1;
        let at = failures_keep_the_order_of_the_sets(before);
        assert(forall|i: int| 0 <= i < before.len() ==> #[trigger] results[i] == before[i]);
        if results[last] is Some && results[last]->0 is Err {
            let all = at.push(last);
            assert forall|i: int|
                0 <= i < results.len() && (#[trigger] results[i]) is Some && results[i]->0 is Err
                implies all.contains(i) by {
                if i == last {
                    assert(all[all.len() - 1] == i);
                } else {
                    assert(before[i] == results[i]);
                    let j = choose|j: int| 0 <= j < at.len() && at[j] == i;
                    assert(all[j] == i);
                }
            }
            all
        } else {
            assert forall|i: int|
                0 <= i < results.len() && (#[trigger] results[i]) is Some && results[i]->0 is Err
                implies at.contains(i) by {
                assert(before[i] == results[i]);
            }
            at
        }
    }
}

/// The sets that a command applied to are those of which something is kept.
pub proof fn applied_counts_what_is_kept(results: Seq<Option<Result<(), Failure>>>)
    ensures
        applied(results) == results.filter(|r: Option<Result<(), Failure>>| r is Some).len(),
        applied(results) >= failed(results).len(),
        applied(results) == 0 <==> forall|i: int|
            0 <= i < results.len() ==> (#[trigger] results[i]) is None,
    decreases results.len(),
{
    reveal(Seq::filter);
    if results.len() > 0 {
        let before = results.drop_last();
        applied_counts_what_is_kept(before);
        assert(forall|i: int| 0 <= i < before.len() ==> #[trigger] before[i] == results[i]);
        assert(forall|i: int| 0 <= i < before.len() ==> #[trigger] results[i] == before[i]);
        if applied(results) == 0 {
            assert forall|i: int| 0 <= i < results.len() implies (#[trigger] results[i]) is None by {
                if i < before.len() {
                    assert(before[i] is None);
                }
            }
        } else if applied(before) == 0 {
            assert(results[results.len() - 1] is Some);
        }
    }
}

/// The timing names the work, the command, the number of sets, with an `s`
/// where it is more than one, and the time.
pub proof fn a_timing_counts_the_sets(
    what: Seq<char>,
    name: Seq<char>,
    count: nat,
    elapsed: Seq<char>,
)
    ensures
        ({
            let text = timing(what, name, count, elapsed);
            let path = if count > 1 {
                " paths"@
            } else {
                " path"@
            };
            &&& framed(
                text,
                what + " with "@ + name + " on "@,
                decimal(count),
                path + ", elapsed time = "@ + elapsed,
            )
        }),
{
    let text = timing(what, name, count, elapsed);
    reveal_strlit(" paths");
    reveal_strlit(" path");
    reveal_strlit("s");
    reveal_strlit("");
    let path = if count > 1 {
        " paths"@
    } else {
        " path"@
    };
    let before = what + " with "@ + name + " on "@;
    let after = path + ", elapsed time = "@ + elapsed;
    assert(before + decimal(count) + after =~= text);
    a_sum_is_framed(before, decimal(count), after);
}

/// A failure keeps the error, the command's key and the files.
pub open spec fn keeps_failure(
    result: Option<Result<(), Failure>>,
    error: Seq<char>,
    c: Command,
    files: Seq<Seq<char>>,
) -> bool {
    &&& result is Some
    &&& result->0 is Err
    &&& result->0->Err_0.error == error
    &&& result->0->Err_0.config_key == c.config_key@
    &&& result->0->Err_0.paths == files
}

/// Of a tidier that ran, success is kept, and unless output is suppressed one
/// line tells what it did to which files. Of one that did not apply nothing is
/// told or kept. Of one that could not run a line names it and the files, and
/// the failure is kept with its error.
pub proof fn a_tidier_is_told_by_its_outcome(
    p: Precious,
    files: Seq<Seq<char>>,
    t: Command,
    outcome: Result<Option<TidyOutcome>, String>,
)
    ensures
        ({
            let told = tidier_told(p, files, t, outcome);
            let list = joined(files, " "@);
            match outcome {
                Ok(None) => told.lines.len() == 0 && told.result is None,
                Ok(Some(done)) => {
                    let (symbol, verb, gap) = match done {
                        TidyOutcome::Changed => (p.chars.tidied@, " Tidied by "@, ":    ["@),
                        TidyOutcome::Unchanged => (p.chars.unchanged@, " Unchanged by "@, ": ["@),
                        TidyOutcome::Unknown => (p.chars.unknown@, " Maybe changed by "@, ": ["@),
                    };
                    &&& told.result is Some && told.result->0 is Ok
                    &&& p.quiet ==> told.lines.len() == 0
                    &&& !p.quiet ==> told.lines.len() == 1 && framed(
                        told.lines[0],
                        symbol + verb + t.name@ + gap,
                        list,
                        "]"@,
                    )
                },
                Err(e) => {
                    &&& told.lines.len() == 1
                    &&& framed(
                        told.lines[0],
                        p.chars.execution_error@ + " Error from "@ + t.name@ + ": ["@,
                        list,
                        "]"@,
                    )
                    &&& keeps_failure(told.result, e@, t, files)
                },
            }
        }),
{
    let list = joined(files, " "@);
    let name = t.name@;
    a_sum_is_framed(p.chars.tidied@ + " Tidied by "@ + name + ":    ["@, list, "]"@);
    a_sum_is_framed(p.chars.unchanged@ + " Unchanged by "@ + name + ": ["@, list, "]"@);
    a_sum_is_framed(p.chars.unknown@ + " Maybe changed by "@ + name + ": ["@, list, "]"@);
    a_sum_is_framed(p.chars.execution_error@ + " Error from "@ + name + ": ["@, list, "]"@);
}

/// Of a linter that found nothing, success is kept, and unless output is
/// suppressed one line tells so. Of one that did not apply nothing is told or
/// kept. Of one that could not run a line names it and the files, and the
/// failure is kept with its error.
pub proof fn a_linter_is_told_by_its_outcome(
    p: Precious,
    files: Seq<Seq<char>>,
    l: Command,
    outcome: Result<Option<LintOutcome>, String>,
    github_actions: Option<String>,
)
    ensures
        ({
            let told = linter_told(p, files, l, outcome, github_actions);
            let list = joined(files, " "@);
            match outcome {
                Ok(None) => told.lines.len() == 0 && told.result is None,
                Ok(Some(lo)) => lo.ok ==> {
                    &&& told.result is Some && told.result->0 is Ok
                    &&& p.quiet ==> told.lines.len() == 0
                    &&& !p.quiet ==> told.lines.len() == 1 && framed(
                        told.lines[0],
                        p.chars.lint_free@ + " Passed "@ + l.name@ + ": "@,
                        list,
                        Seq::empty(),
                    )
                },
                Err(e) => {
                    &&& told.lines.len() == 1
                    &&& framed(
                        told.lines[0],
                        p.chars.execution_error@ + " error "@ + l.name@ + ": "@,
                        list,
                        Seq::empty(),
                    )
                    &&& keeps_failure(told.result, e@, l, files)
                },
            }
        }),
{
    let list = joined(files, " "@);
    let passed = p.chars.lint_free@ + " Passed "@ + l.name@ + ": "@;
    let error = p.chars.execution_error@ + " error "@ + l.name@ + ": "@;
    a_sum_is_framed(passed, list, Seq::empty());
    assert(passed + list + Seq::empty() =~= passed + list);
    a_sum_is_framed(error, list, Seq::empty());
    assert(error + list + Seq::empty() =~= error + list);
}

/// Where a linter failed, all that it wrote is told, whether output is
/// suppressed or not: first a line that names it and the files, then its
/// standard output, if any, then its standard error, if any, each without
/// regard to the other. Last comes the notice for a workflow, if the run is
/// part of one, which names the file where there is just one.
pub proof fn a_failed_linter_is_heard_out(
    p: Precious,
    files: Seq<Seq<char>>,
    l: Command,
    lo: LintOutcome,
    github_actions: Option<String>,
)
    requires
        !lo.ok,
    ensures
        ({
            let told = linter_told(p, files, l, Ok(Some(lo)), github_actions);
            let out: int = if lo.stdout is Some {
                1
            } else {
                0
            };
            let err: int = if lo.stderr is Some {
                1
            } else {
                0
            };
            let notice: int = if github_actions is Some && github_actions->0@.len() > 0 {
                1
            } else {
                0
            };
            &&& told.lines.len() == 1 + out + err + notice
            &&& framed(
                told.lines[0],
                p.chars.lint_dirty@ + " Failed "@ + l.name@ + ": "@,
                joined(files, " "@),
                Seq::empty(),
            )
            &&& lo.stdout is Some ==> told.lines[1] == lo.stdout->0@
            &&& lo.stderr is Some ==> told.lines[1 + out] == lo.stderr->0@
            &&& notice == 1 && files.len() == 1 ==> framed(
                told.lines[1 + out + err],
                "::error file="@,
                files[0],
                "::Linting with "@ + l.name@ + " failed"@,
            )
            &&& notice == 1 && files.len() != 1 ==> framed(
                told.lines[1 + out + err],
                "::error::Linting with "@,
                l.name@,
                " failed"@,
            )
            &&& keeps_failure(told.result, "linting failed"@, l, files)
        }),
{
    let list = joined(files, " "@);
    let failed = p.chars.lint_dirty@ + " Failed "@ + l.name@ + ": "@;
    a_sum_is_framed(failed, list, Seq::empty());
    assert(failed + list + Seq::empty() =~= failed + list);
    if files.len() == 1 {
        let after = "::Linting with "@ + l.name@ + " failed"@;
        assert("::error file="@ + files[0] + after =~= "::error file="@ + files[0]
            + "::Linting with "@ + l.name@ + " failed"@);
        a_sum_is_framed("::error file="@, files[0], after);
    }
    a_sum_is_framed("::error::Linting with "@, l.name@, " failed"@);
}

} // verus!
