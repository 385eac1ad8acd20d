//! How a run ends.
use crate::logger::{switch_text, switch_to, Color};
use crate::precious::Precious;
use crate::text::{
    a_list_mentions_its_parts, a_sum_is_framed, a_sum_mentions_its_parts, framed, join, joined,
    mentions, mentions_are_passed_on, texts,
};
use vstd::prelude::*;
use vstd::string::*;

verus! {

/// How the program is to end.
#[derive(Debug, PartialEq, Eq)]
pub struct Exit {
    pub status: i8,
    pub message: Option<String>,
    pub error: Option<String>,
}

/// A set of paths on which a command failed.
#[derive(Debug, PartialEq, Eq)]
pub struct ActionFailure {
    /// What went wrong.
    pub error: String,
    /// The command's key in the config.
    pub config_key: String,
    /// The paths, as text.
    pub paths: Vec<String>,
}

/// What an `Exit` says.
pub struct Ending {
    pub status: i8,
    pub message: Option<Seq<char>>,
    pub error: Option<Seq<char>>,
}

/// What an `ActionFailure` says.
#[verifier::ext_equal]
pub struct Failure {
    pub error: Seq<char>,
    pub config_key: Seq<char>,
    pub paths: Seq<Seq<char>>,
}

/// What an optional text says.
pub open spec fn optional(text: Option<String>) -> Option<Seq<char>> {
    match text {
        Some(text) => Some(text@),
        None => None,
    }
}

impl View for Exit {
    type V = Ending;

    open spec fn view(&self) -> Ending {
        Ending {
            status: self.status,
            message: optional(self.message),
            error: optional(self.error),
        }
    }
}

impl View for ActionFailure {
    type V = Failure;

    open spec fn view(&self) -> Failure {
        Failure { error: self.error@, config_key: self.config_key@, paths: texts(self.paths@) }
    }
}

/// What each failure of a list says.
pub open spec fn failures_of(list: Seq<ActionFailure>) -> Seq<Failure> {
    list.map_values(|f: ActionFailure| f@)
}

/// The ending of a run for which there were no files.
pub open spec fn no_files_ending() -> Ending {
    Ending { status: 0, message: Some("No files found"@), error: None }
}

/// One failure as it is listed.
pub open spec fn entry(bullet: Seq<char>, failure: Failure) -> Seq<char> {
    "  "@ + bullet + " ["@ + joined(failure.paths, " "@) + "] ["@ + failure.config_key
        + "]\n    "@ + failure.error + "\n"@
}

/// The failures as they are listed, in their order.
pub open spec fn entries(bullet: Seq<char>, failures: Seq<Failure>) -> Seq<char>
    decreases failures.len(),
{
    if failures.len() == 0 {
        Seq::empty()
    } else {
        entries(bullet, failures.drop_last()) + entry(bullet, failures.last())
    }
}

/// The ending of a run with these failures: a status of 0 and nothing to say
/// without any, a status of 1 and the list of them otherwise. Behind the word
/// `Error` stands an `s` where there are several, and a NUL where there is one.
pub open spec fn ending(bullet: Seq<char>, action: Seq<char>, failures: Seq<Failure>) -> Ending {
    if failures.len() == 0 {
        Ending { status: 0, message: None, error: None }
    } else {
        let plural = if failures.len() > 1 {
            "s"@
        } else {
            "\0"@
        };
        Ending {
            status: 1,
            message: None,
            error: Some(
                switch_to(Color::Red) + "Error"@ + plural + " when "@ + action + " files:"@
                    + "\x1B[0m"@ + "\n"@ + entries(bullet, failures),
            ),
        }
    }
}

/// Lists one failure.
fn entry_text(bullet: &str, failure: &ActionFailure) -> (res: String)
    ensures
        res@ == entry(bullet@, failure@),
{
    proof {
        reveal_strlit(" ");
    }
    let paths: String = join(&failure.paths, " ");
    "  ".to_string().concat(bullet).concat(" [").concat(paths.as_str()).concat("] [").concat(
        failure.config_key.as_str(),
    ).concat("]\n    ").concat(failure.error.as_str()).concat("\n")
}

/// Lists the failures in their order.
fn entries_text(bullet: &str, failures: &Vec<ActionFailure>) -> (res: String)
    ensures
        res@ == entries(bullet@, failures_of(failures@)),
{
    let mut res: String = String::new();
    let mut i: usize = 0;
    while i < failures.len()
        invariant
            i <= failures.len(),
            res@ == entries(bullet@, failures_of(failures@).take(i as int)),
        decreases failures.len() - i,
    {
        let one: String = entry_text(bullet, &failures[i]);
        res = res.concat(one.as_str());
        proof {
            let listed = failures_of(failures@).take(i + 1);
            assert(listed.drop_last() =~= failures_of(failures@).take(i as int));
            assert(listed.last() == failures@[i as int]@);
        }
        i = i + 1;
    }
    assert(failures_of(failures@).take(i as int) =~= failures_of(failures@));
    res
}

impl Precious {
    /// The exit of a run for which there were no files.
    pub fn no_files_exit(&self) -> (res: Exit)
        ensures
            res@ == no_files_ending(),
            res.status == 0,
            res.error is None,
            res.message is Some,
            res.message->0@ == "No files found"@,
    {
        Exit { status: 0, message: Some("No files found".to_string()), error: None }
    }

    /// The exit of a run with these failures.
    pub fn make_exit(&self, failures: Vec<ActionFailure>, action: &str) -> (res: Exit)
        ensures
            res@ == ending(self.chars.bullet@, action@, failures_of(failures@)),
            res.status == if failures@.len() == 0 {
                0i8
            } else {
                1i8
            },
            res.message is None,
            res.error is Some <==> failures@.len() > 0,
    {
        if failures.len() == 0 {
            return Exit { status: 0, message: None, error: None };
        }
        let plural: &str = if failures.len() > 1 {
            "s"
        } else {
            "\0"
        };
        let error: String = switch_text(Color::Red).concat("Error").concat(plural).concat(
            " when ",
        ).concat(action).concat(" files:").concat("\x1B[0m").concat("\n").concat(
            entries_text(self.chars.bullet, &failures).as_str(),
        );
        Exit { status: 1, message: None, error: Some(error) }
    }
}

impl From<String> for Exit {
    fn from(err: String) -> (res: Exit) {
        Exit { status: 1, message: None, error: Some(err) }
    }
}

impl vstd::std_specs::convert::FromSpecImpl<String> for Exit {
    open spec fn obeys_from_spec() -> bool {
        true
    }

    open spec fn from_spec(err: String) -> Exit {
        Exit { status: 1, message: None, error: Some(err) }
    }
}

/// The list of the failures mentions each of them.
proof fn the_list_mentions_each_entry(bullet: Seq<char>, failures: Seq<Failure>, i: int)
    requires
        0 <= i < failures.len(),
    ensures
        mentions(entries(bullet, failures), entry(bullet, failures[i])),
    decreases failures.len(),
{
    let whole = entries(bullet, failures);
    let before = entries(bullet, failures.drop_last());
    let last = entry(bullet, failures.last());
    if i == failures.len() - 1 {
        assert(before + last + Seq::empty() =~= whole);
        a_sum_mentions_its_parts(before, last, Seq::empty());
    } else {
        the_list_mentions_each_entry(bullet, failures.drop_last(), i);
        assert(Seq::<char>::empty() + before + last =~= whole);
        a_sum_mentions_its_parts(Seq::empty(), before, last);
        mentions_are_passed_on(whole, before, entry(bullet, failures[i]));
    }
}

/// The error of an exit lists every failure, with its symbol, its paths, its
/// command and its error.
pub proof fn every_failure_is_listed(
    bullet: Seq<char>,
    action: Seq<char>,
    failures: Seq<Failure>,
    i: int,
)
    requires
        0 <= i < failures.len(),
    ensures
        ending(bullet, action, failures).error is Some,
        mentions(ending(bullet, action, failures).error->0, entry(bullet, failures[i])),
{
    let error = ending(bullet, action, failures).error->0;
    let list = entries(bullet, failures);
    let heading = error.take(error.len() - list.len());
    assert(heading + list + Seq::empty() =~= error);
    a_sum_mentions_its_parts(heading, list, Seq::empty());
    the_list_mentions_each_entry(bullet, failures, i);
    mentions_are_passed_on(error, list, entry(bullet, failures[i]));
}

/// The error of an exit names every path on which a command failed.
pub proof fn every_failed_path_is_named(
    bullet: Seq<char>,
    action: Seq<char>,
    failures: Seq<Failure>,
    i: int,
    j: int,
)
    requires
        0 <= i < failures.len(),
        0 <= j < failures[i].paths.len(),
    ensures
        mentions(ending(bullet, action, failures).error->0, failures[i].paths[j]),
{
    let f = failures[i];
    let one = entry(bullet, f);
    let paths = joined(f.paths, " "@);
    let before = "  "@ + bullet + " ["@;
    let after = "] ["@ + f.config_key + "]\n    "@ + f.error + "\n"@;
    assert(before + paths + after =~= one);
    a_sum_mentions_its_parts(before, paths, after);
    a_list_mentions_its_parts(f.paths, " "@, j);
    mentions_are_passed_on(one, paths, f.paths[j]);
    every_failure_is_listed(bullet, action, failures, i);
    mentions_are_passed_on(ending(bullet, action, failures).error->0, one, f.paths[j]);
}

/// An exit is read field by field.
pub proof fn an_exit_is_read_field_by_field(exit: Exit)
    ensures
        exit@.status == exit.status,
        exit@.message is Some <==> exit.message is Some,
        exit.message is Some ==> exit@.message->0 == exit.message->0@,
        exit@.error is Some <==> exit.error is Some,
        exit.error is Some ==> exit@.error->0 == exit.error->0@,
{
}

/// A list of failures is read one by one, each field by field.
pub proof fn failures_are_read_field_by_field(list: Seq<ActionFailure>)
    ensures
        failures_of(list).len() == list.len(),
        forall|i: int|
            #![trigger failures_of(list)[i]]
            0 <= i < list.len() ==> {
                &&& failures_of(list)[i].error == list[i].error@
                &&& failures_of(list)[i].config_key == list[i].config_key@
                &&& failures_of(list)[i].paths.len() == list[i].paths@.len()
                &&& forall|j: int|
                    0 <= j < list[i].paths@.len() ==> #[trigger] failures_of(list)[i].paths[j]
                        == list[i].paths@[j]@
            },
{
}

/// An entry opens with the symbol, shows the paths in brackets, then the
/// command in brackets, and on a line of its own the error.
pub proof fn an_entry_shows_paths_command_and_error(bullet: Seq<char>, f: Failure)
    ensures
        framed(
            entry(bullet, f),
            "  "@ + bullet + " ["@,
            joined(f.paths, " "@),
            "] ["@ + f.config_key + "]\n    "@ + f.error + "\n"@,
        ),
{
    let before = "  "@ + bullet + " ["@;
    let after = "] ["@ + f.config_key + "]\n    "@ + f.error + "\n"@;
    assert(before + joined(f.paths, " "@) + after =~= entry(bullet, f));
    a_sum_is_framed(before, joined(f.paths, " "@), after);
}

/// Lists of failures add up: one failure is listed as its entry, and a list
/// behind another as the one behind the other.
pub proof fn lists_of_failures_add_up(
    bullet: Seq<char>,
    first: Seq<Failure>,
    second: Seq<Failure>,
    one: Failure,
)
    ensures
        entries(bullet, Seq::empty()) == Seq::<char>::empty(),
        entries(bullet, seq![one]) == entry(bullet, one),
        entries(bullet, first + second) == entries(bullet, first) + entries(bullet, second),
    decreases second.len(),
{
    assert(seq![one].drop_last() =~= Seq::empty());
    assert(entries(bullet, seq![one].drop_last()) =~= Seq::empty());
    assert(entries(bullet, seq![one]) =~= entry(bullet, one));
    if second.len() == 0 {
        assert(first + second =~= first);
        assert(entries(bullet, first) + entries(bullet, second) =~= entries(bullet, first));
    } else {
        lists_of_failures_add_up(bullet, first, second.drop_last(), one);
        assert((first + second).drop_last() =~= first + second.drop_last());
        assert(entries(bullet, first + second) =~= entries(bullet, first) + entries(
            bullet,
            second,
        ));
    }
}

/// A run ends well if and only if nothing failed. One that does not has no
/// message, and its error is headed by the action, in red, and lists the
/// failures; the heading speaks of errors where there are several.
pub proof fn an_ending_follows_from_its_failures(
    bullet: Seq<char>,
    action: Seq<char>,
    failures: Seq<Failure>,
)
    ensures
        ({
            let end = ending(bullet, action, failures);
            &&& end.status == 0 || end.status == 1
            &&& end.status == 0 <==> failures.len() == 0
            &&& end.message is None
            &&& end.error is None <==> failures.len() == 0
            &&& failures.len() == 1 ==> framed(
                end.error->0,
                "\x1B[31mError\0 when "@,
                action,
                " files:\x1B[0m\n"@ + entries(bullet, failures),
            )
            &&& failures.len() > 1 ==> framed(
                end.error->0,
                "\x1B[31mErrors when "@,
                action,
                " files:\x1B[0m\n"@ + entries(bullet, failures),
            )
        }),
{
    if failures.len() > 0 {
        let list = entries(bullet, failures);
        let error = ending(bullet, action, failures).error->0;
        reveal_strlit("\x1B[");
        reveal_strlit("31");
        reveal_strlit("m");
        reveal_strlit("Error");
        reveal_strlit("s");
        reveal_strlit("\0");
        reveal_strlit(" when ");
        reveal_strlit(" files:");
        reveal_strlit("\x1B[0m");
        reveal_strlit("\n");
        reveal_strlit(" files:\x1B[0m\n");
        reveal_strlit("\x1B[31mError\0 when ");
        reveal_strlit("\x1B[31mErrors when ");
        let heading = if failures.len() > 1 {
            "\x1B[31mErrors when "@
        } else {
            "\x1B[31mError\0 when "@
        };
        assert(heading =~= switch_to(Color::Red) + "Error"@ + (if failures.len() > 1 {
            "s"@
        } else {
            "\0"@
        }) + " when "@);
        assert(" files:\x1B[0m\n"@ =~= " files:"@ + "\x1B[0m"@ + "\n"@);
        assert(heading + action + (" files:\x1B[0m\n"@ + list) =~= error);
        a_sum_is_framed(heading, action, " files:\x1B[0m\n"@ + list);
    }
}

/// A run without files ends well, and says that there were none.
pub proof fn no_files_is_no_failure()
    ensures
        no_files_ending().status == 0,
        no_files_ending().message == Some("No files found"@),
        no_files_ending().error is None,
{
}

/// A text that becomes an exit is its error, and the run has failed.
pub proof fn a_text_becomes_a_failed_exit(err: String, exit: Exit)
    requires
        call_ensures(<Exit as From<String>>::from, (err,), exit),
    ensures
        exit.status == 1,
        exit.message is None,
        exit.error is Some,
        exit.error->0@ == err@,
{
}

} // verus!
