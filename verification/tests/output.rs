use precious::chars::{boring_chars, fun_chars, Chars};
use precious::cli::{App, CommonArgs, Mode, Subcommand};
use precious::error::PreciousError;
use precious::exit::{ActionFailure, Exit};
use precious::logger::{switch_text, Color, Level, LevelFilter};
use precious::path::{Component, FilePath};
use precious::precious::Precious;
use precious::report::{Command, LintOutcome, TidyOutcome};
use precious::run::{Action, Run, Step};

fn strings(list: &[&str]) -> Vec<String> {
    list.iter().map(|s| s.to_string()).collect()
}

fn precious(quiet: bool) -> Precious {
    let root = FilePath { components: vec![Component::RootDir] };
    Precious {
        mode: Mode::All,
        project_root: root.clone(),
        cwd: root.clone(),
        config_file: root,
        command: None,
        chars: boring_chars(),
        quiet,
        jobs: 0,
        should_lint: true,
        paths: strings(&["a", "b"]),
    }
}

fn rustfmt() -> Command {
    Command { name: "rustfmt".to_string(), config_key: "commands.rustfmt".to_string() }
}

fn failure(error: &str, paths: &[&str]) -> ActionFailure {
    ActionFailure {
        error: error.to_string(),
        config_key: "commands.rustfmt".to_string(),
        paths: strings(paths),
    }
}

fn flags(verbose: bool, debug: bool, trace: bool) -> App {
    App {
        config: None,
        jobs: 0,
        ascii: false,
        quiet: false,
        verbose,
        debug,
        trace,
        subcommand: Subcommand::Tidy(CommonArgs {
            command: None,
            all: true,
            git: false,
            staged: false,
            staged_with_stash: false,
            paths: vec![],
        }),
    }
}

fn symbols(c: Chars) -> Vec<&'static str> {
    vec![
        c.ring,
        c.tidied,
        c.unchanged,
        c.unknown,
        c.lint_free,
        c.lint_dirty,
        c.empty,
        c.bullet,
        c.execution_error,
    ]
}

#[test]
fn the_boring_symbols_are_ascii() {
    assert!(symbols(boring_chars()).iter().all(|s| s.is_ascii()));
    assert!(symbols(fun_chars()).iter().all(|s| !s.is_ascii()));
}

#[test]
fn tidiers_are_told_of_by_outcome() {
    let p = precious(false);
    let files = strings(&["a.rs", "b.rs"]);
    let told = |outcome| p.run_one_tidier(&files, &rustfmt(), outcome);

    let changed = told(Ok(Some(TidyOutcome::Changed)));
    assert_eq!(changed.lines, strings(&["* Tidied by rustfmt:    [a.rs b.rs]"]));
    assert_eq!(changed.result, Some(Ok(())));

    let unchanged = told(Ok(Some(TidyOutcome::Unchanged)));
    assert_eq!(unchanged.lines, strings(&["| Unchanged by rustfmt: [a.rs b.rs]"]));
    assert_eq!(unchanged.result, Some(Ok(())));

    let unknown = told(Ok(Some(TidyOutcome::Unknown)));
    assert_eq!(unknown.lines, strings(&["? Maybe changed by rustfmt: [a.rs b.rs]"]));
    assert_eq!(unknown.result, Some(Ok(())));

    let skipped = told(Ok(None));
    assert!(skipped.lines.is_empty());
    assert_eq!(skipped.result, None);

    let error = told(Err("boom".to_string()));
    assert_eq!(error.lines, strings(&["! Error from rustfmt: [a.rs b.rs]"]));
    assert_eq!(error.result, Some(Err(failure("boom", &["a.rs", "b.rs"]))));
}

#[test]
fn linters_are_told_of_by_outcome() {
    let p = precious(false);
    let files = strings(&["a.rs", "b.rs"]);
    let told = |outcome| p.run_one_linter(&files, &rustfmt(), outcome, &None);

    let clean = told(Ok(Some(LintOutcome { ok: true, stdout: None, stderr: None })));
    assert_eq!(clean.lines, strings(&["| Passed rustfmt: a.rs b.rs"]));
    assert_eq!(clean.result, Some(Ok(())));

    let dirty = told(Ok(Some(LintOutcome {
        ok: false,
        stdout: Some("out".to_string()),
        stderr: Some("err".to_string()),
    })));
    assert_eq!(dirty.lines, strings(&["* Failed rustfmt: a.rs b.rs", "out", "err"]));
    assert_eq!(dirty.result, Some(Err(failure("linting failed", &["a.rs", "b.rs"]))));

    let skipped = told(Ok(None));
    assert!(skipped.lines.is_empty());
    assert_eq!(skipped.result, None);

    let error = told(Err("boom".to_string()));
    assert_eq!(error.lines, strings(&["! error rustfmt: a.rs b.rs"]));
    assert_eq!(error.result, Some(Err(failure("boom", &["a.rs", "b.rs"]))));
}

#[test]
fn a_workflow_is_given_notice_of_a_failed_linter() {
    let p = precious(true);
    let notice = |files: &[&str], value: Option<&str>| {
        let dirty = LintOutcome { ok: false, stdout: None, stderr: None };
        let value = value.map(|v| v.to_string());
        let mut lines =
            p.run_one_linter(&strings(files), &rustfmt(), Ok(Some(dirty)), &value).lines;
        lines.remove(0);
        lines
    };
    assert_eq!(
        notice(&["a.rs"], Some("true")),
        strings(&["::error file=a.rs::Linting with rustfmt failed"])
    );
    assert_eq!(
        notice(&["a.rs", "b.rs"], Some("true")),
        strings(&["::error::Linting with rustfmt failed"])
    );
    assert_eq!(notice(&[], Some("1")), strings(&["::error::Linting with rustfmt failed"]));
    assert!(notice(&["a.rs"], Some("")).is_empty());
    assert!(notice(&["a.rs"], None).is_empty());
}

#[test]
fn quiet_output_tells_failures_only() {
    let quiet = precious(true);
    let loud = precious(false);
    let files = strings(&["a.rs"]);
    for outcome in [TidyOutcome::Changed, TidyOutcome::Unchanged, TidyOutcome::Unknown] {
        let report = quiet.run_one_tidier(&files, &rustfmt(), Ok(Some(outcome)));
        assert!(report.lines.is_empty());
        assert_eq!(report.result, Some(Ok(())));
    }
    assert_eq!(
        quiet.run_one_tidier(&files, &rustfmt(), Err("boom".to_string())),
        loud.run_one_tidier(&files, &rustfmt(), Err("boom".to_string()))
    );
    for ok in [true, false] {
        let lint = |p: &Precious| {
            let lo = LintOutcome { ok, stdout: Some("out".to_string()), stderr: None };
            p.run_one_linter(&files, &rustfmt(), Ok(Some(lo)), &None)
        };
        assert_eq!(lint(&quiet).result, lint(&loud).result);
        if ok {
            assert!(lint(&quiet).lines.is_empty());
        } else {
            assert_eq!(lint(&quiet).lines, lint(&loud).lines);
        }
    }
}

#[test]
fn an_exit_without_failures_says_nothing() {
    let exit = precious(false).make_exit(vec![], "linting");
    assert_eq!(exit, Exit { status: 0, message: None, error: None });
}

#[test]
fn an_exit_lists_every_failure_in_order() {
    let p = precious(false);
    let one = p.make_exit(vec![failure("boom", &["a.rs", "b.rs"])], "tidying");
    assert_eq!(one.status, 1);
    assert_eq!(one.message, None);
    assert_eq!(
        one.error.unwrap(),
        "\x1B[31mError\0 when tidying files:\x1B[0m\n  * [a.rs b.rs] [commands.rustfmt]\n    boom\n"
    );
    let two = p.make_exit(vec![failure("boom", &["a.rs"]), failure("bang", &[])], "linting");
    assert_eq!(two.status, 1);
    assert_eq!(
        two.error.unwrap(),
        "\x1B[31mErrors when linting files:\x1B[0m\n  * [a.rs] [commands.rustfmt]\n    boom\n  * [] [commands.rustfmt]\n    bang\n"
    );
}

#[test]
fn an_exit_without_files_says_so() {
    let exit = precious(false).no_files_exit();
    assert_eq!(
        exit,
        Exit { status: 0, message: Some("No files found".to_string()), error: None }
    );
    let farewell = precious(false).run(Ok(exit));
    assert_eq!(farewell.printed, "_ No files found\n");
    assert_eq!(farewell.logged, None);
    assert_eq!(farewell.status, 0);
}

#[test]
fn an_error_becomes_an_exit() {
    let exit = Exit::from("boom".to_string());
    assert_eq!(exit, Exit { status: 1, message: None, error: Some("boom".to_string()) });
}

#[test]
fn a_run_ends_with_its_last_words() {
    let p = precious(false);
    let both = Exit {
        status: 3,
        message: Some("message".to_string()),
        error: Some("error".to_string()),
    };
    let farewell = p.run(Ok(both));
    assert_eq!(farewell.printed, "error_ message\n");
    assert_eq!(farewell.status, 3);
    let stopped = p.run(Err("boom".to_string()));
    assert_eq!(stopped.printed, "");
    assert_eq!(stopped.logged, Some("Failed to run precious: boom".to_string()));
    assert_eq!(stopped.status, 1);
}

#[test]
fn a_run_opens_with_its_action() {
    let mut p = precious(false);
    assert_eq!(
        p.run_subcommand("all files"),
        (Action::Lint, ": Linting all files".to_string())
    );
    p.should_lint = false;
    assert_eq!(
        p.run_subcommand("all files"),
        (Action::Tidy, ": Tidying all files".to_string())
    );
}

#[test]
fn paths_of_the_command_line_are_used_in_their_mode_only() {
    let mut p = precious(false);
    assert!(p.run_all_commands(Action::Lint, 1).unwrap().cli_paths.is_empty());
    p.mode = Mode::FromCli;
    assert_eq!(p.run_all_commands(Action::Lint, 1).unwrap().cli_paths, strings(&["a", "b"]));
}

#[test]
fn a_run_without_commands_does_not_start() {
    let mut p = precious(false);
    assert_eq!(
        p.run_all_commands(Action::Tidy, 0),
        Err(PreciousError::NoCommands { what: "tidying".to_string() })
    );
    p.command = Some("perltidy".to_string());
    assert_eq!(
        p.run_all_commands(Action::Lint, 0),
        Err(PreciousError::NoCommandsMatch {
            what: "linting".to_string(),
            name: "perltidy".to_string(),
        })
    );
}

#[test]
fn failures_pile_up_in_order_and_an_error_stops_the_run() {
    let p = precious(false);
    let start = || match p.run_all_commands(Action::Lint, 2).unwrap().found(&p, Ok(true)) {
        Step::Execute(run) => run,
        Step::Finish(_) => panic!("the run ended"),
    };
    let second = |run: Run| match run.executed(&p, Ok(Some(vec![failure("one", &["a"])]))) {
        Step::Execute(run) => run,
        Step::Finish(_) => panic!("the run ended"),
    };
    let run = second(start());
    assert_eq!(run.index, 1);
    let last = run.executed(&p, Ok(Some(vec![failure("two", &["b"]), failure("three", &["c"])])));
    let all = vec![failure("one", &["a"]), failure("two", &["b"]), failure("three", &["c"])];
    assert_eq!(last, Step::Finish(Ok(p.make_exit(all, "linting"))));

    assert_eq!(
        start().executed(&p, Err("boom".to_string())),
        Step::Finish(Err("boom".to_string()))
    );
    assert_eq!(
        second(start()).executed(&p, Err("boom".to_string())),
        Step::Finish(Err("boom".to_string()))
    );
}

#[test]
fn errors_are_told_in_words() {
    assert_eq!(
        PreciousError::NoModeOrPathsInCliArgs.message(),
        "No mode or paths were provided in the command line args"
    );
    assert_eq!(
        PreciousError::ConfigFileHasNoParent { file: "/".to_string() }.message(),
        "The path given in --config, /, has no parent directory"
    );
    assert_eq!(
        PreciousError::CannotFindRoot { cwd: "/tmp".to_string() }.message(),
        "Could not find a VCS checkout root starting from /tmp"
    );
    assert_eq!(
        PreciousError::NoCommands { what: "linting".to_string() }.message(),
        "No linting commands defined in your config"
    );
    assert_eq!(
        PreciousError::NoCommandsMatch { what: "tidying".to_string(), name: "x".to_string() }
            .message(),
        "No tidying commands match the given command name, x"
    );
}

#[test]
fn the_most_talkative_flag_sets_the_log_level() {
    assert_eq!(flags(false, false, false).init_logger().level, LevelFilter::Warn);
    assert_eq!(flags(true, false, false).init_logger().level, LevelFilter::Info);
    assert_eq!(flags(true, true, false).init_logger().level, LevelFilter::Debug);
    assert_eq!(flags(true, true, true).init_logger().level, LevelFilter::Trace);
    assert_eq!(flags(false, false, true).init_logger().level, LevelFilter::Trace);
    let exception = flags(false, false, false).init_logger().exception;
    assert_eq!(exception, ("globset", LevelFilter::Info));
}

#[test]
fn records_are_written_in_color() {
    let settings = flags(false, false, false).init_logger();
    let line = |level| settings.format(level, "core", "hello");
    assert_eq!(line(Level::Error), "\x1B[31m[core][\x1B[31mERROR\x1B[0m\x1B[31m] hello\x1B[0m");
    assert_eq!(line(Level::Warn), "\x1B[33m[core][\x1B[33mWARN\x1B[0m\x1B[33m] hello\x1B[0m");
    assert_eq!(line(Level::Info), "\x1B[90m[core][\x1B[32mINFO\x1B[0m\x1B[90m] hello\x1B[0m");
    assert_eq!(line(Level::Debug), "\x1B[90m[core][\x1B[30mDEBUG\x1B[0m\x1B[90m] hello\x1B[0m");
    assert_eq!(line(Level::Trace), "\x1B[90m[core][\x1B[90mTRACE\x1B[0m\x1B[90m] hello\x1B[0m");
}

#[test]
fn colors_have_the_numbers_that_terminals_know() {
    assert_eq!(switch_text(Color::Black), "\x1B[30m");
    assert_eq!(switch_text(Color::Red), "\x1B[31m");
    assert_eq!(switch_text(Color::Green), "\x1B[32m");
    assert_eq!(switch_text(Color::Yellow), "\x1B[33m");
    assert_eq!(switch_text(Color::BrightBlack), "\x1B[90m");
}
