use precious::chars::{boring_chars, fun_chars};
use precious::cli::{App, CommonArgs, Mode, Subcommand};
use precious::error::PreciousError;
use precious::exit::ActionFailure;
use precious::path::{Component, FilePath, GivenPath};
use precious::precious::Precious;
use precious::report::{Command, LintOutcome, Report, SetResult, TidyOutcome};
use precious::run::Step;

const CONFIG_FILE_NAMES: &[&str] = &["precious.toml", ".precious.toml"];
const DEFAULT_CONFIG_FILE_NAME: &str = CONFIG_FILE_NAMES[0];

/// An absolute path with these names below the root.
fn path(names: &[&str]) -> FilePath {
    let mut components = vec![Component::RootDir];
    for name in names {
        components.push(Component::Normal(name.as_bytes().to_vec()));
    }
    FilePath { components }
}

fn given(names: &[&str]) -> GivenPath {
    GivenPath { text: format!("/{}", names.join("/")), path: path(names) }
}

fn vcs_dirs() -> Vec<Vec<u8>> {
    vec![b".git".to_vec(), b".hg".to_vec()]
}

/// The command line with these words behind the program's name; a word that
/// follows `--config` is the name of a file in `/project`.
fn app(words: &[&str]) -> App {
    assert_eq!(words[0], "precious");
    let mut config = None;
    let mut command = None;
    let mut lint = false;
    let mut paths = vec![];
    let mut named = false;
    let mut i = 1;
    while i < words.len() {
        match words[i] {
            "--config" => {
                i += 1;
                config = Some(given(&["project", words[i]]));
            }
            "--command" => {
                i += 1;
                command = Some(words[i].to_string());
            }
            "lint" | "tidy" if !named => {
                named = true;
                lint = words[i] == "lint";
            }
            word => {
                if !word.starts_with('-') {
                    paths.push(word.to_string());
                }
            }
        }
        i += 1;
    }
    let has = |long: &str, short: &str| words.contains(&long) || words.contains(&short);
    let args = CommonArgs {
        command,
        all: has("--all", "-a"),
        git: has("--git", "-g"),
        staged: has("--staged", "-s"),
        staged_with_stash: words.contains(&"--staged-with-stash"),
        paths,
    };
    App {
        config,
        jobs: 0,
        ascii: words.contains(&"--ascii"),
        quiet: words.contains(&"--quiet"),
        verbose: words.contains(&"--verbose"),
        debug: words.contains(&"--debug"),
        trace: words.contains(&"--trace"),
        subcommand: if lint { Subcommand::Lint(args) } else { Subcommand::Tidy(args) },
    }
}

/// The settings of a command line in `cwd`, where `there` is all there is.
fn settings(
    words: &[&str],
    cwd: &[&str],
    there: &[FilePath],
) -> Result<Precious, PreciousError> {
    let is_there = |p: &FilePath| there.contains(p);
    Precious::new(app(words), &given(cwd), &vcs_dirs(), &is_there)
}

fn in_project(words: &[&str]) -> Precious {
    let there = [path(&["project", DEFAULT_CONFIG_FILE_NAME])];
    settings(words, &["project"], &there).unwrap()
}

fn command(name: &str) -> Command {
    Command { name: name.to_string(), config_key: format!("commands.{name}") }
}

/// Runs `commands` on one set of files and returns the status. `execute` runs
/// the command at an index.
fn run(
    p: &Precious,
    commands: &[Command],
    found: Result<bool, String>,
    execute: &mut dyn FnMut(usize) -> Report,
) -> i8 {
    let (action, _) = p.run_subcommand("everything");
    let search = match p.run_all_commands(action, commands.len()) {
        Ok(search) => search,
        Err(e) => return p.run(Err(e.message())).status,
    };
    let mut step = search.found(p, found);
    loop {
        match step {
            Step::Execute(current) => {
                let report = execute(current.index);
                let c = &commands[current.index];
                let summary = p.run_parallel(action.title(), c, vec![report.result], "1ns");
                step = current.executed(p, Ok(summary.failures));
            }
            Step::Finish(result) => return p.run(result).status,
        }
    }
}

fn files() -> Vec<String> {
    vec!["src/main.rs".to_string(), "src/module.rs".to_string()]
}

#[test]
fn new() {
    for name in CONFIG_FILE_NAMES {
        let there = [path(&["project", name])];
        let p = settings(&["precious", "tidy", "--all"], &["project"], &there).unwrap();
        assert_eq!(p.chars, fun_chars());
        assert!(!p.quiet);

        let is_there = |p: &FilePath| there.contains(p);
        let config_file = Precious::config_file(None, &p.project_root, &is_there);
        let expect_config_file = p.project_root.join(&name.as_bytes().to_vec());
        assert_eq!(config_file, expect_config_file);
        assert_eq!(p.config_file, expect_config_file);
    }
}

#[test]
fn new_with_ascii_flag() {
    let p = in_project(&["precious", "--ascii", "tidy", "--all"]);
    assert_eq!(p.chars, boring_chars());
}

#[test]
fn new_with_config_path() {
    let words = ["precious", "--config", DEFAULT_CONFIG_FILE_NAME, "tidy", "--all"];
    let config = app(&words).config;
    let p = in_project(&words);

    let is_there = |_: &FilePath| false;
    let config_file = Precious::config_file(config.as_ref(), &p.project_root, &is_there);
    let expect_config_file = p.project_root.join(&DEFAULT_CONFIG_FILE_NAME.as_bytes().to_vec());
    assert_eq!(config_file, expect_config_file);
    assert_eq!(p.config_file, expect_config_file);
    assert_eq!(p.project_root, path(&["project"]));
}

#[test]
fn set_root_prefers_config_file() {
    let src_dir = path(&["project", "src"]);
    let there = [
        path(&["project", ".git"]),
        src_dir.join(&DEFAULT_CONFIG_FILE_NAME.as_bytes().to_vec()),
    ];
    let words = ["precious", "--quiet", "tidy", "--all"];
    let p = settings(&words, &["project", "src"], &there).unwrap();
    assert_eq!(p.project_root, src_dir);
}

#[test]
fn tidy_succeeds() {
    let p = in_project(&["precious", "--quiet", "tidy", "--all"]);
    let commands = [command("precious")];
    let status = run(&p, &commands, Ok(true), &mut |i| {
        p.run_one_tidier(&files(), &commands[i], Ok(Some(TidyOutcome::Unchanged)))
    });
    assert_eq!(status, 0);
}

#[test]
fn tidy_fails() {
    let p = in_project(&["precious", "--quiet", "tidy", "--all"]);
    let commands = [command("false")];
    let status = run(&p, &commands, Ok(true), &mut |i| {
        p.run_one_tidier(&files(), &commands[i], Err("unexpected exit code 1".to_string()))
    });
    assert_eq!(status, 1);
}

#[test]
fn lint_succeeds() {
    let p = in_project(&["precious", "--quiet", "lint", "--all"]);
    let commands = [command("true")];
    let status = run(&p, &commands, Ok(true), &mut |i| {
        let clean = LintOutcome { ok: true, stdout: None, stderr: None };
        p.run_one_linter(&files(), &commands[i], Ok(Some(clean)), &None)
    });
    assert_eq!(status, 0);
}

#[test]
fn one_command_given() {
    let p = in_project(&["precious", "--quiet", "lint", "--command", "rustfmt", "--all"]);
    let commands: Vec<Command> =
        [command("rustfmt")].into_iter().filter(|c| p.command.as_ref() == Some(&c.name)).collect();
    let status = run(&p, &commands, Ok(true), &mut |i| {
        let clean = LintOutcome { ok: true, stdout: None, stderr: None };
        p.run_one_linter(&files(), &commands[i], Ok(Some(clean)), &None)
    });
    assert_eq!(status, 0);
}

#[test]
fn one_command_given_which_does_not_exist() {
    let p = in_project(&["precious", "--quiet", "lint", "--command", "no-such-command", "--all"]);
    let commands: Vec<Command> =
        [command("rustfmt")].into_iter().filter(|c| p.command.as_ref() == Some(&c.name)).collect();
    let status = run(&p, &commands, Ok(true), &mut |_| unreachable!());
    assert_eq!(status, 1);
}

#[test]
fn command_order_is_preserved_when_running() {
    let p = in_project(&["precious", "--quiet", "tidy", "-a"]);
    let commands = [
        command("perl-replace-a-with-b"),
        command("perl-replace-a-with-c"),
        command("perl-replace-a-with-d"),
    ];
    let test_replace = vec!["test.replace".to_string()];
    let mut content = "The letter A".to_string();
    let mut executed = vec![];
    let status = run(&p, &commands, Ok(true), &mut |i| {
        executed.push(i);
        let place = content.to_lowercase().find('a');
        let outcome = match place {
            Some(at) => {
                content.replace_range(at..at + 1, ["b", "c", "d"][i]);
                TidyOutcome::Changed
            }
            None => TidyOutcome::Unchanged,
        };
        p.run_one_tidier(&test_replace, &commands[i], Ok(Some(outcome)))
    });
    assert_eq!(status, 0);
    assert_eq!(content, "The letter b".to_string());
    assert_eq!(executed, vec![0, 1, 2]);
}

#[test]
fn a_flag_selects_the_mode_before_paths_do() {
    let mode = |words: &[&str]| Precious::mode(&app(words));
    assert_eq!(mode(&["precious", "tidy", "--all", "--git", "a"]), Ok(Mode::All));
    assert_eq!(mode(&["precious", "tidy", "--git", "--staged"]), Ok(Mode::GitModified));
    assert_eq!(
        mode(&["precious", "lint", "--staged", "--staged-with-stash"]),
        Ok(Mode::GitStaged)
    );
    assert_eq!(mode(&["precious", "lint", "--staged-with-stash"]), Ok(Mode::GitStagedWithStash));
    assert_eq!(mode(&["precious", "lint", "main.rs", "module.rs"]), Ok(Mode::FromCli));
    assert_eq!(mode(&["precious", "lint"]), Err(PreciousError::NoModeOrPathsInCliArgs));
}

#[test]
fn the_mode_is_settled_before_the_root() {
    assert_eq!(
        settings(&["precious", "lint"], &["project"], &[]),
        Err(PreciousError::NoModeOrPathsInCliArgs)
    );
    assert_eq!(
        settings(&["precious", "lint", "--all"], &["project"], &[]),
        Err(PreciousError::CannotFindRoot { cwd: "/project".to_string() })
    );
}

#[test]
fn settings_follow_the_command_line() {
    let mut asked = app(&["precious", "--quiet", "lint", "--command", "rustfmt", "main.rs"]);
    asked.jobs = 7;
    let there = [path(&[".precious.toml"])];
    let is_there = |p: &FilePath| there.contains(p);
    let p = Precious::new(asked, &given(&[]), &vcs_dirs(), &is_there).unwrap();
    assert!(p.quiet);
    assert!(p.should_lint);
    assert_eq!(p.jobs, 7);
    assert_eq!(p.command, Some("rustfmt".to_string()));
    assert_eq!(p.paths, vec!["main.rs".to_string()]);
    assert_eq!(p.mode, Mode::FromCli);
    assert_eq!(p.cwd, path(&[]));
    assert_eq!(p.config_file, path(&[".precious.toml"]));
}

#[test]
fn one_failing_linter_among_many_gives_status_one() {
    let p = in_project(&["precious", "--quiet", "lint", "--all"]);
    let commands = [command("a"), command("b"), command("c")];
    let mut seen = vec![];
    let status = run(&p, &commands, Ok(true), &mut |i| {
        seen.push(i);
        let lo = LintOutcome { ok: i != 1, stdout: None, stderr: None };
        p.run_one_linter(&files(), &commands[i], Ok(Some(lo)), &None)
    });
    assert_eq!(status, 1);
    assert_eq!(seen, vec![0, 1, 2]);
}

#[test]
fn a_run_without_files_or_with_a_failed_search_executes_nothing() {
    let p = in_project(&["precious", "lint", "--all"]);
    let commands = [command("a")];
    assert_eq!(run(&p, &commands, Ok(false), &mut |_| unreachable!()), 0);
    assert_eq!(run(&p, &commands, Err("no".to_string()), &mut |_| unreachable!()), 1);
}

#[test]
fn a_command_that_does_not_apply_counts_for_nothing() {
    let p = in_project(&["precious", "lint", "--all"]);
    let results: Vec<SetResult> = vec![
        None,
        Some(Ok(())),
        Some(Err(ActionFailure {
            error: "e".to_string(),
            config_key: "k".to_string(),
            paths: vec![],
        })),
    ];
    let summary = p.run_parallel("Linting", &command("rustfmt"), results, "1.00s");
    assert_eq!(
        summary.timing,
        Some("Linting with rustfmt on 2 paths, elapsed time = 1.00s".to_string())
    );
    assert_eq!(summary.failures.unwrap().len(), 1);

    let one = p.run_parallel("Tidying", &command("rustfmt"), vec![Some(Ok(()))], "24ns");
    assert_eq!(
        one.timing,
        Some("Tidying with rustfmt on 1 path, elapsed time = 24ns".to_string())
    );
    assert_eq!(one.failures, None);

    let none = p.run_parallel("Tidying", &command("rustfmt"), vec![None, None], "24ns");
    assert_eq!(none.timing, None);
    assert_eq!(none.failures, None);
}
