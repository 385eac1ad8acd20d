//! What the command line asks for.
use crate::logger::{Color, LevelColors, LevelFilter, LoggerSettings};
use crate::path::GivenPath;
use vstd::prelude::*;

verus! {

/// The whole command line.
#[derive(Debug, PartialEq, Eq)]
pub struct App {
    /// The config file, where one was named.
    pub config: Option<GivenPath>,
    /// How many jobs run at a time; 0 means one per core.
    pub jobs: usize,
    /// Plain ASCII in place of Unicode symbols.
    pub ascii: bool,
    /// Suppress most output.
    pub quiet: bool,
    /// Verbose output.
    pub verbose: bool,
    /// Debugging output.
    pub debug: bool,
    /// Tracing output.
    pub trace: bool,
    /// What to do.
    pub subcommand: Subcommand,
}

/// What to do with the selected paths.
#[derive(Debug, PartialEq, Eq)]
pub enum Subcommand {
    Lint(CommonArgs),
    Tidy(CommonArgs),
}

/// What both subcommands take.
#[derive(Debug, PartialEq, Eq)]
pub struct CommonArgs {
    /// The one command to run, where only one is to run.
    pub command: Option<String>,
    /// Everything in the current directory and below.
    pub all: bool,
    /// What has been modified according to git.
    pub git: bool,
    /// What is staged for a git commit.
    pub staged: bool,
    /// What is staged, with unstaged content stashed first.
    pub staged_with_stash: bool,
    /// The paths that were named, as text.
    pub paths: Vec<String>,
}

/// How the paths to work on are selected.
#[derive(Clone, Copy, Debug, PartialEq, Eq, Structural)]
pub enum Mode {
    FromCli,
    All,
    GitModified,
    GitStaged,
    GitStagedWithStash,
}

impl Subcommand {
    /// The arguments of the subcommand.
    pub open spec fn args(self) -> CommonArgs {
        match self {
            Subcommand::Lint(args) => args,
            Subcommand::Tidy(args) => args,
        }
    }
}

impl CommonArgs {
    /// The selection that the arguments ask for, if they ask for any. Where
    /// several flags are set the first of `--all`, `--git`, `--staged` and
    /// `--staged-with-stash` counts, and a flag counts before named paths.
    pub open spec fn selection(self) -> Option<Mode> {
        if self.all {
            Some(Mode::All)
        } else if self.git {
            Some(Mode::GitModified)
        } else if self.staged {
            Some(Mode::GitStaged)
        } else if self.staged_with_stash {
            Some(Mode::GitStagedWithStash)
        } else if self.paths@.len() > 0 {
            Some(Mode::FromCli)
        } else {
            None
        }
    }
}

impl App {
    /// The least serious level that is logged: the most talkative flag counts.
    pub open spec fn log_level(self) -> LevelFilter {
        if self.trace {
            LevelFilter::Trace
        } else if self.debug {
            LevelFilter::Debug
        } else if self.verbose {
            LevelFilter::Info
        } else {
            LevelFilter::Warn
        }
    }

    /// The settings of the logger that the command line asks for. The records
    /// of `globset` below the level `Info` are never logged.
    pub fn init_logger(&self) -> (res: LoggerSettings)
        ensures
            res.level == self.log_level(),
            res.exception.0@ == "globset"@,
            res.exception.1 == LevelFilter::Info,
            res.line_colors == (LevelColors {
                error: Color::Red,
                warn: Color::Yellow,
                info: Color::BrightBlack,
                debug: Color::BrightBlack,
                trace: Color::BrightBlack,
            }),
            res.level_colors == (LevelColors {
                error: Color::Red,
                warn: Color::Yellow,
                info: Color::Green,
                debug: Color::Black,
                trace: Color::BrightBlack,
            }),
    {
        let line_colors: LevelColors = LevelColors {
            error: Color::Red,
            warn: Color::Yellow,
            info: Color::BrightBlack,
            debug: Color::BrightBlack,
            trace: Color::BrightBlack,
        };
        let level: LevelFilter = if self.trace {
            LevelFilter::Trace
        } else if self.debug {
            LevelFilter::Debug
        } else if self.verbose {
            LevelFilter::Info
        } else {
            LevelFilter::Warn
        };
        let level_colors: LevelColors = LevelColors {
            error: line_colors.error,
            warn: line_colors.warn,
            info: Color::Green,
            debug: Color::Black,
            trace: line_colors.trace,
        };
        LoggerSettings { level, exception: ("globset", LevelFilter::Info), line_colors, level_colors }
    }
}

/// Each mode is selected by its own flag alone: `--all` counts before all
/// else, then `--git`, then `--staged`, then `--staged-with-stash`, whatever
/// paths are named; named paths count where no flag is set.
pub proof fn each_mode_has_its_flag(args: CommonArgs)
    ensures
        args.selection() == Some(Mode::All) <==> args.all,
        args.selection() == Some(Mode::GitModified) <==> args.git && !args.all,
        args.selection() == Some(Mode::GitStaged) <==> args.staged && !args.all && !args.git,
        args.selection() == Some(Mode::GitStagedWithStash) <==> args.staged_with_stash && !args.all
            && !args.git && !args.staged,
        args.selection() == Some(Mode::FromCli) <==> args.paths@.len() > 0 && !args.all && !args.git
            && !args.staged && !args.staged_with_stash,
        args.selection() is None <==> args.paths@.len() == 0 && !args.all && !args.git
            && !args.staged && !args.staged_with_stash,
{
}

/// Two command lines with the same flags, of which both or neither name paths,
/// select in the same mode, whatever else they ask for.
pub proof fn the_mode_depends_on_flags_and_paths_alone(a: CommonArgs, b: CommonArgs)
    requires
        a.all == b.all,
        a.git == b.git,
        a.staged == b.staged,
        a.staged_with_stash == b.staged_with_stash,
        a.paths@.len() > 0 <==> b.paths@.len() > 0,
    ensures
        a.selection() == b.selection(),
{
}

/// Both subcommands have the arguments that they were given.
pub proof fn a_subcommand_has_its_arguments(args: CommonArgs)
    ensures
        Subcommand::Lint(args).args() == args,
        Subcommand::Tidy(args).args() == args,
{
}

/// Each log level has its own flag, and the more talkative one counts.
pub proof fn each_log_level_has_its_flag(app: App)
    ensures
        app.log_level() == LevelFilter::Trace <==> app.trace,
        app.log_level() == LevelFilter::Debug <==> app.debug && !app.trace,
        app.log_level() == LevelFilter::Info <==> app.verbose && !app.debug && !app.trace,
        app.log_level() == LevelFilter::Warn <==> !app.verbose && !app.debug && !app.trace,
{
}

} // verus!
