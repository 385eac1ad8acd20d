//! The settings of a run, drawn from the command line and the file system.
use crate::chars::{boring, boring_chars, boring_chars_are_ascii, fun, fun_chars, Chars};
use crate::cli::{App, CommonArgs, Mode, Subcommand};
use crate::error::{PreciousError, Problem};
use crate::exit::optional;
use crate::path::{FilePath, GivenPath, Part};
use crate::search::{
    a_named_config_file_makes_the_root, all_inside, config_file_names, found_or_first, names,
    root_outcome, the_plain_name_is_preferred, the_root_is_the_nearest,
};
use crate::text::{a_list_of_strings_is_read_one_by_one, texts};
use vstd::prelude::*;
use vstd::string::*;

verus! {

/// The settings of a run.
#[derive(Debug, PartialEq, Eq)]
pub struct Precious {
    /// How the paths to work on are selected.
    pub mode: Mode,
    /// The directory that the config speaks of.
    pub project_root: FilePath,
    /// The directory that the run was started in.
    pub cwd: FilePath,
    /// The config file to load.
    pub config_file: FilePath,
    /// The one command to run, where only one is to run.
    pub command: Option<String>,
    /// The symbols that open the lines of the output.
    pub chars: Chars,
    /// Suppress most output.
    pub quiet: bool,
    /// How many jobs run at a time; 0 means one per core.
    pub jobs: usize,
    /// Lint, rather than tidy.
    pub should_lint: bool,
    /// The paths that were named on the command line, as text.
    pub paths: Vec<String>,
}

impl Precious {
    /// How the paths to work on are selected.
    pub fn mode(app: &App) -> (res: Result<Mode, PreciousError>)
        ensures
            match res {
                Ok(mode) => app.subcommand.args().selection() == Some(mode),
                Err(e) => app.subcommand.args().selection() is None && e@
                    == Problem::NoModeOrPathsInCliArgs,
            },
            ({
                let args = match app.subcommand {
                    Subcommand::Lint(a) => a,
                    Subcommand::Tidy(a) => a,
                };
                let no_flag = !args.all && !args.git && !args.staged && !args.staged_with_stash;
                &&& res is Ok <==> !no_flag || args.paths@.len() > 0
                &&& res matches Ok(mode) ==> {
                    &&& mode == Mode::All <==> args.all
                    &&& mode == Mode::GitModified <==> args.git && !args.all
                    &&& mode == Mode::GitStaged <==> args.staged && !args.all && !args.git
                    &&& mode == Mode::GitStagedWithStash <==> args.staged_with_stash && !args.all
                        && !args.git && !args.staged
                    &&& mode == Mode::FromCli <==> no_flag
                }
            }),
    {
        let common: &CommonArgs = match &app.subcommand {
            Subcommand::Lint(c) => c,
            Subcommand::Tidy(c) => c,
        };
        if common.all {
            return Ok(Mode::All);
        } else if common.git {
            return Ok(Mode::GitModified);
        } else if common.staged {
            return Ok(Mode::GitStaged);
        } else if common.staged_with_stash {
            return Ok(Mode::GitStagedWithStash);
        }
        if common.paths.is_empty() {
            return Err(PreciousError::NoModeOrPathsInCliArgs);
        }
        Ok(Mode::FromCli)
    }

    /// The settings that a command line leads to in the directory `cwd`, where
    /// a call of `is_there` says whether there is something at a path, and a
    /// directory that holds one of `vcs_dirs` is the root of a checkout.
    pub fn new<P: Fn(&FilePath) -> bool>(
        app: App,
        cwd: &GivenPath,
        vcs_dirs: &Vec<Vec<u8>>,
        is_there: &P,
    ) -> (res: Result<Precious, PreciousError>)
        requires
            forall|p: FilePath| call_requires(*is_there, (&p,)),
        ensures
            match res {
                Ok(new) => {
                    &&& new.follows(app, *cwd, names(vcs_dirs@), *is_there)
                    &&& new.cwd@ == cwd.path@
                    &&& new.quiet == app.quiet
                    &&& new.jobs == app.jobs
                    &&& new.should_lint <==> app.subcommand is Lint
                    &&& new.command == match app.subcommand {
                        Subcommand::Lint(a) => a.command,
                        Subcommand::Tidy(a) => a.command,
                    }
                    &&& new.paths == match app.subcommand {
                        Subcommand::Lint(a) => a.paths,
                        Subcommand::Tidy(a) => a.paths,
                    }
                    &&& app.ascii ==> new.chars == boring()
                    &&& !app.ascii ==> new.chars == fun()
                },
                Err(e) => if app.subcommand.args().selection() is None {
                    e@ == Problem::NoModeOrPathsInCliArgs
                } else {
                    root_outcome(*is_there, names(vcs_dirs@), app.config, *cwd, Err(e@))
                },
            },
            ({
                let args = match app.subcommand {
                    Subcommand::Lint(a) => a,
                    Subcommand::Tidy(a) => a,
                };
                !args.all && !args.git && !args.staged && !args.staged_with_stash
                    && args.paths@.len() == 0 ==> res is Err && res->Err_0@
                    == Problem::NoModeOrPathsInCliArgs
            }),
    {
        let c: Chars = if app.ascii {
            boring_chars()
        } else {
            fun_chars()
        };
        let mode: Mode = match Self::mode(&app) {
            Ok(mode) => mode,
            Err(e) => {
                return Err(e);
            },
        };
        let project_root: FilePath = match Self::project_root(
            app.config.as_ref(),
            cwd,
            vcs_dirs,
            is_there,
        ) {
            Ok(root) => root,
            Err(e) => {
                return Err(e);
            },
        };
        let config_file: FilePath = Self::config_file(app.config.as_ref(), &project_root, is_there);
        let quiet: bool = app.quiet;
        let jobs: usize = app.jobs;
        let (should_lint, paths, command): (bool, Vec<String>, Option<String>) =
            match app.subcommand {
            Subcommand::Lint(a) => (true, a.paths, a.command),
            Subcommand::Tidy(a) => (false, a.paths, a.command),
        };
        Ok(
            Precious {
                mode,
                project_root,
                cwd: cwd.path.clone(),
                config_file,
                command,
                chars: c,
                quiet,
                jobs,
                should_lint,
                paths,
            },
        )
    }

    /// These settings can be drawn from the command line `app` in the directory
    /// `cwd`.
    pub open spec fn follows<P: Fn(&FilePath) -> bool>(
        self,
        app: App,
        cwd: GivenPath,
        vcs_dirs: Seq<Seq<u8>>,
        is_there: P,
    ) -> bool {
        let args = app.subcommand.args();
        &&& args.selection() == Some(self.mode)
        &&& root_outcome(is_there, vcs_dirs, app.config, cwd, Ok(self.project_root@))
        &&& self.cwd@ == cwd.path@
        &&& match app.config {
            Some(given) => self.config_file@ == given.path@,
            None => found_or_first(
                is_there,
                all_inside(self.project_root@, config_file_names()),
                self.config_file@,
            ),
        }
        &&& optional(self.command) == optional(args.command)
        &&& self.chars == if app.ascii {
            boring()
        } else {
            fun()
        }
        &&& self.quiet == app.quiet
        &&& self.jobs == app.jobs
        &&& self.should_lint == (app.subcommand is Lint)
        &&& texts(self.paths@) == texts(args.paths@)
    }
}

/// Whoever asks for plain ASCII gets symbols that are.
pub proof fn the_ascii_flag_gives_ascii_symbols<P: Fn(&FilePath) -> bool>(
    p: Precious,
    app: App,
    cwd: GivenPath,
    vcs_dirs: Seq<Seq<u8>>,
    is_there: P,
)
    requires
        p.follows(app, cwd, vcs_dirs, is_there),
        app.ascii,
    ensures
        p.chars.all_ascii(),
{
    boring_chars_are_ascii();
}

/// Where the paths are to come from the command line, it names at least one.
pub proof fn cli_mode_has_paths<P: Fn(&FilePath) -> bool>(
    p: Precious,
    app: App,
    cwd: GivenPath,
    vcs_dirs: Seq<Seq<u8>>,
    is_there: P,
)
    requires
        p.follows(app, cwd, vcs_dirs, is_there),
        p.mode == Mode::FromCli,
    ensures
        p.paths@.len() > 0,
{
    assert(texts(p.paths@).len() == p.paths@.len());
}

/// The settings keep what was asked for, each for itself: the directory in
/// which the run was started, whatever the project root is, the flags, the
/// number of jobs, the action, the one command and all the paths.
pub proof fn the_settings_keep_what_was_asked<P: Fn(&FilePath) -> bool>(
    p: Precious,
    app: App,
    cwd: GivenPath,
    vcs_dirs: Seq<Seq<u8>>,
    is_there: P,
)
    requires
        p.follows(app, cwd, vcs_dirs, is_there),
    ensures
        p.cwd@ == cwd.path@,
        p.project_root@ != cwd.path@ ==> p.cwd@ != p.project_root@,
        p.quiet == app.quiet,
        p.jobs == app.jobs,
        p.should_lint <==> app.subcommand is Lint,
        p.chars == if app.ascii {
            boring()
        } else {
            fun()
        },
        app.config is Some ==> p.config_file@ == app.config->0.path@,
        ({
            let args = match app.subcommand {
                Subcommand::Lint(a) => a,
                Subcommand::Tidy(a) => a,
            };
            &&& p.mode == Mode::All <==> args.all
            &&& p.mode == Mode::GitModified <==> args.git && !args.all
            &&& p.mode == Mode::GitStaged <==> args.staged && !args.all && !args.git
            &&& p.mode == Mode::GitStagedWithStash <==> args.staged_with_stash && !args.all
                && !args.git && !args.staged
            &&& p.command is Some <==> args.command is Some
            &&& p.command is Some ==> p.command->0@ == args.command->0@
            &&& p.paths@.len() == args.paths@.len()
            &&& forall|i: int| 0 <= i < p.paths@.len() ==> (#[trigger] p.paths@[i])@ == args.paths@[i]@
        }),
{
    let args = app.subcommand.args();
    a_list_of_strings_is_read_one_by_one(p.paths@);
    a_list_of_strings_is_read_one_by_one(args.paths@);
    assert(p.paths@.len() == texts(args.paths@).len());
    assert forall|i: int| 0 <= i < p.paths@.len() implies (#[trigger] p.paths@[i])@
        == args.paths@[i]@ by {
        assert(texts(p.paths@)[i] == texts(args.paths@)[i]);
    }
}

/// Two command lines that differ in nothing but the subcommand lead to the same
/// settings but for the action.
pub proof fn both_subcommands_are_set_up_alike<P: Fn(&FilePath) -> bool>(
    p: Precious,
    app: App,
    args: CommonArgs,
    cwd: GivenPath,
    vcs_dirs: Seq<Seq<u8>>,
    is_there: P,
)
    requires
        p.follows(
            App { subcommand: Subcommand::Lint(args), ..app },
            cwd,
            vcs_dirs,
            is_there,
        ),
    ensures
        p.should_lint,
        (Precious { should_lint: false, ..p }).follows(
            App { subcommand: Subcommand::Tidy(args), ..app },
            cwd,
            vcs_dirs,
            is_there,
        ),
{
}


/// Without a config file that was named, the project root is the directory of
/// the run where that holds a config file, and otherwise a directory on the
/// way up that holds one of the marks; and the config file is one of the two
/// usual names in the root, the plain one unless only the other is there.
pub proof fn the_settings_point_to_what_is_there<P: Fn(&FilePath) -> bool>(
    p: Precious,
    app: App,
    cwd: GivenPath,
    vcs_dirs: Seq<Seq<u8>>,
    is_there: P,
    files: Set<Seq<Part>>,
)
    requires
        p.follows(app, cwd, vcs_dirs, is_there),
        app.config is None,
        forall|path: FilePath, answer: bool| #[trigger]
            call_ensures(is_there, (&path,), answer) ==> answer == files.contains(path@),
    ensures
        ({
            let dir = cwd.path@;
            let root = p.project_root@;
            let plain = Part::Normal("precious.toml".spec_bytes());
            let hidden = Part::Normal(".precious.toml".spec_bytes());
            let configured = files.contains(dir.push(plain)) || files.contains(dir.push(hidden));
            &&& configured ==> root == dir
            &&& !configured ==> root.is_prefix_of(dir) && exists|v: int|
                0 <= v < vcs_dirs.len() && files.contains(
                    root.push(Part::Normal(#[trigger] vcs_dirs[v])),
                )
            &&& !configured ==> forall|n: int, v: int|
                root.len() < n <= dir.len() && 0 <= v < vcs_dirs.len() ==> !files.contains(
                    #[trigger] dir.take(n).push(Part::Normal(vcs_dirs[v])),
                )
            &&& p.config_file@ == if !files.contains(root.push(plain)) && files.contains(
                root.push(hidden),
            ) {
                root.push(hidden)
            } else {
                root.push(plain)
            }
        }),
{
    the_root_is_the_nearest(is_there, files, vcs_dirs, cwd, Ok(p.project_root@));
    the_plain_name_is_preferred(is_there, files, p.project_root@, p.config_file@);
}

/// With a config file that was named, the project root is its directory,
/// wherever the run was started.
pub proof fn a_named_config_file_sets_root_and_file<P: Fn(&FilePath) -> bool>(
    p: Precious,
    app: App,
    cwd: GivenPath,
    vcs_dirs: Seq<Seq<u8>>,
    is_there: P,
)
    requires
        p.follows(app, cwd, vcs_dirs, is_there),
        app.config is Some,
    ensures
        p.config_file@ == app.config->0.path@,
        p.config_file@.len() > 0,
        p.project_root@.push(p.config_file@.last()) == p.config_file@,
{
    a_named_config_file_makes_the_root(
        is_there,
        vcs_dirs,
        app.config->0,
        cwd,
        Ok(p.project_root@),
    );
}

} // verus!
