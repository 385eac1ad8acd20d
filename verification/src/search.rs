//! Where the project is and where its config file lies.
use crate::cli::App;
use crate::error::{PreciousError, Problem};
use crate::path::{
    a_parent_lacks_the_last_component, ancestors, ancestors_are_prefixes, inside, parent,
    parent_of_inside, FilePath, GivenPath, Part,
};
use crate::precious::Precious;
use vstd::prelude::*;
use vstd::string::*;

verus! {

/// The names that a config file may have; the first is preferred.
pub open spec fn config_file_names() -> Seq<Seq<u8>> {
    seq!["precious.toml".spec_bytes(), ".precious.toml".spec_bytes()]
}

/// What each name of a list says.
pub open spec fn names(list: Seq<Vec<u8>>) -> Seq<Seq<u8>> {
    list.map_values(|n: Vec<u8>| n@)
}

/// What each path of a list says.
pub open spec fn paths(list: Seq<FilePath>) -> Seq<Seq<Part>> {
    list.map_values(|p: FilePath| p@)
}

/// `list` in the directory `dir`.
pub open spec fn all_inside(dir: Seq<Part>, list: Seq<Seq<u8>>) -> Seq<Seq<Part>> {
    list.map_values(|name: Seq<u8>| inside(dir, name))
}

/// A call of `pred` on `path` can return `answer`.
pub open spec fn answers<P: Fn(&FilePath) -> bool>(pred: P, path: Seq<Part>, answer: bool) -> bool {
    exists|p: FilePath| p@ == path && #[trigger] call_ensures(pred, (&p,), answer)
}

/// `pred`, asked about the candidates in their order, can say no up to the one
/// at `i` and yes there, and that is `path`.
pub open spec fn found_at<P: Fn(&FilePath) -> bool>(
    pred: P,
    candidates: Seq<Seq<Part>>,
    path: Seq<Part>,
    i: int,
) -> bool {
    &&& 0 <= i < candidates.len()
    &&& path == candidates[i]
    &&& answers(pred, candidates[i], true)
    &&& forall|j: int| 0 <= j < i ==> answers(pred, #[trigger] candidates[j], false)
}

/// `path` can be the first candidate of which `pred` holds; or `pred` can say
/// no to all of them, and `path` is the first.
pub open spec fn found_or_first<P: Fn(&FilePath) -> bool>(
    pred: P,
    candidates: Seq<Seq<Part>>,
    path: Seq<Part>,
) -> bool {
    ||| exists|i: int| found_at(pred, candidates, path, i)
    ||| {
        &&& path == candidates[0]
        &&& forall|j: int|
            0 <= j < candidates.len() ==> answers(pred, #[trigger] candidates[j], false)
    }
}

/// `is_there`, asked whether there is a config file in `dir`, can answer `answer`.
pub open spec fn config_file_answer<P: Fn(&FilePath) -> bool>(
    is_there: P,
    dir: Seq<Part>,
    answer: bool,
) -> bool {
    exists|file: Seq<Part>| #[trigger]
        found_or_first(is_there, all_inside(dir, config_file_names()), file) && answers(
            is_there,
            file,
            answer,
        )
}

/// `is_there`, asked whether one of `vcs_dirs` is in `dir`, can answer `answer`.
pub open spec fn checkout_root_answer<P: Fn(&FilePath) -> bool>(
    is_there: P,
    vcs_dirs: Seq<Seq<u8>>,
    dir: Seq<Part>,
    answer: bool,
) -> bool {
    if answer {
        exists|i: int|
            {
                &&& 0 <= i < vcs_dirs.len()
                &&& answers(is_there, inside(dir, #[trigger] vcs_dirs[i]), true)
                &&& forall|j: int|
                    0 <= j < i ==> answers(is_there, inside(dir, #[trigger] vcs_dirs[j]), false)
            }
    } else {
        forall|j: int|
            0 <= j < vcs_dirs.len() ==> answers(is_there, inside(dir, #[trigger] vcs_dirs[j]), false)
    }
}

/// What a search for the project root can lead to, where a call of `is_there`
/// says whether there is something at a path. The parent of a config file that
/// was named is the root. Without one the directory `cwd` is, if it holds a
/// config file, and otherwise the nearest of its ancestors that holds one of
/// `vcs_dirs`.
pub open spec fn root_outcome<P: Fn(&FilePath) -> bool>(
    is_there: P,
    vcs_dirs: Seq<Seq<u8>>,
    file: Option<GivenPath>,
    cwd: GivenPath,
    outcome: Result<Seq<Part>, Problem>,
) -> bool {
    match file {
        Some(file) => match parent(file.path@) {
            Some(dir) => outcome == Ok::<_, Problem>(dir),
            None => outcome == Err::<Seq<Part>, _>(
                Problem::ConfigFileHasNoParent { file: file.text@ },
            ),
        },
        None => match outcome {
            Ok(root) => {
                ||| config_file_answer(is_there, cwd.path@, true) && root == cwd.path@
                ||| config_file_answer(is_there, cwd.path@, false) && exists|k: int|
                    nearest_checkout_root(is_there, vcs_dirs, ancestors(cwd.path@), k) && root
                        == #[trigger] ancestors(cwd.path@)[k]
            },
            Err(problem) => {
                &&& config_file_answer(is_there, cwd.path@, false)
                &&& forall|j: int|
                    0 <= j < ancestors(cwd.path@).len() ==> checkout_root_answer(
                        is_there,
                        vcs_dirs,
                        #[trigger] ancestors(cwd.path@)[j],
                        false,
                    )
                &&& problem == Problem::CannotFindRoot { cwd: cwd.text@ }
            },
        },
    }
}

/// The first of `dirs` that can be taken for a checkout root is the one at `k`.
pub open spec fn nearest_checkout_root<P: Fn(&FilePath) -> bool>(
    is_there: P,
    vcs_dirs: Seq<Seq<u8>>,
    dirs: Seq<Seq<Part>>,
    k: int,
) -> bool {
    &&& 0 <= k < dirs.len()
    &&& checkout_root_answer(is_there, vcs_dirs, dirs[k], true)
    &&& forall|j: int|
        0 <= j < k ==> checkout_root_answer(is_there, vcs_dirs, #[trigger] dirs[j], false)
}

impl Precious {
    /// The first candidate of which `pred` holds, or else the first of all.
    pub fn find_or_first<P: Fn(&FilePath) -> bool>(candidates: &Vec<FilePath>, pred: &P) -> (res:
        FilePath)
        requires
            candidates@.len() > 0,
            forall|p: FilePath| call_requires(*pred, (&p,)),
        ensures
            found_or_first(*pred, paths(candidates@), res@),
    {
        let mut i: usize = 0;
        while i < candidates.len()
            invariant
                i <= candidates.len(),
                forall|p: FilePath| call_requires(*pred, (&p,)),
                forall|j: int|
                    0 <= j < i ==> answers(*pred, #[trigger] paths(candidates@)[j], false),
            decreases candidates.len() - i,
        {
            if pred(&candidates[i]) {
                assert(answers(*pred, paths(candidates@)[i as int], true));
                let res: FilePath = candidates[i].clone();
                assert(found_at(*pred, paths(candidates@), res@, i as int));
                return res;
            }
            assert(answers(*pred, paths(candidates@)[i as int], false));
            i = i + 1;
        }
        candidates[0].clone()
    }

    /// The config file of the directory `dir`: the first of the usual names
    /// that is there, or else the first of the usual names.
    pub fn default_config_file<P: Fn(&FilePath) -> bool>(dir: &FilePath, is_there: &P) -> (res:
        FilePath)
        requires
            forall|p: FilePath| call_requires(*is_there, (&p,)),
        ensures
            found_or_first(*is_there, all_inside(dir@, config_file_names()), res@),
    {
        let mut candidates: Vec<FilePath> = Vec::new();
        candidates.push(dir.join(&"precious.toml".as_bytes_vec()));
        candidates.push(dir.join(&".precious.toml".as_bytes_vec()));
        assert(paths(candidates@) =~= all_inside(dir@, config_file_names()));
        Self::find_or_first(&candidates, is_there)
    }

    /// Whether the directory `dir` holds a config file.
    pub fn has_config_file<P: Fn(&FilePath) -> bool>(dir: &FilePath, is_there: &P) -> (res: bool)
        requires
            forall|p: FilePath| call_requires(*is_there, (&p,)),
        ensures
            config_file_answer(*is_there, dir@, res),
    {
        let file: FilePath = Self::default_config_file(dir, is_there);
        is_there(&file)
    }

    /// The config file to load: the one that was named, or else that of `dir`.
    pub fn config_file<P: Fn(&FilePath) -> bool>(
        file: Option<&GivenPath>,
        dir: &FilePath,
        is_there: &P,
    ) -> (res: FilePath)
        requires
            forall|p: FilePath| call_requires(*is_there, (&p,)),
        ensures
            match file {
                Some(given) => res@ == given.path@,
                None => found_or_first(*is_there, all_inside(dir@, config_file_names()), res@),
            },
    {
        match file {
            Some(given) => given.path.clone(),
            None => Self::default_config_file(dir, is_there),
        }
    }

    /// Whether the directory `dir` holds one of the directories that mark the
    /// root of a checkout.
    pub fn is_checkout_root<P: Fn(&FilePath) -> bool>(
        dir: &FilePath,
        vcs_dirs: &Vec<Vec<u8>>,
        is_there: &P,
    ) -> (res: bool)
        requires
            forall|p: FilePath| call_requires(*is_there, (&p,)),
        ensures
            checkout_root_answer(*is_there, names(vcs_dirs@), dir@, res),
    {
        let mut i: usize = 0;
        while i < vcs_dirs.len()
            invariant
                i <= vcs_dirs.len(),
                forall|p: FilePath| call_requires(*is_there, (&p,)),
                forall|j: int|
                    0 <= j < i ==> answers(
                        *is_there,
                        inside(dir@, #[trigger] names(vcs_dirs@)[j]),
                        false,
                    ),
            decreases vcs_dirs.len() - i,
        {
            let marker: FilePath = dir.join(&vcs_dirs[i]);
            if is_there(&marker) {
                assert(answers(*is_there, inside(dir@, names(vcs_dirs@)[i as int]), true));
                return true;
            }
            assert(answers(*is_there, inside(dir@, names(vcs_dirs@)[i as int]), false));
            i = i + 1;
        }
        false
    }

    /// The root of the project.
    pub fn project_root<P: Fn(&FilePath) -> bool>(
        file: Option<&GivenPath>,
        cwd: &GivenPath,
        vcs_dirs: &Vec<Vec<u8>>,
        is_there: &P,
    ) -> (res: Result<FilePath, PreciousError>)
        requires
            forall|p: FilePath| call_requires(*is_there, (&p,)),
        ensures
            root_outcome(
                *is_there,
                names(vcs_dirs@),
                match file {
                    Some(given) => Some(*given),
                    None => None,
                },
                *cwd,
                match res {
                    Ok(root) => Ok(root@),
                    Err(e) => Err(e@),
                },
            ),
    {
        if let Some(file) = file {
            return match file.path.parent() {
                Some(dir) => Ok(dir),
                None => Err(PreciousError::ConfigFileHasNoParent { file: file.text.clone() }),
            };
        }
        if Self::has_config_file(&cwd.path, is_there) {
            return Ok(cwd.path.clone());
        }
        let mut dir: FilePath = cwd.path.clone();
        let ghost all = ancestors(cwd.path@);
        let ghost mut k: int = 0;
        assert(all.skip(0) =~= all);
        loop
            invariant
                forall|p: FilePath| call_requires(*is_there, (&p,)),
                file is None,
                all == ancestors(cwd.path@),
                0 <= k < all.len(),
                all.skip(k) == ancestors(dir@),
                config_file_answer(*is_there, cwd.path@, false),
                forall|j: int|
                    0 <= j < k ==> checkout_root_answer(
                        *is_there,
                        names(vcs_dirs@),
                        #[trigger] all[j],
                        false,
                    ),
            decreases dir@.len(),
        {
            assert(all[k] == all.skip(k)[0]);
            if Self::is_checkout_root(&dir, vcs_dirs, is_there) {
                assert(nearest_checkout_root(*is_there, names(vcs_dirs@), all, k));
                return Ok(dir);
            }
            match dir.parent() {
                Some(up) => {
                    proof {
                        assert(all.skip(k + 1) =~= all.skip(k).skip(1));
                        assert(all.skip(k).skip(1) =~= ancestors(up@));
                        assert(ancestors(up@).len() > 0);
                        k = k + 1;
                    }
                    dir = up;
                },
                None => {
                    assert(all.skip(k).len() == 1);
                    return Err(PreciousError::CannotFindRoot { cwd: cwd.text.clone() });
                },
            }
        }
    }
}

/// `is_there` tells what is in the file system `files`, and nothing else.
pub open spec fn reads<P: Fn(&FilePath) -> bool>(is_there: P, files: Set<Seq<Part>>) -> bool {
    forall|p: FilePath, answer: bool| #[trigger]
        call_ensures(is_there, (&p,), answer) ==> answer == files.contains(p@)
}

/// The directory `dir` holds a config file.
pub open spec fn holds_config_file(files: Set<Seq<Part>>, dir: Seq<Part>) -> bool {
    exists|i: int|
        0 <= i < config_file_names().len() && files.contains(
            inside(dir, #[trigger] config_file_names()[i]),
        )
}

/// The config file of the directory `dir`.
pub open spec fn config_file_of(files: Set<Seq<Part>>, dir: Seq<Part>) -> Seq<Part> {
    let first = inside(dir, config_file_names()[0]);
    let second = inside(dir, config_file_names()[1]);
    if files.contains(second) && !files.contains(first) {
        second
    } else {
        first
    }
}

/// The directory `dir` holds one of `vcs_dirs`.
pub open spec fn holds_checkout(
    files: Set<Seq<Part>>,
    vcs_dirs: Seq<Seq<u8>>,
    dir: Seq<Part>,
) -> bool {
    exists|i: int|
        0 <= i < vcs_dirs.len() && files.contains(inside(dir, #[trigger] vcs_dirs[i]))
}

/// The nearest of `dir` and its ancestors that is the root of a checkout.
pub open spec fn checkout_above(
    files: Set<Seq<Part>>,
    vcs_dirs: Seq<Seq<u8>>,
    dir: Seq<Part>,
) -> Option<Seq<Part>>
    decreases dir.len(),
{
    if holds_checkout(files, vcs_dirs, dir) {
        Some(dir)
    } else {
        match parent(dir) {
            Some(up) => checkout_above(files, vcs_dirs, up),
            None => None,
        }
    }
}

/// The root of a project in the file system `files`.
pub open spec fn root_of(
    files: Set<Seq<Part>>,
    vcs_dirs: Seq<Seq<u8>>,
    file: Option<GivenPath>,
    cwd: GivenPath,
) -> Result<Seq<Part>, Problem> {
    match file {
        Some(file) => match parent(file.path@) {
            Some(dir) => Ok(dir),
            None => Err(Problem::ConfigFileHasNoParent { file: file.text@ }),
        },
        None => if holds_config_file(files, cwd.path@) {
            Ok(cwd.path@)
        } else {
            match checkout_above(files, vcs_dirs, cwd.path@) {
                Some(root) => Ok(root),
                None => Err(Problem::CannotFindRoot { cwd: cwd.text@ }),
            }
        },
    }
}

/// Where there is one file system to read, a directory has one config file.
pub proof fn one_config_file<P: Fn(&FilePath) -> bool>(
    is_there: P,
    files: Set<Seq<Part>>,
    dir: Seq<Part>,
    file: Seq<Part>,
)
    requires
        reads(is_there, files),
        found_or_first(is_there, all_inside(dir, config_file_names()), file),
    ensures
        file == config_file_of(files, dir),
        files.contains(file) == holds_config_file(files, dir),
{
    let names = config_file_names();
    let candidates = all_inside(dir, names);
    assert(candidates[0] == inside(dir, names[0]));
    assert(candidates[1] == inside(dir, names[1]));
    assert(names.len() == 2 && candidates.len() == 2);
    assert(forall|path: Seq<Part>, answer: bool| #[trigger]
        answers(is_there, path, answer) ==> answer == files.contains(path));
    if exists|i: int| found_at(is_there, candidates, file, i) {
        let i = choose|i: int| found_at(is_there, candidates, file, i);
        assert(files.contains(inside(dir, names[i])));
        if i == 1 {
            assert(answers(is_there, candidates[0], false));
        }
    } else {
        assert(answers(is_there, candidates[0], false));
        assert(answers(is_there, candidates[1], false));
        assert forall|i: int| 0 <= i < names.len() implies !files.contains(
            inside(dir, #[trigger] names[i]),
        ) by {
            assert(i == 0 || i == 1);
        }
    }
}

/// Where there is one file system to read, a directory holds a config file or
/// does not.
pub proof fn one_config_file_answer<P: Fn(&FilePath) -> bool>(
    is_there: P,
    files: Set<Seq<Part>>,
    dir: Seq<Part>,
    answer: bool,
)
    requires
        reads(is_there, files),
        config_file_answer(is_there, dir, answer),
    ensures
        answer == holds_config_file(files, dir),
{
    let file = choose|file: Seq<Part>| #[trigger]
        found_or_first(is_there, all_inside(dir, config_file_names()), file) && answers(
            is_there,
            file,
            answer,
        );
    one_config_file(is_there, files, dir, file);
}

/// Where there is one file system to read, a directory is the root of a
/// checkout or is not.
pub proof fn one_checkout_root_answer<P: Fn(&FilePath) -> bool>(
    is_there: P,
    files: Set<Seq<Part>>,
    vcs_dirs: Seq<Seq<u8>>,
    dir: Seq<Part>,
    answer: bool,
)
    requires
        reads(is_there, files),
        checkout_root_answer(is_there, vcs_dirs, dir, answer),
    ensures
        answer == holds_checkout(files, vcs_dirs, dir),
{
    assert(forall|path: Seq<Part>, answer: bool| #[trigger]
        answers(is_there, path, answer) ==> answer == files.contains(path));
}

/// The search upwards from the ancestor at `k`.
proof fn checkout_above_is_nearest(
    files: Set<Seq<Part>>,
    vcs_dirs: Seq<Seq<u8>>,
    dir: Seq<Part>,
    k: int,
)
    requires
        0 <= k <= ancestors(dir).len(),
        forall|j: int|
            0 <= j < k ==> !holds_checkout(files, vcs_dirs, #[trigger] ancestors(dir)[j]),
        k < ancestors(dir).len() ==> holds_checkout(files, vcs_dirs, ancestors(dir)[k]),
    ensures
        checkout_above(files, vcs_dirs, dir) == if k < ancestors(dir).len() {
            Some(ancestors(dir)[k])
        } else {
            None
        },
    decreases dir.len(),
{
    assert(ancestors(dir)[0] == dir);
    if k > 0 {
        match parent(dir) {
            Some(up) => {
                assert forall|j: int| 0 <= j < k - 1 implies !holds_checkout(
                    files,
                    vcs_dirs,
                    #[trigger] ancestors(up)[j],
                ) by {
                    assert(ancestors(up)[j] == ancestors(dir)[j + 1]);
                }
                if k < ancestors(dir).len() {
                    assert(ancestors(up)[k - 1] == ancestors(dir)[k]);
                }
                checkout_above_is_nearest(files, vcs_dirs, up, k - 1);
            },
            None => {},
        }
    }
}

/// Where there is one file system to read, there is one outcome of the search
/// for the project root.
pub proof fn one_root<P: Fn(&FilePath) -> bool>(
    is_there: P,
    files: Set<Seq<Part>>,
    vcs_dirs: Seq<Seq<u8>>,
    file: Option<GivenPath>,
    cwd: GivenPath,
    outcome: Result<Seq<Part>, Problem>,
)
    requires
        reads(is_there, files),
        root_outcome(is_there, vcs_dirs, file, cwd, outcome),
    ensures
        outcome == root_of(files, vcs_dirs, file, cwd),
{
    if file is None {
        let dir = cwd.path@;
        let all = ancestors(dir);
        if config_file_answer(is_there, dir, true) {
            one_config_file_answer(is_there, files, dir, true);
        }
        if config_file_answer(is_there, dir, false) {
            one_config_file_answer(is_there, files, dir, false);
        }
        assert forall|d: Seq<Part>, answer: bool| #[trigger]
            checkout_root_answer(is_there, vcs_dirs, d, answer) implies answer == holds_checkout(
            files,
            vcs_dirs,
            d,
        ) by {
            one_checkout_root_answer(is_there, files, vcs_dirs, d, answer);
        }
        if !holds_config_file(files, dir) {
            match outcome {
                Ok(root) => {
                    let k = choose|k: int|
                        nearest_checkout_root(is_there, vcs_dirs, all, k) && root
                            == #[trigger] all[k];
                    checkout_above_is_nearest(files, vcs_dirs, dir, k);
                },
                Err(_) => {
                    checkout_above_is_nearest(files, vcs_dirs, dir, all.len() as int);
                },
            }
        }
    }
}

/// Without a config file that was named, the project root is the directory of
/// the search or one of its ancestors.
pub proof fn the_root_is_above<P: Fn(&FilePath) -> bool>(
    is_there: P,
    vcs_dirs: Seq<Seq<u8>>,
    cwd: GivenPath,
    root: Seq<Part>,
)
    requires
        root_outcome(is_there, vcs_dirs, None, cwd, Ok(root)),
    ensures
        ancestors(cwd.path@).contains(root),
        root.is_prefix_of(cwd.path@),
{
    let all = ancestors(cwd.path@);
    assert(all[0] == cwd.path@);
    let k: int = if root == cwd.path@ {
        0
    } else {
        choose|k: int|
            nearest_checkout_root(is_there, vcs_dirs, all, k) && root == #[trigger] all[k]
    };
    assert(all[k] == root);
    ancestors_are_prefixes(cwd.path@, k);
}

/// A directory that holds a config file is the project root for whoever starts
/// there, also in the midst of a checkout.
pub proof fn a_config_file_makes_the_root<P: Fn(&FilePath) -> bool>(
    is_there: P,
    files: Set<Seq<Part>>,
    vcs_dirs: Seq<Seq<u8>>,
    cwd: GivenPath,
    outcome: Result<Seq<Part>, Problem>,
)
    requires
        reads(is_there, files),
        holds_config_file(files, cwd.path@),
        root_outcome(is_there, vcs_dirs, None, cwd, outcome),
    ensures
        outcome == Ok::<_, Problem>(cwd.path@),
{
    one_root(is_there, files, vcs_dirs, None, cwd, outcome);
}

/// The config file lies directly in the project root, whether it was named or
/// not.
pub proof fn the_config_file_is_in_the_root<P: Fn(&FilePath) -> bool>(
    p: Precious,
    app: App,
    cwd: GivenPath,
    vcs_dirs: Seq<Seq<u8>>,
    is_there: P,
)
    requires
        p.follows(app, cwd, vcs_dirs, is_there),
    ensures
        parent(p.config_file@) == Some(p.project_root@),
{
    if app.config is None {
        let root = p.project_root@;
        let names = config_file_names();
        let candidates = all_inside(root, names);
        assert(candidates.len() == names.len() && names.len() > 0);
        if !(exists|i: int| found_at(is_there, candidates, p.config_file@, i)) {
            parent_of_inside(root, names[0]);
        } else {
            let i = choose|i: int| found_at(is_there, candidates, p.config_file@, i);
            parent_of_inside(root, names[i]);
        }
    }
}

/// A list of names is read one by one, and so is a list of paths.
pub proof fn names_and_paths_are_read_one_by_one(list: Seq<Vec<u8>>, files: Seq<FilePath>)
    ensures
        names(list).len() == list.len(),
        forall|i: int| 0 <= i < list.len() ==> #[trigger] names(list)[i] == list[i]@,
        paths(files).len() == files.len(),
        forall|i: int| 0 <= i < files.len() ==> #[trigger] paths(files)[i] == files[i]@,
{
}

/// What is found among candidates is one of them, and none before it is there;
/// where it is not there itself it is the first, and none at all is there.
pub proof fn the_first_that_is_there_is_found<P: Fn(&FilePath) -> bool>(
    pred: P,
    there: Set<Seq<Part>>,
    candidates: Seq<Seq<Part>>,
    path: Seq<Part>,
)
    requires
        forall|p: FilePath, answer: bool| #[trigger]
            call_ensures(pred, (&p,), answer) ==> answer == there.contains(p@),
        candidates.len() > 0,
        found_or_first(pred, candidates, path),
    ensures
        candidates.contains(path),
        there.contains(path) ==> exists|i: int|
            {
                &&& 0 <= i < candidates.len()
                &&& #[trigger] candidates[i] == path
                &&& forall|j: int| 0 <= j < i ==> !there.contains(#[trigger] candidates[j])
            },
        !there.contains(path) ==> path == candidates[0] && forall|j: int|
            0 <= j < candidates.len() ==> !there.contains(#[trigger] candidates[j]),
{
    assert(forall|p: Seq<Part>, answer: bool| #[trigger]
        answers(pred, p, answer) ==> answer == there.contains(p));
    if exists|i: int| found_at(pred, candidates, path, i) {
        let i = choose|i: int| found_at(pred, candidates, path, i);
        assert(candidates[i] == path);
        assert forall|j: int| 0 <= j < i implies !there.contains(#[trigger] candidates[j]) by {
            assert(answers(pred, candidates[j], false));
        }
    } else {
        assert(answers(pred, candidates[0], false));
        assert forall|j: int| 0 <= j < candidates.len() implies !there.contains(
            #[trigger] candidates[j],
        ) by {
            assert(answers(pred, candidates[j], false));
        }
    }
}

/// The config file of a directory is `precious.toml` in it, unless there is
/// none and there is a `.precious.toml`.
pub proof fn the_plain_name_is_preferred<P: Fn(&FilePath) -> bool>(
    is_there: P,
    files: Set<Seq<Part>>,
    dir: Seq<Part>,
    file: Seq<Part>,
)
    requires
        forall|p: FilePath, answer: bool| #[trigger]
            call_ensures(is_there, (&p,), answer) ==> answer == files.contains(p@),
        found_or_first(is_there, all_inside(dir, config_file_names()), file),
    ensures
        ({
            let plain = dir.push(Part::Normal("precious.toml".spec_bytes()));
            let hidden = dir.push(Part::Normal(".precious.toml".spec_bytes()));
            &&& file == plain || file == hidden
            &&& files.contains(plain) ==> file == plain
            &&& !files.contains(plain) && files.contains(hidden) ==> file == hidden
            &&& !files.contains(plain) && !files.contains(hidden) ==> file == plain
        }),
{
    one_config_file(is_there, files, dir, file);
}

/// A directory is taken to hold a config file if and only if one of the two
/// names is there.
pub proof fn either_name_is_a_config_file<P: Fn(&FilePath) -> bool>(
    is_there: P,
    files: Set<Seq<Part>>,
    dir: Seq<Part>,
    answer: bool,
)
    requires
        forall|p: FilePath, answer: bool| #[trigger]
            call_ensures(is_there, (&p,), answer) ==> answer == files.contains(p@),
        config_file_answer(is_there, dir, answer),
    ensures
        answer <==> files.contains(dir.push(Part::Normal("precious.toml".spec_bytes())))
            || files.contains(dir.push(Part::Normal(".precious.toml".spec_bytes()))),
{
    let names = config_file_names();
    assert(names.len() == 2);
    one_config_file_answer(is_there, files, dir, answer);
    assert(inside(dir, names[0]) == dir.push(Part::Normal("precious.toml".spec_bytes())));
    assert(inside(dir, names[1]) == dir.push(Part::Normal(".precious.toml".spec_bytes())));
    if answer {
        let i = choose|i: int|
            0 <= i < names.len() && files.contains(inside(dir, #[trigger] names[i]));
        assert(i == 0 || i == 1);
    }
}

/// A directory is taken for the root of a checkout if and only if one of the
/// marks is in it.
pub proof fn any_mark_makes_a_checkout<P: Fn(&FilePath) -> bool>(
    is_there: P,
    files: Set<Seq<Part>>,
    vcs_dirs: Seq<Seq<u8>>,
    dir: Seq<Part>,
    answer: bool,
)
    requires
        forall|p: FilePath, answer: bool| #[trigger]
            call_ensures(is_there, (&p,), answer) ==> answer == files.contains(p@),
        checkout_root_answer(is_there, vcs_dirs, dir, answer),
    ensures
        answer <==> exists|v: int|
            0 <= v < vcs_dirs.len() && files.contains(dir.push(Part::Normal(#[trigger] vcs_dirs[v]))),
{
    one_checkout_root_answer(is_there, files, vcs_dirs, dir, answer);
    if answer {
        let v = choose|v: int|
            0 <= v < vcs_dirs.len() && files.contains(inside(dir, #[trigger] vcs_dirs[v]));
        assert(files.contains(dir.push(Part::Normal(vcs_dirs[v]))));
    } else {
        assert forall|v: int| 0 <= v < vcs_dirs.len() implies !files.contains(
            dir.push(Part::Normal(#[trigger] vcs_dirs[v])),
        ) by {
            assert(!files.contains(inside(dir, vcs_dirs[v])));
        }
    }
}

/// What the search upwards finds: the longest prefix that holds a mark.
proof fn the_search_upwards_finds_the_nearest(
    files: Set<Seq<Part>>,
    vcs_dirs: Seq<Seq<u8>>,
    dir: Seq<Part>,
)
    ensures
        match checkout_above(files, vcs_dirs, dir) {
            Some(root) => {
                &&& root.is_prefix_of(dir)
                &&& holds_checkout(files, vcs_dirs, root)
                &&& forall|m: int|
                    root.len() <= m < dir.len() ==> !((#[trigger] dir[m]) is Prefix) && !(
                    dir[m] is RootDir)
                &&& forall|n: int|
                    root.len() < n <= dir.len() ==> !holds_checkout(
                        files,
                        vcs_dirs,
                        #[trigger] dir.take(n),
                    )
            },
            None => forall|n: int|
                0 <= n <= dir.len() && (forall|m: int|
                    n <= m < dir.len() ==> !((#[trigger] dir[m]) is Prefix) && !(
                    dir[m] is RootDir)) ==> !holds_checkout(files, vcs_dirs, #[trigger] dir.take(n)),
        },
    decreases dir.len(),
{
    assert(dir.take(dir.len() as int) =~= dir);
    if !holds_checkout(files, vcs_dirs, dir) {
        match parent(dir) {
            Some(up) => {
                the_search_upwards_finds_the_nearest(files, vcs_dirs, up);
                assert(forall|m: int| 0 <= m < up.len() ==> #[trigger] dir[m] == up[m]);
                assert(forall|m: int| 0 <= m < up.len() ==> #[trigger] up[m] == dir[m]);
                assert forall|n: int| 0 <= n < dir.len() implies #[trigger] dir.take(n) == up.take(
                    n,
                ) by {
                    assert(dir.take(n) =~= up.take(n));
                }
                match checkout_above(files, vcs_dirs, up) {
                    Some(root) => {
                        assert(root =~= dir.subrange(0, root.len() as int));
                        assert forall|n: int| root.len() < n <= dir.len() implies !holds_checkout(
                            files,
                            vcs_dirs,
                            #[trigger] dir.take(n),
                        ) by {
                            if n < dir.len() {
                                assert(dir.take(n) == up.take(n));
                            }
                        }
                    },
                    None => {
                        assert forall|n: int|
                            0 <= n <= dir.len() && (forall|m: int|
                                n <= m < dir.len() ==> !((#[trigger] dir[m]) is Prefix) && !(
                                dir[m] is RootDir)) implies !holds_checkout(
                            files,
                            vcs_dirs,
                            #[trigger] dir.take(n),
                        ) by {
                            if n < dir.len() {
                                assert(dir.take(n) == up.take(n));
                                assert forall|m: int| n <= m < up.len() implies !((
                                #[trigger] up[m]) is Prefix) && !(up[m] is RootDir) by {
                                    assert(up[m] == dir[m]);
                                }
                            }
                        }
                    },
                }
            },
            None => {
                assert forall|n: int|
                    0 <= n <= dir.len() && (forall|m: int|
                        n <= m < dir.len() ==> !((#[trigger] dir[m]) is Prefix) && !(
                        dir[m] is RootDir)) implies !holds_checkout(
                    files,
                    vcs_dirs,
                    #[trigger] dir.take(n),
                ) by {
                    if n < dir.len() {
                        assert(dir[dir.len() - 1] is Prefix || dir[dir.len() - 1] is RootDir);
                    }
                }
            },
        }
    } else {
        assert(dir =~= dir.subrange(0, dir.len() as int));
    }
}

/// A config file that was named makes its directory the root, whatever else is
/// there; one that has no directory is an error that shows it.
pub proof fn a_named_config_file_makes_the_root<P: Fn(&FilePath) -> bool>(
    is_there: P,
    vcs_dirs: Seq<Seq<u8>>,
    file: GivenPath,
    cwd: GivenPath,
    outcome: Result<Seq<Part>, Problem>,
)
    requires
        root_outcome(is_there, vcs_dirs, Some(file), cwd, outcome),
    ensures
        outcome is Ok <==> file.path@.len() > 0 && !(file.path@.last() is Prefix) && !(
        file.path@.last() is RootDir),
        outcome is Ok ==> outcome->Ok_0.push(file.path@.last()) == file.path@,
        outcome is Err ==> outcome->Err_0 == (Problem::ConfigFileHasNoParent { file: file.text@ }),
{
    a_parent_lacks_the_last_component(file.path@);
}

/// Without a config file that was named, the root is the directory of the
/// search where that holds a config file. Otherwise it is the longest of the
/// directory and those above it that holds one of the marks; and the search
/// fails, with the directory shown, if and only if none of them does.
pub proof fn the_root_is_the_nearest<P: Fn(&FilePath) -> bool>(
    is_there: P,
    files: Set<Seq<Part>>,
    vcs_dirs: Seq<Seq<u8>>,
    cwd: GivenPath,
    outcome: Result<Seq<Part>, Problem>,
)
    requires
        forall|p: FilePath, answer: bool| #[trigger]
            call_ensures(is_there, (&p,), answer) ==> answer == files.contains(p@),
        root_outcome(is_there, vcs_dirs, None, cwd, outcome),
    ensures
        ({
            let dir = cwd.path@;
            let configured = files.contains(
                dir.push(Part::Normal("precious.toml".spec_bytes())),
            ) || files.contains(dir.push(Part::Normal(".precious.toml".spec_bytes())));
            match outcome {
                Ok(root) => {
                    &&& configured ==> root == dir
                    &&& !configured ==> {
                        &&& root.is_prefix_of(dir)
                        &&& exists|v: int|
                            0 <= v < vcs_dirs.len() && files.contains(
                                root.push(Part::Normal(#[trigger] vcs_dirs[v])),
                            )
                        &&& forall|m: int|
                            root.len() <= m < dir.len() ==> !((#[trigger] dir[m]) is Prefix) && !(
                            dir[m] is RootDir)
                        &&& forall|n: int, v: int|
                            root.len() < n <= dir.len() && 0 <= v < vcs_dirs.len()
                                ==> !files.contains(
                                #[trigger] dir.take(n).push(Part::Normal(vcs_dirs[v])),
                            )
                    }
                },
                Err(problem) => {
                    &&& problem == (Problem::CannotFindRoot { cwd: cwd.text@ })
                    &&& !configured
                    &&& forall|n: int, v: int|
                        0 <= n <= dir.len() && 0 <= v < vcs_dirs.len() && (forall|m: int|
                            n <= m < dir.len() ==> !((#[trigger] dir[m]) is Prefix) && !(
                            dir[m] is RootDir)) ==> !files.contains(
                            #[trigger] dir.take(n).push(Part::Normal(vcs_dirs[v])),
                        )
                },
            }
        }),
{
    let dir = cwd.path@;
    let names = config_file_names();
    one_root(is_there, files, vcs_dirs, None, cwd, outcome);
    assert(names.len() == 2);
    assert(inside(dir, names[0]) == dir.push(Part::Normal("precious.toml".spec_bytes())));
    assert(inside(dir, names[1]) == dir.push(Part::Normal(".precious.toml".spec_bytes())));
    if holds_config_file(files, dir) {
        let i = choose|i: int|
            0 <= i < names.len() && files.contains(inside(dir, #[trigger] names[i]));
        assert(i == 0 || i == 1);
    } else {
        assert(!files.contains(inside(dir, names[0])));
        assert(!files.contains(inside(dir, names[1])));
        the_search_upwards_finds_the_nearest(files, vcs_dirs, dir);
        assert forall|d: Seq<Part>, v: int|
            !holds_checkout(files, vcs_dirs, d) && 0 <= v < vcs_dirs.len() implies !files.contains(
            #[trigger] d.push(Part::Normal(vcs_dirs[v])),
        ) by {
            assert(!files.contains(inside(d, vcs_dirs[v])));
        }
        if let Ok(root) = outcome {
            let v = choose|v: int|
                0 <= v < vcs_dirs.len() && files.contains(inside(root, #[trigger] vcs_dirs[v]));
            assert(files.contains(root.push(Part::Normal(vcs_dirs[v]))));
            assert forall|n: int, v: int|
                root.len() < n <= dir.len() && 0 <= v < vcs_dirs.len() implies !files.contains(
                #[trigger] dir.take(n).push(Part::Normal(vcs_dirs[v])),
            ) by {
                assert(!holds_checkout(files, vcs_dirs, dir.take(n)));
            }
        } else {
            assert forall|n: int, v: int|
                0 <= n <= dir.len() && 0 <= v < vcs_dirs.len() && (forall|m: int|
                    n <= m < dir.len() ==> !((#[trigger] dir[m]) is Prefix) && !(
                    dir[m] is RootDir)) implies !files.contains(
                #[trigger] dir.take(n).push(Part::Normal(vcs_dirs[v])),
            ) by {
                assert(!holds_checkout(files, vcs_dirs, dir.take(n)));
            }
        }
    }
}

} // verus!
