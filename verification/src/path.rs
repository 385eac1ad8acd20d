//! File system paths as lists of components.
use vstd::prelude::*;

verus! {

/// One component of a path, as `std::path::Component` tells them apart. A name
/// is held as raw bytes, since a file name need not be text.
#[derive(Debug, PartialEq, Eq)]
pub enum Component {
    Prefix(Vec<u8>),
    RootDir,
    CurDir,
    ParentDir,
    Normal(Vec<u8>),
}

/// What a component says.
pub enum Part {
    Prefix(Seq<u8>),
    RootDir,
    CurDir,
    ParentDir,
    Normal(Seq<u8>),
}

/// A path: its components, from the outermost one in.
#[derive(Debug, PartialEq, Eq)]
pub struct FilePath {
    pub components: Vec<Component>,
}

/// A path as it came from outside: where it leads, and the text that shows it.
#[derive(Debug, PartialEq, Eq)]
pub struct GivenPath {
    pub text: String,
    pub path: FilePath,
}

impl View for Component {
    type V = Part;

    open spec fn view(&self) -> Part {
        match *self {
            Component::Prefix(name) => Part::Prefix(name@),
            Component::RootDir => Part::RootDir,
            Component::CurDir => Part::CurDir,
            Component::ParentDir => Part::ParentDir,
            Component::Normal(name) => Part::Normal(name@),
        }
    }
}

impl View for FilePath {
    type V = Seq<Part>;

    open spec fn view(&self) -> Seq<Part> {
        self.components@.map_values(|c: Component| c@)
    }
}

/// `path` without its last component; a root, a prefix and the empty path have
/// no parent.
pub open spec fn parent(path: Seq<Part>) -> Option<Seq<Part>> {
    if path.len() == 0 || path.last() is Prefix || path.last() is RootDir {
        None
    } else {
        Some(path.drop_last())
    }
}

/// The file or directory `name` in the directory `path`.
pub open spec fn inside(path: Seq<Part>, name: Seq<u8>) -> Seq<Part> {
    path.push(Part::Normal(name))
}

/// `path`, its parent, the parent of that, and so on as long as there is one.
pub open spec fn ancestors(path: Seq<Part>) -> Seq<Seq<Part>>
    decreases path.len(),
{
    match parent(path) {
        Some(up) => seq![path] + ancestors(up),
        None => seq![path],
    }
}

/// The parent of what is inside a directory is that directory.
pub proof fn parent_of_inside(path: Seq<Part>, name: Seq<u8>)
    ensures
        parent(inside(path, name)) == Some(path),
{
    assert(inside(path, name).drop_last() =~= path);
}

/// Each ancestor of a path is the path without its last components: the first
/// without none, the second without one, and so on.
pub proof fn ancestors_are_prefixes(path: Seq<Part>, k: int)
    requires
        0 <= k < ancestors(path).len(),
    ensures
        k <= path.len(),
        ancestors(path)[k] == path.take(path.len() - k),
    decreases k,
{
    if k == 0 {
        assert(path.take(path.len() as int) =~= path);
    } else {
        let up = parent(path)->0;
        ancestors_are_prefixes(up, k - 1);
        assert(ancestors(path)[k] == ancestors(up)[k - 1]);
        assert(up.take(up.len() - (k - 1)) =~= path.take(path.len() - k));
    }
}

/// Copies a name.
fn copied(name: &Vec<u8>) -> (res: Vec<u8>)
    ensures
        res@ == name@,
{
    let res: Vec<u8> = name.clone();
    assert(res@ =~= name@);
    res
}

impl Clone for Component {
    fn clone(&self) -> (res: Self)
        ensures
            res@ == self@,
    {
        match self {
            Component::Prefix(name) => Component::Prefix(copied(name)),
            Component::RootDir => Component::RootDir,
            Component::CurDir => Component::CurDir,
            Component::ParentDir => Component::ParentDir,
            Component::Normal(name) => Component::Normal(copied(name)),
        }
    }
}

impl FilePath {
    /// The first `len` components.
    fn outermost(&self, len: usize) -> (res: FilePath)
        requires
            len <= self@.len(),
        ensures
            res@ == self@.take(len as int),
    {
        let mut components: Vec<Component> = Vec::new();
        let mut i: usize = 0;
        while i < len
            invariant
                i <= len <= self.components.len(),
                components@.map_values(|c: Component| c@) == self@.take(i as int),
            decreases len - i,
        {
            let ghost before = components@;
            components.push(self.components[i].clone());
            proof {
                assert(components@.map_values(|c: Component| c@) =~= before.map_values(
                    |c: Component| c@,
                ).push(self@[i as int]));
                assert(self@.take(i as int).push(self@[i as int]) =~= self@.take(i + 1));
            }
            i = i + 1;
        }
        FilePath { components }
    }

    /// The path without its last component; a root, a prefix and the empty
    /// path have no parent.
    pub fn parent(&self) -> (res: Option<FilePath>)
        ensures
            match res {
                Some(up) => parent(self@) == Some(up@),
                None => parent(self@) is None,
            },
    {
        let len: usize = self.components.len();
        if len == 0 {
            return None;
        }
        proof {
            assert(self@.last() == self.components@.last()@);
            assert(self@.take(len - 1) =~= self@.drop_last());
        }
        match &self.components[len - 1] {
            Component::Prefix(_) => None,
            Component::RootDir => None,
            _ => Some(self.outermost(len - 1)),
        }
    }

    /// The file or directory `name` in this directory.
    pub fn join(&self, name: &Vec<u8>) -> (res: FilePath)
        ensures
            res@ == inside(self@, name@),
    {
        let mut res: FilePath = self.clone();
        let ghost before = res.components@;
        res.components.push(Component::Normal(copied(name)));
        assert(res@ =~= before.map_values(|c: Component| c@).push(Part::Normal(name@)));
        res
    }
}

impl Clone for FilePath {
    fn clone(&self) -> (res: Self)
        ensures
            res@ == self@,
    {
        let res: FilePath = self.outermost(self.components.len());
        assert(self@.take(self@.len() as int) =~= self@);
        res
    }
}

/// A path is read component by component, each for what it is.
pub proof fn a_path_is_read_component_by_component(path: FilePath)
    ensures
        path@.len() == path.components@.len(),
        forall|i: int|
            #![trigger path@[i]]
            0 <= i < path@.len() ==> match path.components@[i] {
                Component::Prefix(name) => path@[i] == Part::Prefix(name@),
                Component::RootDir => path@[i] == Part::RootDir,
                Component::CurDir => path@[i] == Part::CurDir,
                Component::ParentDir => path@[i] == Part::ParentDir,
                Component::Normal(name) => path@[i] == Part::Normal(name@),
            },
{
}

/// A path has a parent if and only if it ends in a name, a `.` or a `..`, and
/// the parent with that end put back is the path.
pub proof fn a_parent_lacks_the_last_component(path: Seq<Part>)
    ensures
        parent(path) is Some <==> path.len() > 0 && (path.last() is Normal || path.last() is CurDir
            || path.last() is ParentDir),
        parent(path) is Some ==> parent(path)->0.push(path.last()) == path,
{
    if parent(path) is Some {
        assert(path.drop_last().push(path.last()) =~= path);
    }
}

/// What is inside a directory has one component more: its name.
pub proof fn inside_adds_the_name(path: Seq<Part>, name: Seq<u8>)
    ensures
        inside(path, name).len() == path.len() + 1,
        path.is_prefix_of(inside(path, name)),
        inside(path, name).last() == Part::Normal(name),
{
    assert(path =~= inside(path, name).subrange(0, path.len() as int));
}

/// The ancestors of a path start at the path, each is the parent of the one
/// before it, and the last has none.
pub proof fn ancestors_are_parents(path: Seq<Part>)
    ensures
        ancestors(path).len() > 0,
        ancestors(path)[0] == path,
        forall|k: int|
            0 < k < ancestors(path).len() ==> parent(ancestors(path)[k - 1]) == Some(
                #[trigger] ancestors(path)[k],
            ),
        parent(ancestors(path).last()) is None,
    decreases path.len(),
{
    if let Some(up) = parent(path) {
        ancestors_are_parents(up);
        assert forall|k: int| 0 < k < ancestors(path).len() implies parent(ancestors(path)[k - 1])
            == Some(#[trigger] ancestors(path)[k]) by {
            assert(ancestors(path)[k] == ancestors(up)[k - 1]);
            if k > 1 {
                assert(ancestors(path)[k - 1] == ancestors(up)[k - 2]);
                assert(parent(ancestors(up)[(k - 1) - 1]) == Some(ancestors(up)[k - 1]));
            }
        }
        assert(ancestors(path).last() == ancestors(up).last());
    }
}

/// How many ancestors a path has, itself among them: one for each component
/// that can be taken away, up to a root or a prefix.
pub proof fn every_prefix_up_to_the_root_is_an_ancestor(path: Seq<Part>, n: int)
    requires
        0 <= n <= path.len(),
    ensures
        path.len() - n < ancestors(path).len() <==> forall|m: int|
            n <= m < path.len() ==> !((#[trigger] path[m]) is Prefix) && !(path[m] is RootDir),
    decreases path.len(),
{
    match parent(path) {
        None => {
            if path.len() > n {
                assert(path[path.len() - 1] is Prefix || path[path.len() - 1] is RootDir);
            }
        },
        Some(up) => {
            if n < path.len() {
                every_prefix_up_to_the_root_is_an_ancestor(up, n);
                assert(ancestors(path).len() == ancestors(up).len() + 1);
                assert(forall|m: int| 0 <= m < up.len() ==> #[trigger] up[m] == path[m]);
                assert(forall|m: int| 0 <= m < up.len() ==> #[trigger] path[m] == up[m]);
            }
        },
    }
}

} // verus!
