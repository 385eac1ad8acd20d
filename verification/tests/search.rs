use precious::error::PreciousError;
use precious::path::{Component, FilePath, GivenPath};
use precious::precious::Precious;
use std::cell::RefCell;

fn path(names: &[&str]) -> FilePath {
    let mut components = vec![Component::RootDir];
    for name in names {
        components.push(Component::Normal(name.as_bytes().to_vec()));
    }
    FilePath { components }
}

fn given(names: &[&str]) -> GivenPath {
    GivenPath { text: format!("/{}", names.join("/")), path: path(names) }
}

fn vcs_dirs() -> Vec<Vec<u8>> {
    vec![b".git".to_vec(), b".hg".to_vec()]
}

#[test]
fn a_path_has_the_parent_that_std_gives_it() {
    assert_eq!(path(&["a", "b"]).parent(), Some(path(&["a"])));
    assert_eq!(path(&["a"]).parent(), Some(path(&[])));
    assert_eq!(path(&[]).parent(), None);
    let relative = FilePath { components: vec![Component::ParentDir] };
    assert_eq!(relative.parent(), Some(FilePath { components: vec![] }));
    let here = FilePath { components: vec![Component::CurDir] };
    assert_eq!(here.parent(), Some(FilePath { components: vec![] }));
    assert_eq!(FilePath { components: vec![] }.parent(), None);
    let drive = FilePath { components: vec![Component::Prefix(b"C:".to_vec())] };
    assert_eq!(drive.parent(), None);
}

#[test]
fn the_parent_of_what_is_inside_a_directory_is_the_directory() {
    let dir = path(&["a", "b"]);
    let name = vec![0xffu8, 0x00];
    assert_eq!(dir.join(&name).parent(), Some(dir.clone()));
    assert_eq!(dir.join(&name).components.last(), Some(&Component::Normal(name)));
}

#[test]
fn the_first_match_is_found_and_none_means_the_first() {
    let candidates = vec![path(&["a"]), path(&["b"]), path(&["c"])];
    let asked = RefCell::new(vec![]);
    let pred = |p: &FilePath| {
        asked.borrow_mut().push(p.clone());
        *p != path(&["a"])
    };
    assert_eq!(Precious::find_or_first(&candidates, &pred), path(&["b"]));
    assert_eq!(*asked.borrow(), vec![path(&["a"]), path(&["b"])]);
    assert_eq!(Precious::find_or_first(&candidates, &|_: &FilePath| false), path(&["a"]));
    assert_eq!(Precious::find_or_first(&candidates, &|_: &FilePath| true), path(&["a"]));
}

#[test]
fn the_plain_config_file_is_preferred_to_the_hidden_one() {
    let dir = path(&["project"]);
    let plain = path(&["project", "precious.toml"]);
    let hidden = path(&["project", ".precious.toml"]);
    let of = |there: &[FilePath]| {
        let is_there = |p: &FilePath| there.contains(p);
        (
            Precious::default_config_file(&dir, &is_there),
            Precious::has_config_file(&dir, &is_there),
        )
    };
    assert_eq!(of(&[]), (plain.clone(), false));
    assert_eq!(of(&[plain.clone()]), (plain.clone(), true));
    assert_eq!(of(&[hidden.clone()]), (hidden.clone(), true));
    assert_eq!(of(&[hidden.clone(), plain.clone()]), (plain, true));
}

#[test]
fn a_named_config_file_makes_its_directory_the_root() {
    let is_there = |_: &FilePath| true;
    let file = given(&["etc", "checks.toml"]);
    assert_eq!(
        Precious::project_root(Some(&file), &given(&["project"]), &vcs_dirs(), &is_there),
        Ok(path(&["etc"]))
    );
    assert_eq!(
        Precious::config_file(Some(&file), &path(&["etc"]), &is_there),
        path(&["etc", "checks.toml"])
    );
    assert_eq!(
        Precious::project_root(Some(&given(&[])), &given(&["project"]), &vcs_dirs(), &is_there),
        Err(PreciousError::ConfigFileHasNoParent { file: "/".to_string() })
    );
}

#[test]
fn the_nearest_checkout_is_the_root() {
    let there = [
        path(&[".git"]),
        path(&["a", ".hg"]),
        path(&["a", "b", ".svn"]),
        path(&["a", "precious.toml"]),
    ];
    let is_there = |p: &FilePath| there.contains(p);
    let root = |names: &[&str]| {
        Precious::project_root(None, &given(names), &vcs_dirs(), &is_there)
    };
    assert_eq!(root(&["a", "b", "c"]), Ok(path(&["a"])));
    assert_eq!(root(&["a"]), Ok(path(&["a"])));
    assert_eq!(root(&["x", "y"]), Ok(path(&[])));
    assert!(Precious::is_checkout_root(&path(&["a"]), &vcs_dirs(), &is_there));
    assert!(!Precious::is_checkout_root(&path(&["a", "b"]), &vcs_dirs(), &is_there));
}

#[test]
fn without_a_checkout_there_is_no_root() {
    let is_there = |p: &FilePath| *p == path(&["a", ".hg"]);
    assert_eq!(
        Precious::project_root(None, &given(&["b", "c"]), &vcs_dirs(), &is_there),
        Err(PreciousError::CannotFindRoot { cwd: "/b/c".to_string() })
    );
    assert_eq!(
        Precious::project_root(None, &given(&["a"]), &vec![], &is_there),
        Err(PreciousError::CannotFindRoot { cwd: "/a".to_string() })
    );
}
