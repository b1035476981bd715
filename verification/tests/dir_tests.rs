use wtree::dir::{ancestors_of, dir_finder, get_top_dir, get_top_git, join, parent_dir, DirError};

fn s(x: &str) -> String {
    x.to_string()
}

#[test]
fn parents() {
    assert_eq!(parent_dir("/a/b"), Some(s("/a")));
    assert_eq!(parent_dir("/a"), Some(s("/")));
    assert_eq!(parent_dir("/"), None);
    assert_eq!(parent_dir(""), None);
    assert_eq!(parent_dir("a"), Some(s("")));
    assert_eq!(parent_dir("/a//b/"), Some(s("/a")));
    assert_eq!(parent_dir("a/b"), Some(s("a")));
}

#[test]
fn parents_agree_with_std() {
    for p in ["/a/b", "/a", "/", "a", "/a//b/", "a/b", "/x/y/z/"] {
        let ours = parent_dir(p);
        let std_parent = std::path::Path::new(p).parent().map(|q| q.to_str().unwrap().to_string());
        assert_eq!(ours, std_parent, "parent of {p}");
    }
}

#[test]
fn ancestors_chain() {
    assert_eq!(ancestors_of("/a/b"), vec![s("/a/b"), s("/a"), s("/")]);
    assert_eq!(ancestors_of("/"), vec![s("/")]);
}

#[test]
fn joins() {
    assert_eq!(join("/a", ".bare"), "/a/.bare");
    assert_eq!(join("/", "x"), "/x");
    assert_eq!(join("/a/", "x"), "/a/x");
    assert_eq!(join("/a", "/abs"), "/abs");
    assert_eq!(join("", "x"), "x");
}

#[test]
fn finder_takes_nearest() {
    assert_eq!(dir_finder("/a/b", &vec![false, true, true]), Some(s("/a")));
    assert_eq!(dir_finder("/a/b", &vec![false, false, false]), None);
}

#[test]
fn top_dir_prefers_bare_anywhere_up() {
    let r = get_top_dir("/r/w/x", &vec![false, false, true, false], &vec![false, true, false, false]);
    assert_eq!(r, Ok(s("/r")));
}

#[test]
fn top_dir_falls_back_to_git() {
    let r = get_top_dir("/r/w", &vec![false, false, false], &vec![false, true, false]);
    assert_eq!(r, Ok(s("/r")));
}

#[test]
fn top_dir_missing() {
    let r = get_top_dir("/r", &vec![false, false], &vec![false, false]);
    assert_eq!(r, Err(DirError::NoRepository));
    assert_eq!(
        DirError::NoRepository.message(),
        "Cannot find \".bare\" or \".git\" in directory structure"
    );
}

#[test]
fn top_git() {
    assert_eq!(get_top_git("/r/w", &vec![true, false, false]), Ok(s("/r/w")));
    assert_eq!(get_top_git("/r/w", &vec![false, false, false]), Err(DirError::NoGit));
    assert_eq!(DirError::NoGit.message(), "Could not find .git");
}
