use wtree::branch::{
    amend, branch_list, check_upstream, clone_branch, clone_repo, clone_worktree, delete_branch,
    get_logs, git_push_args, purge_branch, set_upstream, worktree_add_args, BranchError,
};
use wtree::report::{Paint, Piece};

fn s(x: &str) -> String {
    x.to_string()
}

fn flat(out: &Vec<Vec<Piece>>) -> Vec<Vec<(String, Paint)>> {
    out.iter()
        .map(|l| l.iter().map(|p| (p.text.clone(), p.paint)).collect())
        .collect()
}

const BRANCHES: &str = "* main\n+ feature\n  other";

#[test]
fn branch_list_all() {
    let out = flat(&branch_list(BRANCHES, true));
    assert_eq!(
        out,
        vec![
            vec![(s("(current) "), Paint::Plain), (s("main"), Paint::Green)],
            vec![(s("(local)   "), Paint::Plain), (s("feature"), Paint::Yellow)],
            vec![(s("          "), Paint::Plain), (s("other"), Paint::Plain)],
        ]
    );
}

#[test]
fn branch_list_local_only() {
    let out = flat(&branch_list(BRANCHES, false));
    assert_eq!(
        out,
        vec![
            vec![(s("(current) "), Paint::Plain), (s("main"), Paint::Green)],
            vec![(s("          "), Paint::Plain), (s("feature"), Paint::Plain)],
        ]
    );
}

#[test]
fn purge_trims_trailing_slashes() {
    assert_eq!(purge_branch("feat//"), vec![s("branch"), s("-D"), s("feat")]);
    assert_eq!(purge_branch("a/b"), vec![s("branch"), s("-D"), s("a/b")]);
}

#[test]
fn upstream_args() {
    assert_eq!(
        set_upstream("dev"),
        vec![s("branch"), s("--set-upstream-to=origin/dev"), s("dev")]
    );
}

#[test]
fn check_upstream_matches_first_line() {
    assert_eq!(
        check_upstream("## main...origin/main [ahead 1]\n M x", "main"),
        Some(vec![s("branch"), s("--set-upstream-to=origin/main")])
    );
    assert_eq!(check_upstream("## main\n## main...origin/main", "main"), None);
    assert_eq!(check_upstream("", "main"), None);
}

#[test]
fn push_args() {
    assert_eq!(git_push_args(false, "b", true), vec![s("push"), s("-q")]);
    assert_eq!(
        git_push_args(true, "b", false),
        vec![s("push"), s("-q"), s("--set-upstream"), s("origin"), s("b"), s("--force-with-lease")]
    );
}

#[test]
fn amend_plan() {
    let p = amend(true, false, "/repo", "main\n");
    assert_eq!(p.dir, "/repo/main");
    assert_eq!(
        p.commands,
        vec![vec![s("add"), s(".")], vec![s("commit"), s("--amend"), s("--no-edit")]]
    );
    assert!(!p.push);
    let q = amend(false, true, "/repo", "dev");
    assert_eq!(q.commands, vec![vec![s("commit"), s("--amend"), s("--no-edit")]]);
    assert!(q.push);
}

#[test]
fn clone_plan() {
    let p = clone_repo("/home/u", "https://github.com/a/wtree.git", None);
    assert_eq!(p.repo_dir, "/home/u/wtree");
    assert_eq!(p.bare_dir, "/home/u/wtree/.bare");
    assert_eq!(p.git_file, "/home/u/wtree/.git");
    assert_eq!(p.git_file_contents, "gitdir: ./.bare\n");
    assert_eq!(p.steps.len(), 2);
    assert_eq!(p.steps[0].dir, "/home/u/wtree");
    assert_eq!(
        p.steps[0].args,
        vec![s("clone"), s("-q"), s("--bare"), s("https://github.com/a/wtree.git"), s(".bare")]
    );
    assert_eq!(p.steps[1].dir, "/home/u/wtree");
    assert_eq!(p.steps[1].args, vec![s("fetch"), s("--all")]);
    let q = clone_repo("/h", "git@host:x/y.git.git", Some(s("dev")));
    assert_eq!(q.repo_dir, "/h/y");
    assert_eq!(&q.steps[0].args[5..], &[s("-b"), s("dev")]);
    assert_eq!(clone_repo("/h", "plain", None).repo_dir, "/h/plain");
}

#[test]
fn clone_worktree_step() {
    let st = clone_worktree("/h/y", None, "main\n");
    assert_eq!(st.dir, "/h/y");
    assert_eq!(st.args, vec![s("worktree"), s("add"), s("main")]);
    let st = clone_worktree("/h/y", Some(s("dev")), "");
    assert_eq!(st.args, vec![s("worktree"), s("add"), s("dev")]);
}

#[test]
fn delete_stays_inside_top() {
    assert_eq!(delete_branch("/r", "feat"), Ok(s("/r/feat")));
    assert_eq!(delete_branch("/r", "a/b"), Ok(s("/r/a/b")));
    assert_eq!(delete_branch("/r", "a..b"), Ok(s("/r/a..b")));
    assert_eq!(delete_branch("/r", ".hidden"), Ok(s("/r/.hidden")));
    assert_eq!(delete_branch("/r", "a/./b"), Ok(s("/r/a/./b")));
    assert_eq!(delete_branch("/r", "a/../b"), Ok(s("/r/a/../b")));
    assert_eq!(delete_branch("/r", "x/."), Ok(s("/r/x/.")));
    assert_eq!(delete_branch("/r", "a//b/"), Ok(s("/r/a//b/")));
    for bad in ["", "/etc", ".", "..", "a/..", "../x", "./", "a/../../r/x", "a/b/../.."] {
        assert_eq!(delete_branch("/r", bad), Err(BranchError::OutsideTop), "{bad:?}");
    }
    assert_eq!(
        BranchError::OutsideTop.message(),
        "worktree name must be a relative path inside the repository"
    );
}

#[test]
fn clone_branch_choice() {
    assert_eq!(clone_branch(None, "main\n"), "main");
    assert_eq!(clone_branch(Some(s("dev")), "main\n"), "dev");
    assert_eq!(worktree_add_args("dev"), vec![s("worktree"), s("add"), s("dev")]);
}

#[test]
fn log_args() {
    let a = get_logs(None);
    assert_eq!(a[2], "10");
    assert_eq!(a.len(), 5);
    assert_eq!(get_logs(Some(s("3")))[2], "3");
    assert_eq!(a[4], "--color=always");
}
