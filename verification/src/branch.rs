//! The branch and worktree commands: the listing of branches, and the
//! argument lists of the git commands that wtree runs for them.
use vstd::prelude::*;
use crate::dir::{join_path, last_index_of, lemma_last_index_of};
use crate::report::{entry, entry_line, out_view, Paint, Piece};
use crate::status::cut_after;
use crate::text::{
    append_chars, bytes_skip, char_views, chars_in_bytes, chars_of, concat_str, contains_chars,
    contains_run, copy_range, lines, lines_of, string_of, trim, trim_end_matches,
    trim_end_matching, trimmed, views,
};

verus! {

broadcast use vstd::seq_lib::group_seq_properties;

/// What `wtree list` prints for one line of `git branch` output: the
/// current branch (`*`) in green, a branch checked out in another worktree
/// (`+`) in yellow as local with `all`, else plain; any other branch only
/// with `all`, plain.  The name is the line from byte 2 on.
pub open spec fn branch_line(l: Seq<char>, all: bool) -> Seq<Seq<(Seq<char>, Paint)>> {
    if l.len() > 0 && l[0] == '*' {
        seq![entry("(current) "@, bytes_skip(l, 2), Paint::Green)]
    } else if l.len() > 0 && l[0] == '+' {
        if all {
            seq![entry("(local)   "@, bytes_skip(l, 2), Paint::Yellow)]
        } else {
            seq![entry("          "@, bytes_skip(l, 2), Paint::Plain)]
        }
    } else if all {
        seq![entry("          "@, bytes_skip(l, 2), Paint::Plain)]
    } else {
        seq![]
    }
}

/// The lines printed for the branch lines `ls`, in order.
pub open spec fn branch_output(ls: Seq<Seq<char>>, all: bool) -> Seq<Seq<(Seq<char>, Paint)>>
    decreases ls.len(),
{
    if ls.len() == 0 {
        seq![]
    } else {
        branch_output(ls.drop_last(), all) + branch_line(ls.last(), all)
    }
}

/// Every line of `s` that is printed can be cut at byte 2.
pub open spec fn branch_lines_cut(s: Seq<char>, all: bool) -> bool {
    forall|i: int|
        0 <= i < lines(s).len() && branch_line_shown(#[trigger] lines(s)[i], all)
            ==> chars_in_bytes(lines(s)[i], 2) is Some
}

/// The branch line `l` is printed.
pub open spec fn branch_line_shown(l: Seq<char>, all: bool) -> bool {
    all || (l.len() > 0 && (l[0] == '*' || l[0] == '+'))
}

/// The lines that `wtree list` prints for the output of `git branch`.
pub fn branch_list(output: &str, all: bool) -> (res: Vec<Vec<Piece>>)
    requires
        branch_lines_cut(output@, all),
    ensures
        out_view(res@) == branch_output(lines(output@), all),
{
    let ls = lines_of(output);
    let ghost gl = lines(output@);
    let mut res: Vec<Vec<Piece>> = Vec::new();
    let mut i: usize = 0;
    while i < ls.len()
        invariant
            i <= ls.len(),
            gl == lines(output@),
            char_views(ls@) == gl,
            branch_lines_cut(output@, all),
            out_view(res@) == branch_output(gl.take(i as int), all),
        decreases ls.len() - i,
    {
        let item = &ls[i];
        assert(item@ == gl[i as int]);
        assert(gl.take(i + 1).drop_last() == gl.take(i as int));
        let star = item.len() > 0 && item[0] == '*';
        let plus = item.len() > 0 && item[0] == '+';
        if star || plus || all {
            assert(branch_line_shown(gl[i as int], all));
            assert(chars_in_bytes(gl[i as int], 2) is Some);
            let name = cut_after(item, 2);
            let l = if star {
                entry_line("(current) ", name, Paint::Green)
            } else if plus && all {
                entry_line("(local)   ", name, Paint::Yellow)
            } else {
                entry_line("          ", name, Paint::Plain)
            };
            assert(out_view(res@.push(l)) == out_view(res@).push(crate::report::line_view(l@)));
            res.push(l);
        }
        i = i + 1;
    }
    assert(gl.take(ls.len() as int) == gl);
    res
}

/// `s` as an owned string.
fn owned(s: &str) -> (res: String)
    ensures
        res@ == s@,
{
    s.to_owned()
}

/// The arguments of `git branch -D` for the branch `branch`, its trailing
/// slashes removed (the second step of `wtree purge`, after the worktree
/// has been deleted).
pub fn purge_branch(branch: &str) -> (res: Vec<String>)
    ensures
        views(res@) == seq!["branch"@, "-D"@, trim_end_matches(branch@, seq!['/'])],
{
    let b = chars_of(branch);
    let mut sl: Vec<char> = Vec::new();
    sl.push('/');
    let t = trim_end_matching(&b, &sl);
    let mut res: Vec<String> = Vec::new();
    res.push(owned("branch"));
    res.push(owned("-D"));
    res.push(string_of(&t));
    assert(views(res@) == seq!["branch"@, "-D"@, trim_end_matches(branch@, seq!['/'])]);
    res
}

/// The arguments of `git branch` that make `origin/<branch>` the upstream
/// of `branch`.
pub fn set_upstream(branch: &str) -> (res: Vec<String>)
    ensures
        views(res@) == seq!["branch"@, "--set-upstream-to=origin/"@ + branch@, branch@],
{
    let mut res: Vec<String> = Vec::new();
    res.push(owned("branch"));
    res.push(concat_str("--set-upstream-to=origin/", branch));
    res.push(owned(branch));
    assert(views(res@) == seq!["branch"@, "--set-upstream-to=origin/"@ + branch@, branch@]);
    res
}

/// The first line of `s`, or the empty line when it has none.
pub open spec fn first_line(s: Seq<char>) -> Seq<char> {
    if lines(s).len() > 0 {
        lines(s)[0]
    } else {
        seq![]
    }
}

/// When the first line of `git status -sb` output shows that `branch`
/// tracks `origin/<branch>` (`## <branch>...origin/<branch>`), the
/// arguments of the `git branch` that sets that upstream; else `None`.
pub fn check_upstream(status: &str, branch: &str) -> (res: Option<Vec<String>>)
    ensures
        contains_run(
            first_line(status@),
            "## "@ + branch@ + "..."@ + "origin/"@ + branch@,
        ) ==> (res matches Some(v) && views(v@) == seq![
            "branch"@,
            "--set-upstream-to=origin/"@ + branch@,
        ]),
        !contains_run(first_line(status@), "## "@ + branch@ + "..."@ + "origin/"@ + branch@)
            ==> res is None,
{
    let ls = lines_of(status);
    let line = if ls.len() > 0 {
        copy_range(&ls[0], 0, ls[0].len())
    } else {
        Vec::new()
    };
    assert(ls.len() > 0 ==> ls@[0]@.subrange(0, ls@[0]@.len() as int) == ls@[0]@);
    assert(ls.len() > 0 ==> char_views(ls@)[0] == ls@[0]@);
    let mut needle = chars_of("## ");
    let b = chars_of(branch);
    append_chars(&mut needle, &b);
    let dots = chars_of("...");
    append_chars(&mut needle, &dots);
    let origin = chars_of("origin/");
    append_chars(&mut needle, &origin);
    append_chars(&mut needle, &b);
    if contains_chars(&line, &needle) {
        let mut v: Vec<String> = Vec::new();
        v.push(owned("branch"));
        v.push(concat_str("--set-upstream-to=origin/", branch));
        assert(views(v@) == seq!["branch"@, "--set-upstream-to=origin/"@ + branch@]);
        Some(v)
    } else {
        None
    }
}

/// The arguments of `git push`: quiet; setting `origin/<branch>` as
/// upstream when the branch has none yet; forced with lease when `force`.
pub fn git_push_args(force: bool, branch: &str, has_upstream: bool) -> (res: Vec<String>)
    ensures
        views(res@) == seq!["push"@, "-q"@] + (if has_upstream {
            seq![]
        } else {
            seq!["--set-upstream"@, "origin"@, branch@]
        }) + (if force {
            seq!["--force-with-lease"@]
        } else {
            seq![]
        }),
{
    let mut res: Vec<String> = Vec::new();
    res.push(owned("push"));
    res.push(owned("-q"));
    if !has_upstream {
        res.push(owned("--set-upstream"));
        res.push(owned("origin"));
        res.push(owned(branch));
    }
    if force {
        res.push(owned("--force-with-lease"));
    }
    assert(views(res@) == seq!["push"@, "-q"@] + (if has_upstream {
        seq![]
    } else {
        seq!["--set-upstream"@, "origin"@, branch@]
    }) + (if force {
        seq!["--force-with-lease"@]
    } else {
        seq![]
    }));
    res
}

/// What `wtree amend` runs: in the worktree directory `<top>/<branch>`
/// (trimmed), `git add .` when `all`, then `git commit --amend --no-edit`;
/// then a forced push when `push`.
pub struct AmendPlan {
    pub dir: String,
    pub commands: Vec<Vec<String>>,
    pub push: bool,
}

/// The commands of an amend, as argument lists.
pub open spec fn amend_commands(all: bool) -> Seq<Seq<Seq<char>>> {
    (if all {
        seq![seq!["add"@, "."@]]
    } else {
        seq![]
    }) + seq![seq!["commit"@, "--amend"@, "--no-edit"@]]
}

fn args2(a: &str, b: &str) -> (res: Vec<String>)
    ensures
        views(res@) == seq![a@, b@],
{
    let mut v: Vec<String> = Vec::new();
    v.push(owned(a));
    v.push(owned(b));
    assert(views(v@) == seq![a@, b@]);
    v
}

/// The plan of `wtree amend` in the repository whose top directory is
/// `top_dir`, on the current branch `branch` (as `git branch
/// --show-current` prints it, newline included).
pub fn amend(all: bool, push: bool, top_dir: &str, branch: &str) -> (res: AmendPlan)
    ensures
        res.dir@ == trim(top_dir@ + seq!['/'] + branch@),
        res.commands@.map_values(|c: Vec<String>| views(c@)) == amend_commands(all),
        res.push == push,
{
    let mut d = chars_of(top_dir);
    d.push('/');
    let b = chars_of(branch);
    append_chars(&mut d, &b);
    assert(d@ == top_dir@ + seq!['/'] + branch@);
    let t = trimmed(&d);
    let mut commands: Vec<Vec<String>> = Vec::new();
    if all {
        commands.push(args2("add", "."));
    }
    let mut c: Vec<String> = Vec::new();
    c.push(owned("commit"));
    c.push(owned("--amend"));
    c.push(owned("--no-edit"));
    assert(views(c@) == seq!["commit"@, "--amend"@, "--no-edit"@]);
    commands.push(c);
    assert(commands@.map_values(|c: Vec<String>| views(c@)) == amend_commands(all));
    AmendPlan { dir: string_of(&t), commands, push }
}

/// The last `/`-separated segment of `url` (all of it without a `/`).
pub open spec fn last_segment(url: Seq<char>) -> Seq<char> {
    url.skip(last_index_of(url, '/') + 1)
}

/// The name of the repository at `url`: its last segment without any
/// trailing `.git`.
pub open spec fn repo_name(url: Seq<char>) -> Seq<char> {
    trim_end_matches(last_segment(url), ".git"@)
}

/// A git command: the directory it runs in and its arguments.
#[derive(Debug)]
pub struct GitStep {
    pub dir: String,
    pub args: Vec<String>,
}

impl View for GitStep {
    type V = (Seq<char>, Seq<Seq<char>>);

    open spec fn view(&self) -> (Seq<char>, Seq<Seq<char>>) {
        (self.dir@, views(self.args@))
    }
}

/// What `wtree clone` does, in order: create `bare_dir`; run `steps[0]`
/// (the bare clone); write `git_file_contents` to `git_file`; run
/// `steps[1]` (fetching every remote, in the new repository); then check
/// out the branch with `clone_worktree`.
pub struct ClonePlan {
    pub repo_dir: String,
    pub bare_dir: String,
    pub git_file: String,
    pub git_file_contents: String,
    pub steps: Vec<GitStep>,
}

/// The arguments of the bare clone of `url`, of `branch` when one is given.
pub open spec fn clone_args(url: Seq<char>, branch: Option<String>) -> Seq<Seq<char>> {
    seq!["clone"@, "-q"@, "--bare"@, url, ".bare"@] + match branch {
        Some(b) => seq!["-b"@, b@],
        None => seq![],
    }
}

/// The plan of `wtree clone <url> [-b <branch>]` run in `cwd`: the
/// repository directory is `<cwd>/<name>`, the clone and the fetch both run
/// in it.
pub fn clone_repo(cwd: &str, url: &str, branch: Option<String>) -> (res: ClonePlan)
    ensures
        res.repo_dir@ == cwd@ + seq!['/'] + repo_name(url@),
        res.bare_dir@ == join_path(res.repo_dir@, ".bare"@),
        res.git_file@ == join_path(res.repo_dir@, ".git"@),
        res.git_file_contents@ == "gitdir: ./.bare\n"@,
        res.steps@.map_values(|st: GitStep| st@) == seq![
            (res.repo_dir@, clone_args(url@, branch)),
            (res.repo_dir@, seq!["fetch"@, "--all"@]),
        ],
{
    let u = chars_of(url);
    proof {
        lemma_last_index_of(u@, '/');
    }
    let start = match crate::dir::last_slash(&u) {
        Some(j) => j + 1,
        None => 0,
    };
    let seg = copy_range(&u, start, u.len());
    assert(seg@ == last_segment(url@));
    let git = chars_of(".git");
    let name = trim_end_matching(&seg, &git);
    let mut d = chars_of(cwd);
    d.push('/');
    append_chars(&mut d, &name);
    let repo_dir = string_of(&d);
    let bare_dir = crate::dir::join(&repo_dir, ".bare");
    let git_file = crate::dir::join(&repo_dir, ".git");
    let mut args: Vec<String> = Vec::new();
    args.push(owned("clone"));
    args.push(owned("-q"));
    args.push(owned("--bare"));
    args.push(owned(url));
    args.push(owned(".bare"));
    let ghost asked = branch;
    match branch {
        Some(b) => {
            args.push(owned("-b"));
            args.push(b);
        },
        None => {},
    }
    assert(views(args@) == clone_args(url@, asked));
    let clone = GitStep { dir: repo_dir.clone(), args };
    let fetch = GitStep { dir: repo_dir.clone(), args: args2("fetch", "--all") };
    let mut steps: Vec<GitStep> = Vec::new();
    steps.push(clone);
    steps.push(fetch);
    assert(steps@.map_values(|st: GitStep| st@) == seq![
        (repo_dir@, clone_args(url@, asked)),
        (repo_dir@, seq!["fetch"@, "--all"@]),
    ]);
    ClonePlan {
        repo_dir,
        bare_dir,
        git_file,
        git_file_contents: owned("gitdir: ./.bare\n"),
        steps,
    }
}

/// The branch that `wtree clone` checks out: the one asked for, or else the
/// clone's current branch (`show_current`, the output of `git branch
/// --show-current` run in the repository, trimmed).
pub fn clone_branch(asked: Option<String>, show_current: &str) -> (res: String)
    ensures
        asked matches Some(b) ==> res == b,
        asked is None ==> res@ == trim(show_current@),
{
    match asked {
        Some(b) => b,
        None => {
            let v = chars_of(show_current);
            let t = trimmed(&v);
            string_of(&t)
        },
    }
}

/// The last step of `wtree clone`: in the repository directory, add the
/// worktree of the branch that `clone_branch` picks.
pub fn clone_worktree(repo_dir: &str, asked: Option<String>, show_current: &str) -> (res: GitStep)
    ensures
        res.dir@ == repo_dir@,
        views(res.args@) == seq!["worktree"@, "add"@, match asked {
            Some(b) => b@,
            None => trim(show_current@),
        }],
{
    let b = clone_branch(asked, show_current);
    GitStep { dir: owned(repo_dir), args: worktree_add_args(b.as_str()) }
}

/// The arguments of `git worktree add <branch>`.
pub fn worktree_add_args(branch: &str) -> (res: Vec<String>)
    ensures
        views(res@) == seq!["worktree"@, "add"@, branch@],
{
    let mut v: Vec<String> = Vec::new();
    v.push(owned("worktree"));
    v.push(owned("add"));
    v.push(owned(branch));
    assert(views(v@) == seq!["worktree"@, "add"@, branch@]);
    v
}

/// The arguments of the `git log` behind `wtree log [-n <length>]`: the
/// last `length` commits (ten by default), one coloured line each.
pub fn get_logs(length: Option<String>) -> (res: Vec<String>)
    ensures
        views(res@) == seq![
            "log"@,
            "-n"@,
            match length {
                Some(n) => n@,
                None => "10"@,
            },
            "--pretty=format:%C(red)%h - %C(green)%an, %C(blue)%ar : %C(white)%s"@,
            "--color=always"@,
        ],
{
    let n = match length {
        Some(n) => n,
        None => owned("10"),
    };
    let mut v: Vec<String> = Vec::new();
    v.push(owned("log"));
    v.push(owned("-n"));
    v.push(n);
    v.push(owned("--pretty=format:%C(red)%h - %C(green)%an, %C(blue)%ar : %C(white)%s"));
    v.push(owned("--color=always"));
    assert(views(v@) == seq![
        "log"@,
        "-n"@,
        match length {
            Some(n) => n@,
            None => "10"@,
        },
        "--pretty=format:%C(red)%h - %C(green)%an, %C(blue)%ar : %C(white)%s"@,
        "--color=always"@,
    ]);
    v
}

/// The depth below the top directory after the path component `c`, from
/// `depth`: an empty or `.` component stays, `..` goes up one, any other
/// goes down one.
pub open spec fn step_depth(depth: int, c: Seq<char>) -> int {
    if c.len() == 0 || c == seq!['.'] {
        depth
    } else if c == seq!['.', '.'] {
        depth - 1
    } else {
        depth + 1
    }
}

/// Walking the `/`-separated components of `b` from the top directory,
/// with the component that began at `start` read up to `i` and `depth`
/// the depth before it: the depth at the end, or `None` when the walk
/// climbs above the top directory.
pub open spec fn walk_from(b: Seq<char>, start: int, i: int, depth: int) -> Option<int>
    decreases b.len() - i,
{
    if 0 <= i < b.len() {
        if b[i] == '/' {
            let d = step_depth(depth, b.subrange(start, i));
            if d < 0 {
                None
            } else {
                walk_from(b, i + 1, i + 1, d)
            }
        } else {
            walk_from(b, start, i + 1, depth)
        }
    } else {
        let d = step_depth(depth, b.subrange(start, b.len() as int));
        if d < 0 {
            None
        } else {
            Some(d)
        }
    }
}

/// `b`, taken as a relative path from the top directory and resolved by
/// its components, names a directory strictly inside it: it is not
/// absolute, never climbs above the top, and ends at least one level below.
pub open spec fn inside_name(b: Seq<char>) -> bool {
    &&& b.len() > 0
    &&& b[0] != '/'
    &&& walk_from(b, 0, 0, 0) matches Some(d) && d >= 1
}

/// Why a worktree cannot be deleted.
#[derive(Clone, Copy, PartialEq, Eq, Structural, Debug)]
pub enum BranchError {
    /// The name is empty or absolute, or its components lead to the top
    /// directory or above it.
    OutsideTop,
}

impl BranchError {
    /// The message of the error.
    pub fn message(&self) -> (res: &'static str)
        ensures
            res@ == "worktree name must be a relative path inside the repository"@,
    {
        "worktree name must be a relative path inside the repository"
    }
}

/// The depth after the component `b[start..end]`, from `depth`; `None`
/// when it climbs above the top.
fn step_component(b: &Vec<char>, start: usize, end: usize, depth: usize) -> (res: Option<usize>)
    requires
        start <= end <= b.len(),
        depth <= start,
    ensures
        res matches Some(d) ==> d as int == step_depth(depth as int, b@.subrange(start as int, end as int)) && d <= end,
        res is None ==> step_depth(depth as int, b@.subrange(start as int, end as int)) < 0,
{
    let len = end - start;
    let ghost c = b@.subrange(start as int, end as int);
    if len == 0 || (len == 1 && b[start] == '.') {
        assert(len == 1 ==> c == seq!['.']);
        Some(depth)
    } else if len == 2 && b[start] == '.' && b[start + 1] == '.' {
        assert(c == seq!['.', '.']);
        if depth == 0 {
            None
        } else {
            Some(depth - 1)
        }
    } else {
        assert(c.len() == len);
        assert(len == 1 ==> c[0] == b@[start as int]);
        assert(len == 2 ==> c[0] == b@[start as int] && c[1] == b@[start + 1]);
        assert(c != seq!['.']);
        assert(c != seq!['.', '.']);
        Some(depth + 1)
    }
}

/// The directory that `wtree delete <branch>` removes: `<top>/<branch>`,
/// refused when the name leads to the top directory or outside it.
pub fn delete_branch(top: &str, branch: &str) -> (res: Result<String, BranchError>)
    ensures
        inside_name(branch@) ==> (res matches Ok(d) && d@ == join_path(top@, branch@)),
        !inside_name(branch@) ==> res == Err::<String, BranchError>(BranchError::OutsideTop),
{
    let b = chars_of(branch);
    if b.len() == 0 || b[0] == '/' {
        return Err(BranchError::OutsideTop);
    }
    let mut start: usize = 0;
    let mut depth: usize = 0;
    let mut i: usize = 0;
    while i < b.len()
        invariant
            start <= i <= b.len(),
            b@ == branch@,
            depth <= start,
            walk_from(b@, 0, 0, 0) == walk_from(b@, start as int, i as int, depth as int),
        decreases b.len() - i,
    {
        if b[i] == '/' {
            match step_component(&b, start, i, depth) {
                Some(d) => {
                    depth = d;
                },
                None => {
                    return Err(BranchError::OutsideTop);
                },
            }
            start = i + 1;
        }
        i = i + 1;
    }
    match step_component(&b, start, b.len(), depth) {
        Some(d) => {
            if d == 0 {
                return Err(BranchError::OutsideTop);
            }
        },
        None => {
            return Err(BranchError::OutsideTop);
        },
    }
    Ok(crate::dir::join(top, branch))
}

} // verus!
