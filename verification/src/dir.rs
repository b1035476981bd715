//! Finding the top of a wtree repository: the nearest directory, going up
//! from the current one, that holds a `.bare` (or else a `.git`) entry.
//! Paths are `/`-separated strings; whether an entry exists is asked of the
//! file system by the caller, once per directory on the way up.
use vstd::prelude::*;
use crate::text::{
    append_chars, chars_of, copy_range, ends_with, string_of, trim_end_matches, trim_end_matching,
    views,
};

verus! {

broadcast use vstd::seq_lib::group_seq_properties;

/// `p` without its trailing slashes.
pub open spec fn strip_slashes(p: Seq<char>) -> Seq<char> {
    trim_end_matches(p, seq!['/'])
}

/// The index of the last `c` in `q`, or -1.
pub open spec fn last_index_of(q: Seq<char>, c: char) -> int
    decreases q.len(),
{
    if q.len() == 0 {
        -1
    } else if q.last() == c {
        q.len() - 1
    } else {
        last_index_of(q.drop_last(), c)
    }
}

/// The parent of the directory `p`, as `Path::parent` gives it for paths
/// without `.` components: trailing and repeated slashes are ignored, the
/// root (and the empty path) has none, and a single relative component has
/// the empty path as parent.
pub open spec fn path_parent(p: Seq<char>) -> Option<Seq<char>> {
    let q = strip_slashes(p);
    if q.len() == 0 {
        None
    } else {
        let j = last_index_of(q, '/');
        if j < 0 {
            Some(seq![])
        } else {
            let t = strip_slashes(q.take(j));
            if t.len() == 0 {
                Some(seq!['/'])
            } else {
                Some(t)
            }
        }
    }
}

/// Trimming a pattern from the end keeps a prefix that no longer ends with it.
pub proof fn lemma_trim_end_matches(s: Seq<char>, pat: Seq<char>)
    requires
        pat.len() > 0,
    ensures
        trim_end_matches(s, pat).len() <= s.len(),
        trim_end_matches(s, pat) == s.take(trim_end_matches(s, pat).len() as int),
        !ends_with(trim_end_matches(s, pat), pat),
    decreases s.len(),
{
    if ends_with(s, pat) {
        let t = s.take(s.len() - pat.len());
        lemma_trim_end_matches(t, pat);
        assert(trim_end_matches(s, pat) == trim_end_matches(t, pat));
        assert(s.take(trim_end_matches(t, pat).len() as int) == t.take(
            trim_end_matches(t, pat).len() as int,
        ));
    } else {
        assert(s.take(s.len() as int) == s);
    }
}

/// Trimming a pattern from the end twice is trimming it once.
pub proof fn lemma_trim_end_matches_idempotent(s: Seq<char>, pat: Seq<char>)
    requires
        pat.len() > 0,
    ensures
        trim_end_matches(trim_end_matches(s, pat), pat) == trim_end_matches(s, pat),
{
    lemma_trim_end_matches(s, pat);
}

/// The last index of `c` is within the sequence and holds `c`.
pub proof fn lemma_last_index_of(q: Seq<char>, c: char)
    ensures
        -1 <= last_index_of(q, c) < q.len(),
        last_index_of(q, c) >= 0 ==> q[last_index_of(q, c)] == c,
        forall|k: int| last_index_of(q, c) < k < q.len() ==> q[k] != c,
    decreases q.len(),
{
    if q.len() > 0 && q.last() != c {
        lemma_last_index_of(q.drop_last(), c);
        assert forall|k: int| last_index_of(q, c) < k < q.len() implies q[k] != c by {
            if k < q.len() - 1 {
                assert(q.drop_last()[k] == q[k]);
            }
        }
    }
}

/// A parent is shorter than its child.
pub proof fn lemma_parent_shorter(p: Seq<char>)
    ensures
        path_parent(p) matches Some(q) ==> q.len() < p.len(),
{
    let q = strip_slashes(p);
    lemma_trim_end_matches(p, seq!['/']);
    if q.len() > 0 {
        let j = last_index_of(q, '/');
        lemma_last_index_of(q, '/');
        if j >= 0 {
            lemma_trim_end_matches(q.take(j), seq!['/']);
            assert(q.last() != '/') by {
                assert(!ends_with(q, seq!['/']));
                assert(q.skip(q.len() - 1) == seq![q.last()]);
            }
        }
    }
}

#[via_fn]
proof fn ancestors_decreases(p: Seq<char>) {
    lemma_parent_shorter(p);
}

/// `p` followed by its parent, its parent's parent, and so on up to the
/// last directory that has no parent (`Path::ancestors`).
pub open spec fn ancestors(p: Seq<char>) -> Seq<Seq<char>>
    decreases p.len(),
    via ancestors_decreases
{
    seq![p] + match path_parent(p) {
        Some(q) => ancestors(q),
        None => seq![],
    }
}

/// `part` appended to the path `base`, as `PathBuf::push` does it: an
/// absolute `part` replaces `base`; otherwise a `/` goes between them
/// unless `base` is empty or already ends with one.
pub open spec fn join_path(base: Seq<char>, part: Seq<char>) -> Seq<char> {
    if part.len() > 0 && part[0] == '/' {
        part
    } else if base.len() == 0 || base.last() == '/' {
        base + part
    } else {
        base + seq!['/'] + part
    }
}

/// The path `part` appended to `base` (`PathBuf::join`).
pub fn join(base: &str, part: &str) -> (res: String)
    ensures
        res@ == join_path(base@, part@),
{
    let b = chars_of(base);
    let p = chars_of(part);
    if p.len() > 0 && p[0] == '/' {
        return string_of(&p);
    }
    let mut v = b;
    if v.len() > 0 && v[v.len() - 1] != '/' {
        v.push('/');
    }
    append_chars(&mut v, &p);
    string_of(&v)
}

fn slash() -> (res: Vec<char>)
    ensures
        res@ == seq!['/'],
{
    let mut v: Vec<char> = Vec::new();
    v.push('/');
    v
}

/// The index of the last `/` in `q`.
pub fn last_slash(q: &Vec<char>) -> (res: Option<usize>)
    ensures
        res matches Some(j) ==> j as int == last_index_of(q@, '/'),
        res is None ==> last_index_of(q@, '/') == -1,
{
    let mut k = q.len();
    while k > 0
        invariant
            k <= q.len(),
            last_index_of(q@, '/') == last_index_of(q@.take(k as int), '/'),
        decreases k,
    {
        assert(q@.take(k as int).last() == q@[k - 1]);
        assert(q@.take(k as int).drop_last() == q@.take(k - 1));
        if q[k - 1] == '/' {
            return Some(k - 1);
        }
        k = k - 1;
    }
    None
}

/// The parent directory of `p` (see `path_parent`).
pub fn parent_of(p: &Vec<char>) -> (res: Option<Vec<char>>)
    ensures
        res matches Some(q) ==> path_parent(p@) == Some(q@),
        res is None ==> path_parent(p@) is None,
{
    let sl = slash();
    let q = trim_end_matching(p, &sl);
    if q.len() == 0 {
        return None;
    }
    match last_slash(&q) {
        None => Some(Vec::new()),
        Some(j) => {
            proof {
                lemma_last_index_of(q@, '/');
            }
            let head = copy_range(&q, 0, j);
            assert(head@ == q@.take(j as int));
            let t = trim_end_matching(&head, &sl);
            if t.len() == 0 {
                Some(slash())
            } else {
                Some(t)
            }
        },
    }
}

/// The parent directory of `dir` (see `path_parent`).
pub fn parent_dir(dir: &str) -> (res: Option<String>)
    ensures
        res matches Some(q) ==> path_parent(dir@) == Some(q@),
        res is None ==> path_parent(dir@) is None,
{
    let v = chars_of(dir);
    match parent_of(&v) {
        Some(q) => Some(string_of(&q)),
        None => None,
    }
}

/// The directories from `dir` up to the last one (see `ancestors`).
pub fn ancestors_of(dir: &str) -> (res: Vec<String>)
    ensures
        views(res@) == ancestors(dir@),
{
    let mut res: Vec<String> = Vec::new();
    let mut cur = chars_of(dir);
    loop
        invariant
            ancestors(dir@) == views(res@) + ancestors(cur@),
        decreases cur@.len(),
    {
        let s = string_of(&cur);
        proof {
            assert(views(res@.push(s)) == views(res@).push(s@));
            lemma_parent_shorter(cur@);
        }
        res.push(s);
        match parent_of(&cur) {
            Some(q) => {
                cur = q;
            },
            None => {
                proof {
                    assert(ancestors(cur@) == seq![cur@]);
                }
                return res;
            },
        }
    }
}

/// Why no top directory was found.
#[derive(Clone, Copy, PartialEq, Eq, Structural, Debug)]
pub enum DirError {
    /// Neither `.bare` nor `.git` exists in any directory on the way up.
    NoRepository,
    /// No `.git` exists in any directory on the way up.
    NoGit,
}

impl DirError {
    /// The message of the error.
    pub fn message(&self) -> (res: &'static str)
        ensures
            *self == DirError::NoRepository ==> res@ == "Cannot find \".bare\" or \".git\" in directory structure"@,
            *self == DirError::NoGit ==> res@ == "Could not find .git"@,
    {
        match self {
            DirError::NoRepository => "Cannot find \".bare\" or \".git\" in directory structure",
            DirError::NoGit => "Could not find .git",
        }
    }
}

/// `i` is the first index where `found` holds.
pub open spec fn first_found(found: Seq<bool>, i: int) -> bool {
    0 <= i < found.len() && found[i] && forall|j: int| 0 <= j < i ==> !found[j]
}

/// Some entry of `found` holds.
pub open spec fn any_found(found: Seq<bool>) -> bool {
    exists|i: int| 0 <= i < found.len() && found[i]
}

/// The nearest directory, going up from `dir`, in which the entry sought
/// exists: `found[i]` tells whether it exists in the `i`-th directory of
/// `ancestors(dir)`.  `None` when it exists in none of them.
pub fn dir_finder(dir: &str, found: &Vec<bool>) -> (res: Option<String>)
    requires
        found.len() == ancestors(dir@).len(),
    ensures
        res matches Some(d) ==> exists|i: int| first_found(found@, i) && d@ == ancestors(dir@)[i],
        res is None <==> !any_found(found@),
{
    let anc = ancestors_of(dir);
    let mut i: usize = 0;
    while i < found.len()
        invariant
            i <= found.len(),
            found.len() == anc.len(),
            views(anc@) == ancestors(dir@),
            forall|j: int| 0 <= j < i ==> !found@[j],
        decreases found.len() - i,
    {
        if found[i] {
            let d = anc[i].clone();
            assert(first_found(found@, i as int));
            assert(d@ == views(anc@)[i as int]);
            return Some(d);
        }
        i = i + 1;
    }
    None
}

/// The top directory of the repository that holds `cwd`: the nearest
/// directory going up that holds `.bare`, or, when none does, the nearest
/// that holds `.git`.  `bare_found[i]` and `git_found[i]` tell whether
/// `.bare` and `.git` exist in the `i`-th directory of `ancestors(cwd)`.
pub fn get_top_dir(cwd: &str, bare_found: &Vec<bool>, git_found: &Vec<bool>) -> (res: Result<String, DirError>)
    requires
        bare_found.len() == ancestors(cwd@).len(),
        git_found.len() == ancestors(cwd@).len(),
    ensures
        any_found(bare_found@) ==> (res matches Ok(d) && exists|i: int|
            first_found(bare_found@, i) && d@ == ancestors(cwd@)[i]),
        !any_found(bare_found@) && any_found(git_found@) ==> (res matches Ok(d) && exists|i: int|
            first_found(git_found@, i) && d@ == ancestors(cwd@)[i]),
        !any_found(bare_found@) && !any_found(git_found@) ==> res == Err::<String, DirError>(
            DirError::NoRepository,
        ),
{
    match dir_finder(cwd, bare_found) {
        Some(d) => Ok(d),
        None => match dir_finder(cwd, git_found) {
            Some(d) => Ok(d),
            None => Err(DirError::NoRepository),
        },
    }
}

/// The nearest directory going up from `cwd` that holds `.git`;
/// `git_found[i]` tells whether `.git` exists in the `i`-th directory of
/// `ancestors(cwd)`.
pub fn get_top_git(cwd: &str, git_found: &Vec<bool>) -> (res: Result<String, DirError>)
    requires
        git_found.len() == ancestors(cwd@).len(),
    ensures
        any_found(git_found@) ==> (res matches Ok(d) && exists|i: int|
            first_found(git_found@, i) && d@ == ancestors(cwd@)[i]),
        !any_found(git_found@) ==> res == Err::<String, DirError>(DirError::NoGit),
{
    match dir_finder(cwd, git_found) {
        Some(d) => Ok(d),
        None => Err(DirError::NoGit),
    }
}

/// The first directory on the way up is the starting one, each next one is
/// the parent of the one before, and the last has no parent.
pub proof fn lemma_ancestors_chain(p: Seq<char>)
    ensures
        ancestors(p).len() >= 1,
        ancestors(p)[0] == p,
        forall|i: int|
            0 <= i < ancestors(p).len() - 1 ==> path_parent(#[trigger] ancestors(p)[i]) == Some(
                ancestors(p)[i + 1],
            ),
        path_parent(ancestors(p).last()) is None,
    decreases p.len(),
{
    lemma_parent_shorter(p);
    match path_parent(p) {
        Some(q) => {
            lemma_ancestors_chain(q);
            let a = ancestors(p);
            assert(a == seq![p] + ancestors(q));
            assert forall|i: int| 0 <= i < a.len() - 1 implies path_parent(#[trigger] a[i]) == Some(
                a[i + 1],
            ) by {
                if i > 0 {
                    assert(a[i] == ancestors(q)[i - 1]);
                }
            }
        },
        None => {},
    }
}

} // verus!
