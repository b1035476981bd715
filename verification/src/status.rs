//! Parsing of `git status --porcelain`: each line is a two-character status
//! code, a separator and a path.
use vstd::prelude::*;
use crate::text::{
    bytes_skip, char_views, chars_in_bytes, count_chars_in_bytes, lines, lines_of,
    string_of_range, trim, trim_bounds, utf8_width, views,
};
use crate::report::{entries, out_view, plain_line, push_entries, push_text_line, Paint, Piece};

verus! {

broadcast use vstd::seq_lib::group_seq_properties;

/// Every line of `s` has a character boundary at byte `k`, so that
/// `&line[..k]` and `&line[k..]` are defined.
pub open spec fn lines_cut_at(s: Seq<char>, k: int) -> bool {
    forall|i: int| 0 <= i < lines(s).len() ==> (#[trigger] chars_in_bytes(lines(s)[i], k)) is Some
}

/// The status code of `l` is the two characters `a` and `b`.
pub open spec fn code_is(l: Seq<char>, a: char, b: char) -> bool {
    l.len() >= 2 && l[0] == a && l[1] == b
}

/// Where `wtree status` files a porcelain line.
#[derive(Clone, Copy, PartialEq, Eq, Structural, Debug)]
pub enum StatusKind {
    /// `A ` or `M `
    Staged,
    /// ` M` or `??`
    Unstaged,
    /// ` D`
    UnstagedDeleted,
    /// `D `
    StagedDeleted,
    /// any other code
    Other,
}

/// The kind of the porcelain line `l`.
pub open spec fn status_kind(l: Seq<char>) -> StatusKind {
    if code_is(l, 'A', ' ') || code_is(l, 'M', ' ') {
        StatusKind::Staged
    } else if code_is(l, ' ', 'M') || code_is(l, '?', '?') {
        StatusKind::Unstaged
    } else if code_is(l, ' ', 'D') {
        StatusKind::UnstagedDeleted
    } else if code_is(l, 'D', ' ') {
        StatusKind::StagedDeleted
    } else {
        StatusKind::Other
    }
}

/// `&l[2..]`: the line after its status code.
pub open spec fn after_code(l: Seq<char>) -> Seq<char> {
    bytes_skip(l, 2)
}

/// The parts after the code of those lines of `ls` that are of kind `k`, in order.
pub open spec fn select(ls: Seq<Seq<char>>, k: StatusKind) -> Seq<Seq<char>>
    decreases ls.len(),
{
    if ls.len() == 0 {
        seq![]
    } else {
        select(ls.drop_last(), k) + if status_kind(ls.last()) == k {
            seq![after_code(ls.last())]
        } else {
            seq![]
        }
    }
}

fn code_eq(l: &Vec<char>, a: char, b: char) -> (res: bool)
    ensures
        res == code_is(l@, a, b),
{
    l.len() >= 2 && l[0] == a && l[1] == b
}

/// The kind of one porcelain line.
pub fn kind_of_line(l: &Vec<char>) -> (res: StatusKind)
    ensures
        res == status_kind(l@),
{
    if code_eq(l, 'A', ' ') || code_eq(l, 'M', ' ') {
        StatusKind::Staged
    } else if code_eq(l, ' ', 'M') || code_eq(l, '?', '?') {
        StatusKind::Unstaged
    } else if code_eq(l, ' ', 'D') {
        StatusKind::UnstagedDeleted
    } else if code_eq(l, 'D', ' ') {
        StatusKind::StagedDeleted
    } else {
        StatusKind::Other
    }
}

/// `&l[k..]`, given that byte `k` is a boundary of `l`.
pub fn cut_after(l: &Vec<char>, k: usize) -> (res: String)
    requires
        chars_in_bytes(l@, k as int) is Some,
    ensures
        res@ == bytes_skip(l@, k as int),
{
    let n = match count_chars_in_bytes(l, k) {
        Some(n) => n,
        None => 0,
    };
    proof {
        assert(chars_in_bytes(l@, k as int) == Some(n as int));
        lemma_chars_in_bytes_bound(l@, k as int);
    }
    string_of_range(l, n, l.len())
}

/// The count of characters that fill `k` bytes is at most the length.
pub proof fn lemma_chars_in_bytes_bound(s: Seq<char>, k: int)
    ensures
        chars_in_bytes(s, k) matches Some(n) ==> 0 <= n <= s.len(),
    decreases s.len(),
{
    if k > 0 && s.len() > 0 {
        lemma_chars_in_bytes_bound(s.drop_first(), k - utf8_width(s[0]));
    }
}

/// The porcelain lines sorted into what `wtree status` lists: each list
/// holds the part of its lines after the status code, in their order.
pub struct StatusReport {
    pub staged: Vec<String>,
    pub unstaged: Vec<String>,
    pub staged_deleted: Vec<String>,
    pub unstaged_deleted: Vec<String>,
    pub other: Vec<String>,
}

/// The report holds, for each kind, the lines of `s` of that kind.
pub open spec fn report_of(r: StatusReport, s: Seq<char>) -> bool {
    &&& views(r.staged@) == select(lines(s), StatusKind::Staged)
    &&& views(r.unstaged@) == select(lines(s), StatusKind::Unstaged)
    &&& views(r.staged_deleted@) == select(lines(s), StatusKind::StagedDeleted)
    &&& views(r.unstaged_deleted@) == select(lines(s), StatusKind::UnstagedDeleted)
    &&& views(r.other@) == select(lines(s), StatusKind::Other)
}

proof fn lemma_select_step(ls: Seq<Seq<char>>, i: int, k: StatusKind)
    requires
        0 <= i < ls.len(),
    ensures
        select(ls.take(i + 1), k) == select(ls.take(i), k) + if status_kind(ls[i]) == k {
            seq![after_code(ls[i])]
        } else {
            seq![]
        },
{
    assert(ls.take(i + 1).drop_last() == ls.take(i));
}

fn push_string(v: &mut Vec<String>, s: String)
    ensures
        views(final(v)@) == views(old(v)@).push(s@),
{
    v.push(s);
    assert(views(v@) == views(old(v)@).push(s@));
}

/// Every porcelain line is filed under exactly one kind: the five lists
/// together are as long as the lines.
pub proof fn lemma_status_partition(ls: Seq<Seq<char>>)
    ensures
        select(ls, StatusKind::Staged).len() + select(ls, StatusKind::Unstaged).len() + select(
            ls,
            StatusKind::StagedDeleted,
        ).len() + select(ls, StatusKind::UnstagedDeleted).len() + select(ls, StatusKind::Other).len()
            == ls.len(),
    decreases ls.len(),
{
    if ls.len() > 0 {
        lemma_status_partition(ls.drop_last());
    }
}

/// Sorts the lines of `git status --porcelain` output by their status code.
pub fn classify_status(porcelain: &str) -> (res: StatusReport)
    requires
        lines_cut_at(porcelain@, 2),
    ensures
        report_of(res, porcelain@),
{
    let ls = lines_of(porcelain);
    let ghost gl = lines(porcelain@);
    let mut r = StatusReport {
        staged: Vec::new(),
        unstaged: Vec::new(),
        staged_deleted: Vec::new(),
        unstaged_deleted: Vec::new(),
        other: Vec::new(),
    };
    let mut i: usize = 0;
    while i < ls.len()
        invariant
            i <= ls.len(),
            gl == lines(porcelain@),
            char_views(ls@) == gl,
            lines_cut_at(porcelain@, 2),
            views(r.staged@) == select(gl.take(i as int), StatusKind::Staged),
            views(r.unstaged@) == select(gl.take(i as int), StatusKind::Unstaged),
            views(r.staged_deleted@) == select(gl.take(i as int), StatusKind::StagedDeleted),
            views(r.unstaged_deleted@) == select(gl.take(i as int), StatusKind::UnstagedDeleted),
            views(r.other@) == select(gl.take(i as int), StatusKind::Other),
        decreases ls.len() - i,
    {
        let line = &ls[i];
        assert(line@ == gl[i as int]);
        assert(chars_in_bytes(gl[i as int], 2) is Some);
        let kind = kind_of_line(line);
        let rest = cut_after(line, 2);
        proof {
            lemma_select_step(gl, i as int, StatusKind::Staged);
            lemma_select_step(gl, i as int, StatusKind::Unstaged);
            lemma_select_step(gl, i as int, StatusKind::StagedDeleted);
            lemma_select_step(gl, i as int, StatusKind::UnstagedDeleted);
            lemma_select_step(gl, i as int, StatusKind::Other);
        }
        match kind {
            StatusKind::Staged => push_string(&mut r.staged, rest),
            StatusKind::Unstaged => push_string(&mut r.unstaged, rest),
            StatusKind::StagedDeleted => push_string(&mut r.staged_deleted, rest),
            StatusKind::UnstagedDeleted => push_string(&mut r.unstaged_deleted, rest),
            StatusKind::Other => push_string(&mut r.other, rest),
        }
        i = i + 1;
    }
    assert(gl.take(ls.len() as int) == gl);
    r
}

/// What `wtree status` prints for a report: under a header, the staged
/// files (green) and after them the staged deletions (red), when either
/// list has a file; likewise the unstaged files (yellow) and unstaged
/// deletions; then the other files (red); or, when every list is empty,
/// that everything is up to date.  Each file line is a space and the file.
pub open spec fn status_output(
    staged: Seq<Seq<char>>,
    unstaged: Seq<Seq<char>>,
    staged_deleted: Seq<Seq<char>>,
    unstaged_deleted: Seq<Seq<char>>,
    other: Seq<Seq<char>>,
) -> Seq<Seq<(Seq<char>, Paint)>> {
    let a = if staged.len() > 0 || staged_deleted.len() > 0 {
        seq![plain_line("\nStaged files:"@)] + entries(" "@, staged, Paint::Green) + entries(
            " "@,
            staged_deleted,
            Paint::Red,
        )
    } else {
        seq![]
    };
    let b = if unstaged.len() > 0 || unstaged_deleted.len() > 0 {
        seq![plain_line("\nUnstaged files:"@)] + entries(" "@, unstaged, Paint::Yellow)
            + entries(" "@, unstaged_deleted, Paint::Red)
    } else {
        seq![]
    };
    let c = if other.len() > 0 {
        seq![plain_line("\nOther files:"@)] + entries(" "@, other, Paint::Red)
    } else {
        seq![]
    };
    let d = if staged.len() == 0 && unstaged.len() == 0 && unstaged_deleted.len() == 0
        && staged_deleted.len() == 0 && other.len() == 0 {
        seq![plain_line("Everything is up to date"@)]
    } else {
        seq![]
    };
    a + b + c + d
}

/// The lines that `wtree status` prints for the output of
/// `git status --porcelain`.
pub fn get_git_status(porcelain: &str) -> (res: Vec<Vec<Piece>>)
    requires
        lines_cut_at(porcelain@, 2),
    ensures
        out_view(res@) == status_output(
            select(lines(porcelain@), StatusKind::Staged),
            select(lines(porcelain@), StatusKind::Unstaged),
            select(lines(porcelain@), StatusKind::StagedDeleted),
            select(lines(porcelain@), StatusKind::UnstagedDeleted),
            select(lines(porcelain@), StatusKind::Other),
        ),
        lines(porcelain@).len() == 0 ==> out_view(res@) == seq![plain_line("Everything is up to date"@)],
        forall|k: int|
            0 <= k < res@.len() && #[trigger] out_view(res@)[k] == plain_line(
                "Everything is up to date"@,
            ) ==> lines(porcelain@).len() == 0,
{
    proof {
        lemma_up_to_date(porcelain@);
    }
    let r = classify_status(porcelain);
    let mut out: Vec<Vec<Piece>> = Vec::new();
    let ghost o0 = out_view(out@);
    if r.staged.len() > 0 || r.staged_deleted.len() > 0 {
        push_text_line(&mut out, "\nStaged files:");
        push_entries(&mut out, " ", &r.staged, Paint::Green);
        push_entries(&mut out, " ", &r.staged_deleted, Paint::Red);
    }
    let ghost o1 = out_view(out@);
    if r.unstaged.len() > 0 || r.unstaged_deleted.len() > 0 {
        push_text_line(&mut out, "\nUnstaged files:");
        push_entries(&mut out, " ", &r.unstaged, Paint::Yellow);
        push_entries(&mut out, " ", &r.unstaged_deleted, Paint::Red);
    }
    let ghost o2 = out_view(out@);
    if r.other.len() > 0 {
        push_text_line(&mut out, "\nOther files:");
        push_entries(&mut out, " ", &r.other, Paint::Red);
    }
    let ghost o3 = out_view(out@);
    if r.staged.len() == 0 && r.unstaged.len() == 0 && r.unstaged_deleted.len() == 0
        && r.staged_deleted.len() == 0 && r.other.len() == 0 {
        push_text_line(&mut out, "Everything is up to date");
    }
    proof {
        let ghost s = porcelain@;
        assert(views(r.staged@).len() == r.staged@.len());
        assert(views(r.unstaged@).len() == r.unstaged@.len());
        assert(views(r.other@).len() == r.other@.len());
        assert(views(r.staged_deleted@).len() == r.staged_deleted@.len());
        assert(views(r.unstaged_deleted@).len() == r.unstaged_deleted@.len());
        assert(o0 == Seq::<Seq<(Seq<char>, Paint)>>::empty());
    }
    proof {
        assert(out_view(out@).len() == out@.len());
        assert(out_view(out@) == status_of(porcelain@));
    }
    out
}

/// A file's state as the interactive stager shows it.
#[derive(Clone, Copy, PartialEq, Eq, Structural, Debug)]
pub enum FileState {
    New,
    Modified,
    Deleted,
    Renamed,
    Error,
}

/// The state shown for the porcelain line `l`.
pub open spec fn file_state(l: Seq<char>) -> FileState {
    if code_is(l, 'A', ' ') || code_is(l, '?', '?') {
        FileState::New
    } else if code_is(l, 'M', ' ') || code_is(l, ' ', 'M') {
        FileState::Modified
    } else if code_is(l, 'D', ' ') || code_is(l, ' ', 'D') {
        FileState::Deleted
    } else if code_is(l, 'R', ' ') || code_is(l, ' ', 'R') {
        FileState::Renamed
    } else {
        FileState::Error
    }
}

/// The change in the porcelain line `l` is in the index (`A `, `M `, `D `, `R `).
pub open spec fn is_staged(l: Seq<char>) -> bool {
    code_is(l, 'A', ' ') || code_is(l, 'M', ' ') || code_is(l, 'D', ' ') || code_is(l, 'R', ' ')
}

/// The path of the porcelain line `l`: `&l[3..]`, with its surrounding
/// double quotes removed when, once trimmed, it is quoted; else untouched.
pub open spec fn entry_name(l: Seq<char>) -> Seq<char> {
    let rest = bytes_skip(l, 3);
    let t = trim(rest);
    if t.len() >= 2 && t[0] == '"' && t.last() == '"' {
        t.subrange(1, t.len() - 1)
    } else {
        rest
    }
}

/// Every line of `s` can be cut at bytes 2 and 3.
pub open spec fn porcelain_ok(s: Seq<char>) -> bool {
    lines_cut_at(s, 2) && lines_cut_at(s, 3)
}

fn state_of_line(l: &Vec<char>) -> (res: FileState)
    ensures
        res == file_state(l@),
{
    if code_eq(l, 'A', ' ') || code_eq(l, '?', '?') {
        FileState::New
    } else if code_eq(l, 'M', ' ') || code_eq(l, ' ', 'M') {
        FileState::Modified
    } else if code_eq(l, 'D', ' ') || code_eq(l, ' ', 'D') {
        FileState::Deleted
    } else if code_eq(l, 'R', ' ') || code_eq(l, ' ', 'R') {
        FileState::Renamed
    } else {
        FileState::Error
    }
}

fn name_of_line(l: &Vec<char>) -> (res: String)
    requires
        chars_in_bytes(l@, 3) is Some,
    ensures
        res@ == entry_name(l@),
{
    let n = match count_chars_in_bytes(l, 3) {
        Some(n) => n,
        None => 0,
    };
    proof {
        lemma_chars_in_bytes_bound(l@, 3);
    }
    let (a, b) = trim_bounds(l, n, l.len());
    assert(l@.subrange(n as int, l.len() as int) == bytes_skip(l@, 3));
    if b - a >= 2 && l[a] == '"' && l[b - 1] == '"' {
        proof {
            let t = l@.subrange(a as int, b as int);
            assert(t.subrange(1, t.len() - 1) == l@.subrange(a + 1, b - 1));
        }
        string_of_range(l, a + 1, b - 1)
    } else {
        string_of_range(l, n, l.len())
    }
}

/// The files of `git status --porcelain` output as the interactive stager
/// lists them: the path of each line, whether its change is staged, and its
/// state, one entry per line in order.
pub fn get_file_states(porcelain: &str) -> (res: (Vec<String>, Vec<bool>, Vec<FileState>))
    requires
        porcelain_ok(porcelain@),
    ensures
        views(res.0@) == lines(porcelain@).map_values(|l: Seq<char>| entry_name(l)),
        res.1@ == lines(porcelain@).map_values(|l: Seq<char>| is_staged(l)),
        res.2@ == lines(porcelain@).map_values(|l: Seq<char>| file_state(l)),
        forall|i: int|
            0 <= i < lines(porcelain@).len() ==> res.1@[i] == ({
                let l = #[trigger] lines(porcelain@)[i];
                l.len() >= 2 && l[1] == ' ' && (l[0] == 'A' || l[0] == 'M' || l[0] == 'D' || l[0]
                    == 'R')
            }),
{
    let ls = lines_of(porcelain);
    let ghost gl = lines(porcelain@);
    let mut files: Vec<String> = Vec::new();
    let mut added: Vec<bool> = Vec::new();
    let mut states: Vec<FileState> = Vec::new();
    let mut i: usize = 0;
    while i < ls.len()
        invariant
            i <= ls.len(),
            gl == lines(porcelain@),
            char_views(ls@) == gl,
            porcelain_ok(porcelain@),
            views(files@) == gl.take(i as int).map_values(|l: Seq<char>| entry_name(l)),
            added@ == gl.take(i as int).map_values(|l: Seq<char>| is_staged(l)),
            states@ == gl.take(i as int).map_values(|l: Seq<char>| file_state(l)),
        decreases ls.len() - i,
    {
        let line = &ls[i];
        assert(line@ == gl[i as int]);
        assert(chars_in_bytes(gl[i as int], 3) is Some);
        let name = name_of_line(line);
        let staged = code_eq(line, 'A', ' ') || code_eq(line, 'M', ' ') || code_eq(line, 'D', ' ')
            || code_eq(line, 'R', ' ');
        let state = state_of_line(line);
        proof {
            assert(gl.take(i + 1) == gl.take(i as int).push(gl[i as int]));
        }
        push_string(&mut files, name);
        added.push(staged);
        states.push(state);
        i = i + 1;
    }
    assert(gl.take(ls.len() as int) == gl);
    (files, added, states)
}

/// A porcelain line is marked staged exactly when its index (first) column
/// is `A`, `M`, `D` or `R` and its worktree (second) column is a space.
pub proof fn lemma_staged_flag(l: Seq<char>)
    ensures
        is_staged(l) <==> (l.len() >= 2 && l[1] == ' ' && (l[0] == 'A' || l[0] == 'M' || l[0]
            == 'D' || l[0] == 'R')),
{
}

/// What `wtree status` prints for the porcelain text `s`.
pub open spec fn status_of(s: Seq<char>) -> Seq<Seq<(Seq<char>, Paint)>> {
    status_output(
        select(lines(s), StatusKind::Staged),
        select(lines(s), StatusKind::Unstaged),
        select(lines(s), StatusKind::StagedDeleted),
        select(lines(s), StatusKind::UnstagedDeleted),
        select(lines(s), StatusKind::Other),
    )
}

/// A printed line that is a file entry (two pieces) or a section header
/// (one piece that begins with a newline).
pub open spec fn listing_line(x: Seq<(Seq<char>, Paint)>) -> bool {
    x.len() == 2 || (x.len() == 1 && x[0].0.len() > 0 && x[0].0[0] == '\n')
}

proof fn lemma_listing_concat(p: Seq<Seq<(Seq<char>, Paint)>>, q: Seq<Seq<(Seq<char>, Paint)>>)
    requires
        forall|k: int| 0 <= k < p.len() ==> listing_line(#[trigger] p[k]),
        forall|k: int| 0 <= k < q.len() ==> listing_line(#[trigger] q[k]),
    ensures
        forall|k: int| 0 <= k < (p + q).len() ==> listing_line(#[trigger] (p + q)[k]),
{
    assert forall|k: int| 0 <= k < (p + q).len() implies listing_line(#[trigger] (p + q)[k]) by {
        if k < p.len() {
            assert((p + q)[k] == p[k]);
        } else {
            assert((p + q)[k] == q[k - p.len()]);
        }
    }
}

proof fn lemma_entries_listing(lead: Seq<char>, names: Seq<Seq<char>>, paint: Paint)
    ensures
        forall|k: int|
            0 <= k < entries(lead, names, paint).len() ==> listing_line(
                #[trigger] entries(lead, names, paint)[k],
            ),
{
}

proof fn lemma_header_listing(h: Seq<char>)
    requires
        h.len() > 0 && h[0] == '\n',
    ensures
        forall|k: int| 0 <= k < seq![plain_line(h)].len() ==> listing_line(#[trigger] seq![plain_line(h)][k]),
{
}

/// `wtree status` says that everything is up to date exactly when git
/// reports no line at all: with no line that is all it prints, and with any
/// line it never prints it (every line printed is then a section header or
/// a file).
pub proof fn lemma_up_to_date(s: Seq<char>)
    ensures
        lines(s).len() == 0 ==> status_of(s) == seq![plain_line("Everything is up to date"@)],
        forall|k: int|
            0 <= k < status_of(s).len() && #[trigger] status_of(s)[k] == plain_line(
                "Everything is up to date"@,
            ) ==> lines(s).len() == 0,
{
    let ls = lines(s);
    lemma_status_partition(ls);
    reveal_strlit("Everything is up to date");
    reveal_strlit("\nStaged files:");
    reveal_strlit("\nUnstaged files:");
    reveal_strlit("\nOther files:");
    let u = plain_line("Everything is up to date"@);
    assert(!listing_line(u));
    if ls.len() > 0 {
        let st = select(ls, StatusKind::Staged);
        let un = select(ls, StatusKind::Unstaged);
        let sd = select(ls, StatusKind::StagedDeleted);
        let ud = select(ls, StatusKind::UnstagedDeleted);
        let ot = select(ls, StatusKind::Other);
        let e: Seq<Seq<(Seq<char>, Paint)>> = seq![];
        lemma_entries_listing(" "@, st, Paint::Green);
        lemma_entries_listing(" "@, sd, Paint::Red);
        lemma_entries_listing(" "@, un, Paint::Yellow);
        lemma_entries_listing(" "@, ud, Paint::Red);
        lemma_entries_listing(" "@, ot, Paint::Red);
        lemma_header_listing("\nStaged files:"@);
        lemma_header_listing("\nUnstaged files:"@);
        lemma_header_listing("\nOther files:"@);
        let a = if st.len() > 0 || sd.len() > 0 {
            seq![plain_line("\nStaged files:"@)] + entries(" "@, st, Paint::Green) + entries(
                " "@,
                sd,
                Paint::Red,
            )
        } else {
            e
        };
        let b = if un.len() > 0 || ud.len() > 0 {
            seq![plain_line("\nUnstaged files:"@)] + entries(" "@, un, Paint::Yellow) + entries(
                " "@,
                ud,
                Paint::Red,
            )
        } else {
            e
        };
        let c = if ot.len() > 0 {
            seq![plain_line("\nOther files:"@)] + entries(" "@, ot, Paint::Red)
        } else {
            e
        };
        lemma_listing_concat(seq![plain_line("\nStaged files:"@)], entries(" "@, st, Paint::Green));
        lemma_listing_concat(
            seq![plain_line("\nStaged files:"@)] + entries(" "@, st, Paint::Green),
            entries(" "@, sd, Paint::Red),
        );
        lemma_listing_concat(seq![plain_line("\nUnstaged files:"@)], entries(" "@, un, Paint::Yellow));
        lemma_listing_concat(
            seq![plain_line("\nUnstaged files:"@)] + entries(" "@, un, Paint::Yellow),
            entries(" "@, ud, Paint::Red),
        );
        lemma_listing_concat(seq![plain_line("\nOther files:"@)], entries(" "@, ot, Paint::Red));
        lemma_listing_concat(a, b);
        lemma_listing_concat(a + b, c);
        lemma_listing_concat(a + b + c, e);
        assert(status_of(s) == a + b + c + e);
        assert forall|k: int|
            0 <= k < status_of(s).len() && #[trigger] status_of(s)[k] == u implies ls.len() == 0 by {
            assert(listing_line(status_of(s)[k]));
        }
    }
}

/// The kind of a porcelain line, read off its first two characters.
pub proof fn lemma_status_kind(l: Seq<char>)
    ensures
        status_kind(l) == StatusKind::Staged <==> (l.len() >= 2 && l[1] == ' ' && (l[0] == 'A'
            || l[0] == 'M')),
        status_kind(l) == StatusKind::Unstaged <==> (l.len() >= 2 && ((l[0] == ' ' && l[1] == 'M')
            || (l[0] == '?' && l[1] == '?'))),
        status_kind(l) == StatusKind::UnstagedDeleted <==> (l.len() >= 2 && l[0] == ' ' && l[1]
            == 'D'),
        status_kind(l) == StatusKind::StagedDeleted <==> (l.len() >= 2 && l[0] == 'D' && l[1]
            == ' '),
{
}

/// The state shown for a porcelain line, read off its first two
/// characters: `A ` and `??` are new, `M`, `D`, `R` in either column
/// with a space in the other are modified, deleted, renamed; anything else
/// is an error.
pub proof fn lemma_file_state(l: Seq<char>)
    ensures
        file_state(l) == FileState::New <==> (l.len() >= 2 && ((l[0] == 'A' && l[1] == ' ') || (
        l[0] == '?' && l[1] == '?'))),
        file_state(l) == FileState::Modified <==> (l.len() >= 2 && ((l[0] == 'M' && l[1] == ' ')
            || (l[0] == ' ' && l[1] == 'M'))),
        file_state(l) == FileState::Deleted <==> (l.len() >= 2 && ((l[0] == 'D' && l[1] == ' ')
            || (l[0] == ' ' && l[1] == 'D'))),
        file_state(l) == FileState::Renamed <==> (l.len() >= 2 && ((l[0] == 'R' && l[1] == ' ')
            || (l[0] == ' ' && l[1] == 'R'))),
{
}

} // verus!
