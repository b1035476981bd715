//! Staging and unstaging: which files a command touches, what it reports
//! afterwards, and the interactive stager's list of files.
use vstd::prelude::*;
use crate::keys::{Key, KeyPress};
use crate::report::{line_view, out_view, Paint, Piece};
use crate::status::{
    code_is, get_file_states, entry_name, file_state, is_staged, lemma_chars_in_bytes_bound,
    porcelain_ok, FileState,
};
use crate::text::{
    bytes_skip, char_views, chars_in_bytes, copy_range, count_chars_in_bytes, lines, lines_of,
    string_of_range,
    trim, trimmed, string_of, views,
};

verus! {

broadcast use vstd::seq_lib::group_seq_properties;

/// The lines of `s`, each trimmed.
pub open spec fn trimmed_lines(s: Seq<char>) -> Seq<Seq<char>> {
    lines(s).map_values(|l: Seq<char>| trim(l))
}

/// The lines of a list of file names (such as `git diff --cached
/// --name-only` prints), each trimmed.
pub fn string_to_vec(list: &str) -> (res: Vec<String>)
    ensures
        views(res@) == trimmed_lines(list@),
{
    let ls = lines_of(list);
    let ghost gl = lines(list@);
    let mut res: Vec<String> = Vec::new();
    let mut i: usize = 0;
    while i < ls.len()
        invariant
            i <= ls.len(),
            gl == lines(list@),
            char_views(ls@) == gl,
            views(res@) == gl.take(i as int).map_values(|l: Seq<char>| trim(l)),
        decreases ls.len() - i,
    {
        assert(ls@[i as int]@ == gl[i as int]);
        let t = trimmed(&ls[i]);
        let s = string_of(&t);
        proof {
            assert(gl.take(i + 1) == gl.take(i as int).push(gl[i as int]));
            assert(views(res@.push(s)) == views(res@).push(s@));
        }
        res.push(s);
        i = i + 1;
    }
    assert(gl.take(ls.len() as int) == gl);
    res
}

/// The arguments of the `git add` that stages `file`.
pub fn stage_file(file: &str) -> (res: Vec<String>)
    ensures
        views(res@) == seq!["add"@, file@],
{
    let mut v: Vec<String> = Vec::new();
    v.push("add".to_owned());
    v.push(file.to_owned());
    assert(views(v@) == seq!["add"@, file@]);
    v
}

/// The arguments of the `git restore --staged` that unstages `file`.
pub fn unstage_file(file: &str) -> (res: Vec<String>)
    ensures
        views(res@) == seq!["restore"@, "--staged"@, file@],
{
    let mut v: Vec<String> = Vec::new();
    v.push("restore".to_owned());
    v.push("--staged".to_owned());
    v.push(file.to_owned());
    assert(views(v@) == seq!["restore"@, "--staged"@, file@]);
    v
}

/// The items of `a` that do not occur in `b`, in their order in `a`.
pub open spec fn minus(a: Seq<Seq<char>>, b: Seq<Seq<char>>) -> Seq<Seq<char>>
    decreases a.len(),
{
    if a.len() == 0 {
        seq![]
    } else {
        minus(a.drop_last(), b) + if b.contains(a.last()) {
            seq![]
        } else {
            seq![a.last()]
        }
    }
}

fn occurs(x: &String, l: &Vec<String>) -> (res: bool)
    ensures
        res == views(l@).contains(x@),
{
    let mut j: usize = 0;
    while j < l.len()
        invariant
            j <= l.len(),
            forall|k: int| 0 <= k < j ==> views(l@)[k] != x@,
        decreases l.len() - j,
    {
        if l[j] == *x {
            assert(views(l@)[j as int] == x@);
            return true;
        }
        j = j + 1;
    }
    false
}

/// The files of `l1` that are not in `l2`, in their order in `l1`.
pub fn list_diff(l1: Vec<String>, l2: Vec<String>) -> (res: Vec<String>)
    ensures
        views(res@) == minus(views(l1@), views(l2@)),
{
    let mut res: Vec<String> = Vec::new();
    let mut i: usize = 0;
    let ghost a = views(l1@);
    while i < l1.len()
        invariant
            i <= l1.len(),
            a == views(l1@),
            views(res@) == minus(a.take(i as int), views(l2@)),
        decreases l1.len() - i,
    {
        assert(a.take(i + 1).drop_last() == a.take(i as int));
        if !occurs(&l1[i], &l2) {
            let s = l1[i].clone();
            assert(views(res@.push(s)) == views(res@).push(s@));
            res.push(s);
        }
        i = i + 1;
    }
    assert(a.take(l1.len() as int) == a);
    res
}

/// `x` is in `minus(a, b)` exactly when it is in `a` and not in `b`.
pub proof fn lemma_list_diff_members(a: Seq<Seq<char>>, b: Seq<Seq<char>>, x: Seq<char>)
    ensures
        minus(a, b).contains(x) <==> (a.contains(x) && !b.contains(x)),
    decreases a.len(),
{
    if a.len() > 0 {
        lemma_list_diff_members(a.drop_last(), b, x);
        assert(a == a.drop_last().push(a.last()));
        if a.contains(x) && !(a.drop_last().contains(x)) {
            assert(x == a.last());
        }
        let tail = if b.contains(a.last()) {
            seq![]
        } else {
            seq![a.last()]
        };
        assert(minus(a, b) == minus(a.drop_last(), b) + tail);
        if minus(a, b).contains(x) {
            let k = choose|k: int| 0 <= k < minus(a, b).len() && minus(a, b)[k] == x;
            if k >= minus(a.drop_last(), b).len() {
                assert(x == a.last());
            } else {
                assert(minus(a.drop_last(), b)[k] == x);
            }
        }
        if a.drop_last().contains(x) && !b.contains(x) {
            let k = choose|k: int| 0 <= k < minus(a.drop_last(), b).len() && minus(a.drop_last(), b)[k] == x;
            assert(minus(a, b)[k] == x);
        }
        if x == a.last() && !b.contains(x) {
            assert(minus(a, b)[minus(a, b).len() - 1] == x);
        }
    }
}

/// The files that `wtree stage` adds: `.` when `all` is set, else the files
/// given; `None` when no file was given.
pub fn stage_targets(files: Option<Vec<String>>, all: bool) -> (res: Option<Vec<String>>)
    ensures
        all ==> (res matches Some(v) && views(v@) == seq![seq!['.']]),
        !all ==> res == files,
{
    if all {
        let mut v: Vec<String> = Vec::new();
        let dot = ".".to_owned();
        proof {
            reveal_strlit(".");
        }
        v.push(dot);
        assert(dot@ == seq!['.']);
        assert(views(v@) =~= seq![seq!['.']]);
        Some(v)
    } else {
        files
    }
}

/// One line `<file> -> <file>` for each file moved, the first time in
/// `from` and the second in `to`.
pub open spec fn moved(names: Seq<Seq<char>>, from: Paint, to: Paint) -> Seq<Seq<(Seq<char>, Paint)>> {
    names.map_values(
        |n: Seq<char>| seq![(n, from), (" -> "@, Paint::Plain), (n, to)],
    )
}

fn moved_lines(names: &Vec<String>, from: Paint, to: Paint) -> (res: Vec<Vec<Piece>>)
    ensures
        out_view(res@) == moved(views(names@), from, to),
{
    let mut res: Vec<Vec<Piece>> = Vec::new();
    let mut i: usize = 0;
    while i < names.len()
        invariant
            i <= names.len(),
            out_view(res@) == moved(views(names@).take(i as int), from, to),
        decreases names.len() - i,
    {
        let mut l: Vec<Piece> = Vec::new();
        l.push(Piece { text: names[i].clone(), paint: from });
        l.push(Piece { text: " -> ".to_owned(), paint: Paint::Plain });
        l.push(Piece { text: names[i].clone(), paint: to });
        proof {
            let n = views(names@)[i as int];
            assert(line_view(l@) == seq![(n, from), (" -> "@, Paint::Plain), (n, to)]);
            assert(views(names@).take(i + 1) == views(names@).take(i as int).push(n));
            assert(out_view(res@.push(l)) == out_view(res@).push(line_view(l@)));
        }
        res.push(l);
        i = i + 1;
    }
    assert(views(names@).take(names.len() as int) == views(names@));
    res
}

/// What `wtree stage` reports: each file staged now that was not before,
/// red then green.
pub fn stage_report(initial: Vec<String>, final_files: Vec<String>) -> (res: Vec<Vec<Piece>>)
    ensures
        out_view(res@) == moved(minus(views(final_files@), views(initial@)), Paint::Red, Paint::Green),
{
    let d = list_diff(final_files, initial);
    moved_lines(&d, Paint::Red, Paint::Green)
}

/// What `wtree unstage` reports: each file staged before that is not now,
/// green then red.
pub fn unstage_report(initial: Vec<String>, final_files: Vec<String>) -> (res: Vec<Vec<Piece>>)
    ensures
        out_view(res@) == moved(minus(views(initial@), views(final_files@)), Paint::Green, Paint::Red),
{
    let d = list_diff(initial, final_files);
    moved_lines(&d, Paint::Green, Paint::Red)
}

/// Why a staging command refuses to run.
#[derive(Clone, Copy, PartialEq, Eq, Structural, Debug)]
pub enum StagingError {
    /// Neither a file nor `--all` was given to `wtree unstage`.
    NoFileSpecified,
}

impl StagingError {
    /// The message of the error.
    pub fn message(&self) -> (res: &'static str)
        ensures
            res@ == "No file specified"@,
    {
        "No file specified"
    }
}

/// The index column (the first character) of the porcelain line `l`
/// records a staged change: modified, type changed, added, deleted,
/// renamed or copied.
pub open spec fn index_changed(l: Seq<char>) -> bool {
    l.len() > 0 && (l[0] == 'M' || l[0] == 'T' || l[0] == 'A' || l[0] == 'D' || l[0] == 'R'
        || l[0] == 'C')
}

/// The index of the first ` -> ` in `s` at or after `i`, or -1.
pub open spec fn arrow_from(s: Seq<char>, i: int) -> int
    decreases s.len() - i,
{
    if i < 0 || i + 4 > s.len() {
        -1
    } else if s.subrange(i, i + 4) == seq![' ', '-', '>', ' '] {
        i
    } else {
        arrow_from(s, i + 1)
    }
}

/// The path to restore for the porcelain line `l`: `&l[3..]`, and for a
/// rename or copy (`old -> new`) the part after the first ` -> `.
pub open spec fn restore_path(l: Seq<char>) -> Seq<char> {
    let rest = bytes_skip(l, 3);
    if (l[0] == 'R' || l[0] == 'C') && arrow_from(rest, 0) >= 0 {
        rest.skip(arrow_from(rest, 0) + 4)
    } else {
        rest
    }
}

/// ` -> ` occurs in `s` at position `k`.
pub open spec fn arrow_at(s: Seq<char>, k: int) -> bool {
    0 <= k && k + 4 <= s.len() && s.subrange(k, k + 4) == seq![' ', '-', '>', ' ']
}

proof fn lemma_arrow_from_first(s: Seq<char>, j: int, i: int)
    requires
        0 <= j <= i,
        i + 4 <= s.len(),
        s.subrange(i, i + 4) == seq![' ', '-', '>', ' '],
        forall|k: int| j <= k < i ==> !#[trigger] arrow_at(s, k),
    ensures
        arrow_from(s, j) == i,
    decreases i - j,
{
    if j < i {
        assert(!arrow_at(s, j));
        lemma_arrow_from_first(s, j + 1, i);
    }
}

proof fn lemma_arrow_from_none(s: Seq<char>, j: int)
    requires
        0 <= j,
        forall|k: int| j <= k ==> !#[trigger] arrow_at(s, k),
    ensures
        arrow_from(s, j) == -1,
    decreases s.len() - j,
{
    if j + 4 <= s.len() {
        assert(!arrow_at(s, j));
        lemma_arrow_from_none(s, j + 1);
    }
}

/// For a rename or copy line (index column `R` or `C`), whatever its
/// worktree column, the path restored is what follows the first ` -> ` of
/// the line's path part `&l[3..]`.
pub proof fn lemma_restore_renamed(l: Seq<char>, i: int)
    requires
        l.len() > 0,
        l[0] == 'R' || l[0] == 'C',
        0 <= i,
        i + 4 <= bytes_skip(l, 3).len(),
        bytes_skip(l, 3).subrange(i, i + 4) == seq![' ', '-', '>', ' '],
        forall|k: int| 0 <= k < i ==> !#[trigger] arrow_at(bytes_skip(l, 3), k),
    ensures
        restore_path(l) == bytes_skip(l, 3).skip(i + 4),
{
    lemma_arrow_from_first(bytes_skip(l, 3), 0, i);
}

/// Any other line, and a rename or copy whose path part holds no ` -> `,
/// restores its whole path part `&l[3..]`.
pub proof fn lemma_restore_plain(l: Seq<char>)
    requires
        l.len() > 0,
        !(l[0] == 'R' || l[0] == 'C') || forall|k: int| !#[trigger] arrow_at(bytes_skip(l, 3), k),
    ensures
        restore_path(l) == bytes_skip(l, 3),
{
    if l[0] == 'R' || l[0] == 'C' {
        lemma_arrow_from_none(bytes_skip(l, 3), 0);
    }
}

/// The paths to restore for the lines of `ls` with a staged change, in order.
pub open spec fn staged_paths(ls: Seq<Seq<char>>) -> Seq<Seq<char>>
    decreases ls.len(),
{
    if ls.len() == 0 {
        seq![]
    } else {
        staged_paths(ls.drop_last()) + if index_changed(ls.last()) {
            seq![restore_path(ls.last())]
        } else {
            seq![]
        }
    }
}

/// Every line of `s` with a staged change can be cut at byte 3.
pub open spec fn staged_lines_cut(s: Seq<char>) -> bool {
    forall|i: int|
        0 <= i < lines(s).len() && index_changed(#[trigger] lines(s)[i]) ==> chars_in_bytes(
            lines(s)[i],
            3,
        ) is Some
}

/// The index of the first ` -> ` in `v`.
fn find_arrow(v: &Vec<char>) -> (res: Option<usize>)
    ensures
        res matches Some(i) ==> arrow_from(v@, 0) == i as int && i + 4 <= v.len(),
        res is None ==> arrow_from(v@, 0) == -1,
{
    let mut i: usize = 0;
    while i < v.len() && v.len() - i >= 4
        invariant
            i <= v.len(),
            arrow_from(v@, 0) == arrow_from(v@, i as int),
        decreases v.len() - i,
    {
        if v[i] == ' ' && v[i + 1] == '-' && v[i + 2] == '>' && v[i + 3] == ' ' {
            assert(v@.subrange(i as int, i + 4) == seq![' ', '-', '>', ' ']);
            return Some(i);
        }
        proof {
            let sub = v@.subrange(i as int, i + 4);
            assert(sub[0] == v@[i as int] && sub[1] == v@[i + 1] && sub[2] == v@[i + 2] && sub[3]
                == v@[i + 3]);
            assert(seq![' ', '-', '>', ' '][1] == '-');
            assert(seq![' ', '-', '>', ' '][2] == '>');
            assert(seq![' ', '-', '>', ' '][3] == ' ');
        }
        i = i + 1;
    }
    None
}

/// The files that `wtree unstage` restores: the one given, or with `all`
/// the path of every line of `porcelain` (the output of `git status
/// --porcelain`, read only when `all` is set) whose index column records a
/// staged change (see `restore_path`).
pub fn unstage(file: Option<String>, all: bool, porcelain: &str) -> (res: Result<Vec<String>, StagingError>)
    requires
        all ==> staged_lines_cut(porcelain@),
    ensures
        file is None && !all ==> res == Err::<Vec<String>, StagingError>(StagingError::NoFileSpecified),
        (!all && file is Some) ==> (res matches Ok(v) && v@ == seq![file->0]),
        all ==> (res matches Ok(v) && views(v@) == staged_paths(lines(porcelain@))),
{
    if file.is_none() && !all {
        return Err(StagingError::NoFileSpecified);
    }
    if !all {
        let f = file.unwrap();
        let mut v: Vec<String> = Vec::new();
        v.push(f);
        return Ok(v);
    }
    let ls = lines_of(porcelain);
    let ghost gl = lines(porcelain@);
    let mut res: Vec<String> = Vec::new();
    let mut i: usize = 0;
    while i < ls.len()
        invariant
            i <= ls.len(),
            gl == lines(porcelain@),
            char_views(ls@) == gl,
            staged_lines_cut(porcelain@),
            views(res@) == staged_paths(gl.take(i as int)),
        decreases ls.len() - i,
    {
        let line = &ls[i];
        assert(line@ == gl[i as int]);
        assert(gl.take(i + 1).drop_last() == gl.take(i as int));
        if line.len() > 0 && (line[0] == 'M' || line[0] == 'T' || line[0] == 'A' || line[0] == 'D'
            || line[0] == 'R' || line[0] == 'C') {
            assert(chars_in_bytes(gl[i as int], 3) is Some);
            let n = match count_chars_in_bytes(line, 3) {
                Some(n) => n,
                None => 0,
            };
            proof {
                lemma_chars_in_bytes_bound(line@, 3);
            }
            let rest = copy_range(line, n, line.len());
            assert(rest@ == bytes_skip(line@, 3));
            let path = if line[0] == 'R' || line[0] == 'C' {
                match find_arrow(&rest) {
                    Some(k) => string_of_range(&rest, k + 4, rest.len()),
                    None => string_of(&rest),
                }
            } else {
                string_of(&rest)
            };
            assert(path@ == restore_path(line@));
            assert(views(res@.push(path)) == views(res@).push(path@));
            res.push(path);
        }
        i = i + 1;
    }
    assert(gl.take(ls.len() as int) == gl);
    Ok(res)
}

/// A change the interactive stager applies to one file.
#[derive(Debug)]
pub struct FileChange {
    /// `true` to stage the file, `false` to unstage it.
    pub stage: bool,
    pub file: String,
}

impl View for FileChange {
    type V = (bool, Seq<char>);

    open spec fn view(&self) -> (bool, Seq<char>) {
        (self.stage, self.file@)
    }
}

/// The changes for the first `k` files: a file not staged before and
/// checked now is staged, one staged before and unchecked now is unstaged.
pub open spec fn changes_upto(f: Seq<Seq<char>>, o: Seq<bool>, n: Seq<bool>, k: int) -> Seq<
    (bool, Seq<char>),
>
    decreases k,
{
    if k <= 0 {
        seq![]
    } else {
        changes_upto(f, o, n, k - 1) + if !o[k - 1] && n[k - 1] {
            seq![(true, f[k - 1])]
        } else if o[k - 1] && !n[k - 1] {
            seq![(false, f[k - 1])]
        } else {
            seq![]
        }
    }
}

/// The smallest of three lengths.
pub open spec fn min3(a: int, b: int, c: int) -> int {
    if a <= b && a <= c {
        a
    } else if b <= c {
        b
    } else {
        c
    }
}

/// The changes the interactive stager applies, file by file, given each
/// file's state before (`old_states`) and after (`new_states`).
pub fn get_file_changes(files: &Vec<String>, old_states: &Vec<bool>, new_states: &Vec<bool>) -> (res: Vec<FileChange>)
    ensures
        res@.map_values(|c: FileChange| c@) == changes_upto(
            views(files@),
            old_states@,
            new_states@,
            min3(files.len() as int, old_states.len() as int, new_states.len() as int),
        ),
{
    let mut len = files.len();
    if old_states.len() < len {
        len = old_states.len();
    }
    if new_states.len() < len {
        len = new_states.len();
    }
    let mut res: Vec<FileChange> = Vec::new();
    let mut i: usize = 0;
    while i < len
        invariant
            i <= len,
            len <= files.len(),
            len <= old_states.len(),
            len <= new_states.len(),
            res@.map_values(|c: FileChange| c@) == changes_upto(
                views(files@),
                old_states@,
                new_states@,
                i as int,
            ),
        decreases len - i,
    {
        let o = old_states[i];
        let n = new_states[i];
        if !o && n {
            let c = FileChange { stage: true, file: files[i].clone() };
            assert(res@.push(c).map_values(|c: FileChange| c@) == res@.map_values(
                |c: FileChange| c@,
            ).push(c@));
            res.push(c);
        } else if o && !n {
            let c = FileChange { stage: false, file: files[i].clone() };
            assert(res@.push(c).map_values(|c: FileChange| c@) == res@.map_values(
                |c: FileChange| c@,
            ).push(c@));
            res.push(c);
        }
        i = i + 1;
    }
    res
}

/// The colour of a state in the stager's list.
#[derive(Clone, Copy, PartialEq, Eq, Structural, Debug)]
pub enum RowColor {
    Green,
    Yellow,
    Red,
    LightRed,
}

/// One row of the stager's list.
#[derive(Debug)]
pub struct CheckRow {
    pub checkmark: String,
    pub label: String,
    pub color: RowColor,
    pub file: String,
}

impl View for CheckRow {
    type V = (Seq<char>, Seq<char>, RowColor, Seq<char>);

    open spec fn view(&self) -> (Seq<char>, Seq<char>, RowColor, Seq<char>) {
        (self.checkmark@, self.label@, self.color, self.file@)
    }
}

/// The check mark of a staged (`true`) or unstaged file.
pub open spec fn checkmark(added: bool) -> Seq<char> {
    if added {
        "  \u{2705}"@
    } else {
        "  []"@
    }
}

/// The label shown for a state.
pub open spec fn state_label(s: FileState) -> Seq<char> {
    match s {
        FileState::New => "      New    "@,
        FileState::Modified | FileState::Renamed => "      Mod    "@,
        FileState::Deleted => "      Del    "@,
        FileState::Error => "      Err    "@,
    }
}

/// The colour shown for a state.
pub open spec fn state_color(s: FileState) -> RowColor {
    match s {
        FileState::New => RowColor::Green,
        FileState::Modified | FileState::Renamed => RowColor::Yellow,
        FileState::Deleted => RowColor::Red,
        FileState::Error => RowColor::LightRed,
    }
}

/// The rows of the stager's list: one per file, as far as all three lists
/// reach.
pub open spec fn rows_of(f: Seq<Seq<char>>, a: Seq<bool>, s: Seq<FileState>) -> Seq<
    (Seq<char>, Seq<char>, RowColor, Seq<char>),
> {
    Seq::new(
        min3(f.len() as int, a.len() as int, s.len() as int) as nat,
        |i: int| (checkmark(a[i]), state_label(s[i]), state_color(s[i]), f[i]),
    )
}

fn row(file: String, added: bool, state: FileState) -> (res: CheckRow)
    ensures
        res@ == (checkmark(added), state_label(state), state_color(state), file@),
{
    let checkmark = if added {
        "  \u{2705}".to_owned()
    } else {
        "  []".to_owned()
    };
    let (label, color) = match state {
        FileState::New => ("      New    ", RowColor::Green),
        FileState::Modified | FileState::Renamed => ("      Mod    ", RowColor::Yellow),
        FileState::Deleted => ("      Del    ", RowColor::Red),
        FileState::Error => ("      Err    ", RowColor::LightRed),
    };
    CheckRow { checkmark, label: label.to_owned(), color, file }
}

/// The rows of the stager's list for the given files, check states and
/// file states.
pub fn generate_list(files: &Vec<String>, added: &Vec<bool>, states: &Vec<FileState>) -> (res: Vec<CheckRow>)
    ensures
        res@.map_values(|r: CheckRow| r@) == rows_of(views(files@), added@, states@),
{
    let mut len = files.len();
    if added.len() < len {
        len = added.len();
    }
    if states.len() < len {
        len = states.len();
    }
    let ghost target = rows_of(views(files@), added@, states@);
    let mut res: Vec<CheckRow> = Vec::new();
    let mut i: usize = 0;
    while i < len
        invariant
            i <= len,
            len == min3(files.len() as int, added.len() as int, states.len() as int),
            target == rows_of(views(files@), added@, states@),
            res@.map_values(|r: CheckRow| r@) == target.take(i as int),
        decreases len - i,
    {
        let r = row(files[i].clone(), added[i], states[i]);
        assert(res@.push(r).map_values(|r: CheckRow| r@) == res@.map_values(|r: CheckRow| r@).push(
            r@,
        ));
        assert(target.take(i + 1) == target.take(i as int).push(target[i as int]));
        res.push(r);
        i = i + 1;
    }
    assert(target.take(len as int) == target);
    res
}

/// The interactive stager's state: the files with their states, whether
/// each is checked now and whether it was staged at the start, and the
/// selected row.
pub struct StatefulCheckBox {
    pub files: Vec<String>,
    pub states: Vec<FileState>,
    pub added: Vec<bool>,
    pub original_states: Vec<bool>,
    pub selected: Option<usize>,
}

impl StatefulCheckBox {
    /// The four lists describe the same files.
    pub open spec fn wf(&self) -> bool {
        &&& self.states.len() == self.files.len()
        &&& self.added.len() == self.files.len()
        &&& self.original_states.len() == self.files.len()
    }

    /// The stager for the output of `git status --porcelain`: every file
    /// as `get_file_states` reads it, checked as it is staged, and the
    /// first row selected.
    pub fn new(porcelain: &str) -> (res: Self)
        requires
            porcelain_ok(porcelain@),
        ensures
            res.wf(),
            views(res.files@) == lines(porcelain@).map_values(|l: Seq<char>| entry_name(l)),
            res.added@ == lines(porcelain@).map_values(|l: Seq<char>| is_staged(l)),
            res.states@ == lines(porcelain@).map_values(|l: Seq<char>| file_state(l)),
            res.original_states@ == res.added@,
            res.selected == Some(0usize),
    {
        let (files, added, states) = get_file_states(porcelain);
        assert(views(files@).len() == files@.len());
        let original_states = added.clone();
        StatefulCheckBox { files, states, added, original_states, selected: Some(0) }
    }

    /// The selection after moving down: past the last row it wraps to the first.
    pub open spec fn next_of(sel: Option<usize>, len: nat) -> Option<usize> {
        match sel {
            Some(i) => if i == (if len == 0 { 0 } else { len - 1 }) {
                Some(0usize)
            } else {
                Some((i + 1) as usize)
            },
            None => Some(0usize),
        }
    }

    /// The selection after moving up: above the first row it wraps to the last.
    pub open spec fn previous_of(sel: Option<usize>, len: nat) -> Option<usize> {
        match sel {
            Some(i) => if i == 0 {
                Some((if len == 0 { 0 } else { len - 1 }) as usize)
            } else {
                Some((i - 1) as usize)
            },
            None => Some(0usize),
        }
    }

    /// Moves the selection down one row.
    pub fn next(&mut self)
        requires
            old(self).selected matches Some(i) ==> i < usize::MAX,
        ensures
            final(self).selected == Self::next_of(old(self).selected, old(self).files@.len()),
            final(self).files == old(self).files,
            final(self).states == old(self).states,
            final(self).added == old(self).added,
            final(self).original_states == old(self).original_states,
    {
        let i = match self.selected {
            Some(i) => {
                if i == self.files.len().saturating_sub(1) {
                    0
                } else {
                    i + 1
                }
            },
            None => 0,
        };
        self.selected = Some(i);
    }

    /// Moves the selection up one row.
    pub fn previous(&mut self)
        ensures
            final(self).selected == Self::previous_of(old(self).selected, old(self).files@.len()),
            final(self).files == old(self).files,
            final(self).states == old(self).states,
            final(self).added == old(self).added,
            final(self).original_states == old(self).original_states,
    {
        let i = match self.selected {
            Some(i) => {
                if i == 0 {
                    self.files.len().saturating_sub(1)
                } else {
                    i - 1
                }
            },
            None => 0,
        };
        self.selected = Some(i);
    }

    /// Flips the check of the selected row.
    pub fn update(&mut self)
        requires
            old(self).selected matches Some(i) ==> i < old(self).added.len(),
        ensures
            final(self).added@ == (match old(self).selected {
                Some(i) => old(self).added@.update(i as int, !old(self).added@[i as int]),
                None => old(self).added@,
            }),
            final(self).selected == old(self).selected,
            final(self).files == old(self).files,
            final(self).states == old(self).states,
            final(self).original_states == old(self).original_states,
    {
        let i = match self.selected {
            Some(i) => i,
            None => return ,
        };
        let v = !self.added[i];
        self.added.set(i, v);
    }

    /// The rows of the list as it is shown now.
    pub fn rows(&self) -> (res: Vec<CheckRow>)
        ensures
            res@.map_values(|r: CheckRow| r@) == rows_of(views(self.files@), self.added@, self.states@),
    {
        generate_list(&self.files, &self.added, &self.states)
    }

    /// The changes to apply: each file's state at the start against its check now.
    pub fn changes(&self) -> (res: Vec<FileChange>)
        ensures
            res@.map_values(|c: FileChange| c@) == changes_upto(
                views(self.files@),
                self.original_states@,
                self.added@,
                min3(self.files.len() as int, self.original_states.len() as int, self.added.len() as int),
            ),
    {
        get_file_changes(&self.files, &self.original_states, &self.added)
    }

    /// Handles one key press: `q` or Esc quit without applying (`Some(false)`),
    /// Control-x applies (`Some(true)`), Up and Down move, Enter flips the
    /// selected row; anything else does nothing (`None` for all these).
    pub fn handle_key(&mut self, key: KeyPress) -> (res: Option<bool>)
        requires
            key.key == Key::Down ==> (old(self).selected matches Some(i) ==> i < usize::MAX),
            key.key == Key::Enter ==> (old(self).selected matches Some(i) ==> i < old(self).added.len()),
        ensures
            (key.key == Key::Char('q') || key.key == Key::Esc) ==> res == Some(false) && *final(self) == *old(self),
            key.key == Key::Char('x') && key.control ==> res == Some(true) && *final(self) == *old(self),
            key.key == Key::Up ==> res is None && final(self).selected == Self::previous_of(
                old(self).selected,
                old(self).files@.len(),
            ) && final(self).added == old(self).added,
            key.key == Key::Down ==> res is None && final(self).selected == Self::next_of(
                old(self).selected,
                old(self).files@.len(),
            ) && final(self).added == old(self).added,
            key.key == Key::Enter ==> res is None && final(self).selected == old(self).selected,
            key.key == Key::Enter ==> final(self).added@ == (match old(self).selected {
                Some(i) => old(self).added@.update(i as int, !old(self).added@[i as int]),
                None => old(self).added@,
            }),
            !(key.key == Key::Char('q') || key.key == Key::Esc || key.key == Key::Up || key.key
                == Key::Down || key.key == Key::Enter || (key.key == Key::Char('x') && key.control))
                ==> res is None && *final(self) == *old(self),
            final(self).files == old(self).files,
            final(self).states == old(self).states,
            final(self).original_states == old(self).original_states,
    {
        if key.key == Key::Char('q') || key.key == Key::Esc {
            Some(false)
        } else if key.key == Key::Up {
            self.previous();
            None
        } else if key.key == Key::Down {
            self.next();
            None
        } else if key.key == Key::Enter {
            self.update();
            None
        } else if key.key == Key::Char('x') && key.control {
            Some(true)
        } else {
            None
        }
    }
}

/// Moving down and then up leaves a valid selection where it was.
pub proof fn lemma_next_then_previous(i: usize, len: nat)
    requires
        i < len || i == 0,
        i < usize::MAX,
        len <= usize::MAX,
    ensures
        StatefulCheckBox::previous_of(StatefulCheckBox::next_of(Some(i), len), len) == Some(i),
{
}

/// Moving up and then down leaves a valid selection where it was.
pub proof fn lemma_previous_then_next(i: usize, len: nat)
    requires
        i < len || i == 0,
        len <= usize::MAX,
    ensures
        StatefulCheckBox::next_of(StatefulCheckBox::previous_of(Some(i), len), len) == Some(i),
{
}

/// Moving keeps a valid selection valid: it stays on a row of a non-empty list.
pub proof fn lemma_selection_stays_in_range(i: usize, len: nat)
    requires
        i < len,
        len <= usize::MAX,
    ensures
        StatefulCheckBox::next_of(Some(i), len) matches Some(j) && j < len,
        StatefulCheckBox::previous_of(Some(i), len) matches Some(j) && j < len,
{
}

/// Flipping the same row twice restores every check.
pub proof fn lemma_update_twice(added: Seq<bool>, i: int)
    requires
        0 <= i < added.len(),
    ensures
        added.update(i, !added[i]).update(i, !added.update(i, !added[i])[i]) == added,
{
    assert(added.update(i, !added[i]).update(i, !added.update(i, !added[i])[i]) =~= added);
}

/// With no row flipped, the stager applies no change.
pub proof fn lemma_no_flip_no_change(f: Seq<Seq<char>>, o: Seq<bool>, k: int)
    requires
        0 <= k <= o.len(),
    ensures
        changes_upto(f, o, o, k) == Seq::<(bool, Seq<char>)>::empty(),
    decreases k,
{
    if k > 0 {
        lemma_no_flip_no_change(f, o, k - 1);
    }
}

/// Flipping one row of a fresh stager applies exactly one change, to that
/// row's file: staging it when it was not staged, unstaging it otherwise.
pub proof fn lemma_single_flip(f: Seq<Seq<char>>, o: Seq<bool>, j: int, k: int)
    requires
        0 <= j < o.len(),
        0 <= k <= o.len(),
        o.len() <= f.len(),
    ensures
        changes_upto(f, o, o.update(j, !o[j]), k) == (if k > j {
            seq![(!o[j], f[j])]
        } else {
            Seq::<(bool, Seq<char>)>::empty()
        }),
    decreases k,
{
    if k > 0 {
        lemma_single_flip(f, o, j, k - 1);
    }
}

} // verus!
