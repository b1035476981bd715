//! Character-level text handling: the line splitting, trimming, prefix and
//! suffix tests and byte-offset slicing that the git output parsers rely on.
//! Text is handled as a sequence of `char`s; a `String` is built back from it
//! at the end.
use vstd::prelude::*;

verus! {

broadcast use vstd::seq_lib::group_seq_properties;

/// Width in bytes of the UTF-8 encoding of `c`.
pub open spec fn utf8_width(c: char) -> int {
    if (c as u32) < 0x80 {
        1
    } else if (c as u32) < 0x800 {
        2
    } else if (c as u32) < 0x10000 {
        3
    } else {
        4
    }
}

/// The number of leading characters of `s` whose UTF-8 encoding is exactly
/// `k` bytes long; `None` when byte `k` is not a character boundary of `s`
/// (or lies beyond its end).  `&s[k..]` is defined exactly when this is `Some`.
pub open spec fn chars_in_bytes(s: Seq<char>, k: int) -> Option<int>
    decreases s.len(),
{
    if k <= 0 {
        if k == 0 {
            Some(0)
        } else {
            None
        }
    } else if s.len() == 0 {
        None
    } else {
        match chars_in_bytes(s.drop_first(), k - utf8_width(s[0])) {
            Some(n) => Some(n + 1),
            None => None,
        }
    }
}

/// `&s[k..]`, as characters, when byte `k` is a boundary of `s`.
pub open spec fn bytes_skip(s: Seq<char>, k: int) -> Seq<char> {
    s.skip(chars_in_bytes(s, k).unwrap())
}

/// `&s[..k]`, as characters, when byte `k` is a boundary of `s`.
pub open spec fn bytes_take(s: Seq<char>, k: int) -> Seq<char> {
    s.take(chars_in_bytes(s, k).unwrap())
}

/// Unicode `White_Space`, as tested by `char::is_whitespace`.
pub open spec fn is_ws(c: char) -> bool {
    ||| ('\u{9}' <= c && c <= '\u{d}')
    ||| c == ' '
    ||| c == '\u{85}'
    ||| c == '\u{a0}'
    ||| c == '\u{1680}'
    ||| ('\u{2000}' <= c && c <= '\u{200a}')
    ||| c == '\u{2028}'
    ||| c == '\u{2029}'
    ||| c == '\u{202f}'
    ||| c == '\u{205f}'
    ||| c == '\u{3000}'
}

/// `s` without its leading whitespace.
pub open spec fn trim_start(s: Seq<char>) -> Seq<char>
    decreases s.len(),
{
    if s.len() > 0 && is_ws(s[0]) {
        trim_start(s.drop_first())
    } else {
        s
    }
}

/// `s` without its trailing whitespace.
pub open spec fn trim_end(s: Seq<char>) -> Seq<char>
    decreases s.len(),
{
    if s.len() > 0 && is_ws(s.last()) {
        trim_end(s.drop_last())
    } else {
        s
    }
}

/// `s` without whitespace at either end (`str::trim`).
pub open spec fn trim(s: Seq<char>) -> Seq<char> {
    trim_end(trim_start(s))
}

/// `s` ends with `pat`.
pub open spec fn ends_with(s: Seq<char>, pat: Seq<char>) -> bool {
    pat.len() <= s.len() && s.skip(s.len() - pat.len()) == pat
}

/// `s` starts with `pat`.
pub open spec fn starts_with(s: Seq<char>, pat: Seq<char>) -> bool {
    pat.len() <= s.len() && s.take(pat.len() as int) == pat
}

/// `s` with every trailing repetition of the non-empty `pat` removed
/// (`str::trim_end_matches`).
pub open spec fn trim_end_matches(s: Seq<char>, pat: Seq<char>) -> Seq<char>
    decreases s.len(),
{
    if pat.len() > 0 && ends_with(s, pat) {
        trim_end_matches(s.take(s.len() - pat.len()), pat)
    } else {
        s
    }
}

/// `needle` occurs in `hay` as a contiguous run.
pub open spec fn contains_run(hay: Seq<char>, needle: Seq<char>) -> bool {
    exists|i: int|
        0 <= i && i + needle.len() <= hay.len() && #[trigger] hay.subrange(i, i + needle.len())
            == needle
}

/// A line without the carriage return of a `\r\n` ending.
pub open spec fn strip_cr(l: Seq<char>) -> Seq<char> {
    if l.len() > 0 && l.last() == '\r' {
        l.drop_last()
    } else {
        l
    }
}

/// The lines of `s` that begin at `start`, scanning from position `i`
/// (`start <= i`): each `\n` ends a line, a `\r` just before it is dropped,
/// and a last line without `\n` counts, as it is, only if it is not empty.
pub open spec fn lines_from(s: Seq<char>, start: int, i: int) -> Seq<Seq<char>>
    decreases s.len() - i,
{
    if 0 <= i < s.len() {
        if s[i] == '\n' {
            seq![strip_cr(s.subrange(start, i))] + lines_from(s, i + 1, i + 1)
        } else {
            lines_from(s, start, i + 1)
        }
    } else if start < s.len() {
        seq![s.subrange(start, s.len() as int)]
    } else {
        seq![]
    }
}

/// The lines of `s`, as `str::lines` gives them.
pub open spec fn lines(s: Seq<char>) -> Seq<Seq<char>> {
    lines_from(s, 0, 0)
}

/// The lines `ls` joined with the separator `sep` between them.
pub open spec fn join(ls: Seq<Seq<char>>, sep: Seq<char>) -> Seq<char>
    decreases ls.len(),
{
    if ls.len() == 0 {
        seq![]
    } else if ls.len() == 1 {
        ls[0]
    } else {
        join(ls.drop_last(), sep) + sep + ls.last()
    }
}

/// The views of a sequence of strings.
pub open spec fn views(v: Seq<String>) -> Seq<Seq<char>> {
    v.map_values(|s: String| s@)
}

/// The views of a sequence of character vectors.
pub open spec fn char_views(v: Seq<Vec<char>>) -> Seq<Seq<char>> {
    v.map_values(|s: Vec<char>| s@)
}

/// `String::push`: appends one character.
#[verifier::external_body]
fn push_char(s: &mut String, c: char)
    ensures
        final(s)@ == old(s)@.push(c),
{
    s.push(c);
}

/// The characters of `s`.
pub fn chars_of(s: &str) -> (res: Vec<char>)
    ensures
        res@ == s@,
{
    let mut res: Vec<char> = Vec::new();
    for c in it: s.chars()
        invariant
            res@ == it.seq().take(it.index() as int),
    {
        res.push(c);
    }
    res
}

/// The string made of the characters `v[from..to]`.
pub fn string_of_range(v: &Vec<char>, from: usize, to: usize) -> (res: String)
    requires
        from <= to <= v.len(),
    ensures
        res@ == v@.subrange(from as int, to as int),
{
    let mut res = String::new();
    let mut i = from;
    while i < to
        invariant
            from <= i <= to <= v.len(),
            res@ == v@.subrange(from as int, i as int),
        decreases to - i,
    {
        push_char(&mut res, v[i]);
        i = i + 1;
    }
    res
}

/// The string made of the characters `v`.
pub fn string_of(v: &Vec<char>) -> (res: String)
    ensures
        res@ == v@,
{
    string_of_range(v, 0, v.len())
}

/// The characters `v[from..to]` as a vector.
pub fn copy_range(v: &Vec<char>, from: usize, to: usize) -> (res: Vec<char>)
    requires
        from <= to <= v.len(),
    ensures
        res@ == v@.subrange(from as int, to as int),
{
    let mut res: Vec<char> = Vec::new();
    let mut i = from;
    while i < to
        invariant
            from <= i <= to <= v.len(),
            res@ == v@.subrange(from as int, i as int),
        decreases to - i,
    {
        res.push(v[i]);
        i = i + 1;
    }
    res
}

/// Appends the characters of `tail` to `v`.
pub fn append_chars(v: &mut Vec<char>, tail: &Vec<char>)
    ensures
        final(v)@ == old(v)@ + tail@,
{
    let mut i: usize = 0;
    while i < tail.len()
        invariant
            i <= tail.len(),
            v@ == old(v)@ + tail@.take(i as int),
        decreases tail.len() - i,
    {
        v.push(tail[i]);
        i = i + 1;
        assert(tail@.take(i as int) == tail@.take(i - 1) + seq![tail@[i - 1]]);
    }
    assert(tail@.take(i as int) == tail@);
}

/// The string `a` followed by `b`.
pub fn concat_str(a: &str, b: &str) -> (res: String)
    ensures
        res@ == a@ + b@,
{
    let mut v = chars_of(a);
    let w = chars_of(b);
    append_chars(&mut v, &w);
    string_of(&v)
}

/// UTF-8 width of one character.
pub fn char_width(c: char) -> (w: usize)
    ensures
        w == utf8_width(c),
{
    let u = c as u32;
    if u < 0x80 {
        1
    } else if u < 0x800 {
        2
    } else if u < 0x10000 {
        3
    } else {
        4
    }
}

proof fn lemma_chars_in_bytes_step(s: Seq<char>, i: int, k: int)
    requires
        0 <= i < s.len(),
        k > 0,
    ensures
        chars_in_bytes(s.skip(i), k) == (match chars_in_bytes(
            s.skip(i + 1),
            k - utf8_width(s[i]),
        ) {
            Some(n) => Some(n + 1),
            None => None::<int>,
        }),
{
    assert(s.skip(i).drop_first() == s.skip(i + 1));
}

/// How many leading characters of `v` fill exactly `k` bytes; `None` when
/// byte `k` is no character boundary.
pub fn count_chars_in_bytes(v: &Vec<char>, k: usize) -> (res: Option<usize>)
    ensures
        res matches Some(n) ==> chars_in_bytes(v@, k as int) == Some(n as int),
        res is None ==> chars_in_bytes(v@, k as int) is None,
{
    let mut i: usize = 0;
    let mut rem: usize = k;
    assert(v@.skip(0) == v@);
    while rem > 0 && i < v.len()
        invariant
            i <= v.len(),
            chars_in_bytes(v@, k as int) == (match chars_in_bytes(v@.skip(i as int), rem as int) {
                Some(n) => Some(n + i),
                None => None::<int>,
            }),
        decreases v.len() - i,
    {
        let w = char_width(v[i]);
        proof {
            lemma_chars_in_bytes_step(v@, i as int, rem as int);
        }
        if w > rem {
            proof {
                let t = v@.skip(i + 1);
                assert(chars_in_bytes(t, rem - w) is None);
            }
            return None;
        }
        rem = rem - w;
        i = i + 1;
    }
    if rem == 0 {
        Some(i)
    } else {
        assert(v@.skip(i as int).len() == 0);
        None
    }
}

/// `char::is_whitespace`.
pub fn is_whitespace(c: char) -> (res: bool)
    ensures
        res == is_ws(c),
{
    ('\u{9}' <= c && c <= '\u{d}') || c == ' ' || c == '\u{85}' || c == '\u{a0}' || c
        == '\u{1680}' || ('\u{2000}' <= c && c <= '\u{200a}') || c == '\u{2028}' || c
        == '\u{2029}' || c == '\u{202f}' || c == '\u{205f}' || c == '\u{3000}'
}

/// The bounds `(a, b)` of `v[from..to]` with whitespace trimmed off both ends.
pub fn trim_bounds(v: &Vec<char>, from: usize, to: usize) -> (res: (usize, usize))
    requires
        from <= to <= v.len(),
    ensures
        from <= res.0 <= res.1 <= to,
        v@.subrange(res.0 as int, res.1 as int) == trim(v@.subrange(from as int, to as int)),
{
    let ghost s = v@.subrange(from as int, to as int);
    let mut a = from;
    while a < to && is_whitespace(v[a])
        invariant
            from <= a <= to <= v.len(),
            s == v@.subrange(from as int, to as int),
            trim_start(s) == trim_start(v@.subrange(a as int, to as int)),
        decreases to - a,
    {
        assert(v@.subrange(a as int, to as int).drop_first() == v@.subrange(a + 1, to as int));
        a = a + 1;
    }
    let mut b = to;
    while b > a && is_whitespace(v[b - 1])
        invariant
            from <= a <= b <= to <= v.len(),
            s == v@.subrange(from as int, to as int),
            trim_start(s) == v@.subrange(a as int, to as int),
            trim(s) == trim_end(v@.subrange(a as int, b as int)),
        decreases b - a,
    {
        assert(v@.subrange(a as int, b as int).drop_last() == v@.subrange(a as int, b - 1));
        b = b - 1;
    }
    (a, b)
}

/// `str::trim` on a whole vector of characters.
pub fn trimmed(v: &Vec<char>) -> (res: Vec<char>)
    ensures
        res@ == trim(v@),
{
    let (a, b) = trim_bounds(v, 0, v.len());
    assert(v@.subrange(0, v.len() as int) == v@);
    copy_range(v, a, b)
}

/// Does `v` start with `p`?
pub fn has_prefix(v: &Vec<char>, p: &Vec<char>) -> (res: bool)
    ensures
        res == starts_with(v@, p@),
{
    if p.len() > v.len() {
        return false;
    }
    let mut i: usize = 0;
    while i < p.len()
        invariant
            p.len() <= v.len(),
            i <= p.len(),
            v@.take(i as int) == p@.take(i as int),
        decreases p.len() - i,
    {
        if v[i] != p[i] {
            assert(v@.take(p.len() as int)[i as int] != p@[i as int]);
            return false;
        }
        assert(v@.take(i + 1) == v@.take(i as int).push(v@[i as int]));
        assert(p@.take(i + 1) == p@.take(i as int).push(p@[i as int]));
        i = i + 1;
    }
    assert(p@.take(p.len() as int) == p@);
    true
}

/// Does `v[..len]` end with `p`?
fn has_suffix_at(v: &Vec<char>, len: usize, p: &Vec<char>) -> (res: bool)
    requires
        len <= v.len(),
    ensures
        res == ends_with(v@.take(len as int), p@),
{
    if p.len() > len {
        return false;
    }
    let base = len - p.len();
    let mut i: usize = 0;
    while i < p.len()
        invariant
            base + p.len() == len <= v.len(),
            i <= p.len(),
            forall|j: int| 0 <= j < i ==> v@[base + j] == p@[j],
        decreases p.len() - i,
    {
        if v[base + i] != p[i] {
            assert(v@.take(len as int).skip(base as int)[i as int] != p@[i as int]);
            return false;
        }
        i = i + 1;
    }
    assert(v@.take(len as int).skip(base as int) == p@);
    true
}

/// `str::trim_end_matches` with a non-empty pattern.
pub fn trim_end_matching(v: &Vec<char>, p: &Vec<char>) -> (res: Vec<char>)
    ensures
        res@ == trim_end_matches(v@, p@),
{
    let mut len = v.len();
    assert(v@.take(len as int) == v@);
    while p.len() > 0 && has_suffix_at(v, len, p)
        invariant
            len <= v.len(),
            trim_end_matches(v@, p@) == trim_end_matches(v@.take(len as int), p@),
        decreases len,
    {
        let ghost t = v@.take(len as int);
        len = len - p.len();
        assert(t.take(t.len() - p@.len()) == v@.take(len as int));
    }
    copy_range(v, 0, len)
}

/// Does `hay` contain `needle` as a contiguous run?
pub fn contains_chars(hay: &Vec<char>, needle: &Vec<char>) -> (res: bool)
    ensures
        res == contains_run(hay@, needle@),
{
    if needle.len() > hay.len() {
        return false;
    }
    let last = hay.len() - needle.len();
    let mut i: usize = 0;
    while i <= last
        invariant
            last + needle.len() == hay.len(),
            forall|j: int|
                0 <= j < i ==> #[trigger] hay@.subrange(j, j + needle@.len()) != needle@,
        decreases last + 1 - i,
    {
        let mut k: usize = 0;
        let mut same = true;
        while k < needle.len()
            invariant
                i <= last,
                last + needle.len() == hay.len(),
                k <= needle.len(),
                same ==> forall|j: int| 0 <= j < k ==> hay@[i + j] == needle@[j],
                !same ==> hay@.subrange(i as int, i + needle@.len()) != needle@,
            decreases needle.len() - k,
        {
            if hay[i + k] != needle[k] {
                assert(hay@.subrange(i as int, i + needle@.len())[k as int] != needle@[k as int]);
                same = false;
            }
            k = k + 1;
        }
        if same {
            assert(hay@.subrange(i as int, i + needle@.len()) == needle@);
            return true;
        }
        if i == last {
            return false;
        }
        i = i + 1;
    }
    false
}

/// Splits `v` into its lines, as `str::lines` does.
pub fn split_lines(v: &Vec<char>) -> (res: Vec<Vec<char>>)
    ensures
        char_views(res@) == lines(v@),
{
    let mut res: Vec<Vec<char>> = Vec::new();
    let mut start: usize = 0;
    let mut i: usize = 0;
    while i < v.len()
        invariant
            start <= i <= v.len(),
            lines(v@) == char_views(res@) + lines_from(v@, start as int, i as int),
        decreases v.len() - i,
    {
        if v[i] == '\n' {
            let mut end = i;
            if end > start && v[end - 1] == '\r' {
                end = end - 1;
            }
            let line = copy_range(v, start, end);
            proof {
                let l = v@.subrange(start as int, i as int);
                assert(strip_cr(l) == line@);
                assert(char_views(res@.push(line)) == char_views(res@).push(line@));
            }
            res.push(line);
            start = i + 1;
        }
        i = i + 1;
    }
    if start < v.len() {
        let line = copy_range(v, start, v.len());
        proof {
            assert(char_views(res@.push(line)) == char_views(res@).push(line@));
        }
        res.push(line);
    } else {
        assert(char_views(res@) + seq![] == char_views(res@));
    }
    res
}

/// The lines of `s`.
pub fn lines_of(s: &str) -> (res: Vec<Vec<char>>)
    ensures
        char_views(res@) == lines(s@),
{
    let v = chars_of(s);
    split_lines(&v)
}

/// Joins `ls[from..]` with `sep` between the parts.
pub fn join_from(ls: &Vec<Vec<char>>, from: usize, sep: &Vec<char>) -> (res: Vec<char>)
    requires
        from <= ls.len(),
    ensures
        res@ == join(char_views(ls@).skip(from as int), sep@),
{
    let mut res: Vec<char> = Vec::new();
    let mut i = from;
    let ghost all = char_views(ls@).skip(from as int);
    assert(all.take(0) == Seq::<Seq<char>>::empty());
    while i < ls.len()
        invariant
            from <= i <= ls.len(),
            all == char_views(ls@).skip(from as int),
            res@ == join(all.take(i - from), sep@),
        decreases ls.len() - i,
    {
        let ghost before = all.take(i - from);
        let ghost after = all.take(i + 1 - from);
        assert(after.drop_last() == before);
        assert(after.last() == ls@[i as int]@);
        if i > from {
            append_chars(&mut res, sep);
        } else {
            assert(after.len() == 1);
        }
        append_chars(&mut res, &ls[i]);
        i = i + 1;
    }
    assert(all.take(ls.len() - from) == all);
    res
}

/// The strings made from a vector of character vectors.
pub fn strings_of(ls: &Vec<Vec<char>>) -> (res: Vec<String>)
    ensures
        views(res@) == char_views(ls@),
{
    let mut res: Vec<String> = Vec::new();
    let mut i: usize = 0;
    while i < ls.len()
        invariant
            i <= ls.len(),
            views(res@) == char_views(ls@).take(i as int),
        decreases ls.len() - i,
    {
        let s = string_of(&ls[i]);
        proof {
            assert(views(res@.push(s)) == views(res@).push(s@));
            assert(char_views(ls@).take(i + 1) == char_views(ls@).take(i as int).push(ls@[i as int]@));
        }
        res.push(s);
        i = i + 1;
    }
    assert(char_views(ls@).take(ls.len() as int) == char_views(ls@));
    res
}

/// Joining `a` in front of a non-empty list puts one separator between
/// `a` and the rest.
pub proof fn lemma_join_cons(a: Seq<char>, ls: Seq<Seq<char>>, sep: Seq<char>)
    requires
        ls.len() > 0,
    ensures
        join(seq![a] + ls, sep) == a + sep + join(ls, sep),
    decreases ls.len(),
{
    let l = seq![a] + ls;
    assert(l.drop_last() == seq![a] + ls.drop_last());
    if ls.len() == 1 {
        assert(seq![a].len() == 1);
        assert(join(seq![a], sep) == a);
    } else {
        lemma_join_cons(a, ls.drop_last(), sep);
    }
}

/// The text from `start` on holds no `\r` and does not end with `\n`; the
/// run from `start` to `i` holds no `\n`.
pub open spec fn plain_tail(s: Seq<char>, start: int, i: int) -> bool {
    &&& 0 <= start <= i <= s.len()
    &&& start < s.len()
    &&& s.last() != '\n'
    &&& forall|k: int| 0 <= k < s.len() ==> s[k] != '\r'
    &&& forall|k: int| start <= k < i ==> s[k] != '\n'
}

proof fn lemma_lines_from_join(s: Seq<char>, start: int, i: int)
    requires
        plain_tail(s, start, i),
    ensures
        lines_from(s, start, i).len() > 0,
        join(lines_from(s, start, i), seq!['\n']) == s.subrange(start, s.len() as int),
    decreases s.len() - i,
{
    if i < s.len() {
        if s[i] == '\n' {
            assert(i + 1 < s.len());
            lemma_lines_from_join(s, i + 1, i + 1);
            let a = s.subrange(start, i);
            assert(strip_cr(a) == a);
            lemma_join_cons(a, lines_from(s, i + 1, i + 1), seq!['\n']);
            assert(a + seq!['\n'] + s.subrange(i + 1, s.len() as int) == s.subrange(
                start,
                s.len() as int,
            ));
        } else {
            lemma_lines_from_join(s, start, i + 1);
        }
    }
}

/// Joining the lines of a text with newlines gives back the text, when it
/// holds no carriage return and does not end with a newline.
pub proof fn lemma_join_lines(s: Seq<char>)
    requires
        forall|k: int| 0 <= k < s.len() ==> s[k] != '\r',
        s.len() == 0 || s.last() != '\n',
    ensures
        join(lines(s), seq!['\n']) == s,
{
    if s.len() > 0 {
        lemma_lines_from_join(s, 0, 0);
        assert(s.subrange(0, s.len() as int) == s);
    }
}

/// Where the `i`-th of the lines `t` begins once they are joined with a
/// one-character separator: after every earlier line and its separator.
pub open spec fn line_start(t: Seq<Seq<char>>, i: int) -> int
    decreases i,
{
    if i <= 0 {
        0
    } else {
        line_start(t, i - 1) + t[i - 1].len() + 1
    }
}

/// `j` is the lines `t` written one after the other with the character
/// `c` between consecutive lines and nowhere else: nothing for no lines;
/// otherwise each line at its place, `c` right after every line but the
/// last, and no character beyond the last line.
pub open spec fn laid_out(j: Seq<char>, t: Seq<Seq<char>>, c: char) -> bool {
    &&& t.len() == 0 ==> j.len() == 0
    &&& t.len() > 0 ==> j.len() == line_start(t, t.len() as int) - 1
    &&& forall|i: int|
        #![trigger t[i]]
        0 <= i < t.len() ==> j.subrange(line_start(t, i), line_start(t, i) + t[i].len()) == t[i]
    &&& forall|i: int|
        #![trigger t[i]]
        0 <= i < t.len() - 1 ==> j[line_start(t, i) + t[i].len()] == c
}

proof fn lemma_line_start_push(d: Seq<Seq<char>>, x: Seq<char>, i: int)
    requires
        0 <= i <= d.len(),
    ensures
        line_start(d.push(x), i) == line_start(d, i),
    decreases i,
{
    if i > 0 {
        lemma_line_start_push(d, x, i - 1);
        assert(d.push(x)[i - 1] == d[i - 1]);
    }
}

proof fn lemma_line_start_nonneg(t: Seq<Seq<char>>, i: int)
    ensures
        0 <= line_start(t, i),
    decreases i,
{
    if i > 0 {
        lemma_line_start_nonneg(t, i - 1);
    }
}

proof fn lemma_line_start_mono(t: Seq<Seq<char>>, i: int, k: int)
    requires
        0 <= i < k,
    ensures
        line_start(t, i) + t[i].len() + 1 <= line_start(t, k),
    decreases k - i,
{
    if i < k - 1 {
        lemma_line_start_mono(t, i, k - 1);
    }
}

proof fn lemma_laid_out_line(jd: Seq<char>, d: Seq<Seq<char>>, x: Seq<char>, c: char, i: int)
    requires
        laid_out(jd, d, c),
        d.len() >= 1,
        0 <= i <= d.len(),
    ensures
        ({
            let t = d.push(x);
            let j = jd + seq![c] + x;
            j.subrange(line_start(t, i), line_start(t, i) + t[i].len()) == t[i]
        }),
{
    let t = d.push(x);
    let j = jd + seq![c] + x;
    let n = d.len() as int;
    lemma_line_start_push(d, x, i);
    lemma_line_start_push(d, x, n);
    assert(jd.len() == line_start(d, n) - 1);
    assert(line_start(t, i) == line_start(d, i));
    lemma_line_start_nonneg(d, i);
    if i < n {
        lemma_line_start_mono(d, i, n);
        assert(t[i] == d[i]);
        assert(line_start(d, i) + d[i].len() <= jd.len());
        assert(jd.subrange(line_start(d, i), line_start(d, i) + d[i].len()) == d[i]);
        assert(j.subrange(line_start(t, i), line_start(t, i) + t[i].len()) =~= jd.subrange(
            line_start(d, i),
            line_start(d, i) + d[i].len(),
        ));
    } else {
        assert(t[i] == x);
        assert(line_start(t, i) == jd.len() + 1);
        assert(j.subrange(line_start(t, i), line_start(t, i) + t[i].len()) =~= x);
    }
}

proof fn lemma_laid_out_sep(jd: Seq<char>, d: Seq<Seq<char>>, x: Seq<char>, c: char, i: int)
    requires
        laid_out(jd, d, c),
        d.len() >= 1,
        0 <= i < d.len(),
    ensures
        ({
            let t = d.push(x);
            let j = jd + seq![c] + x;
            j[line_start(t, i) + t[i].len()] == c
        }),
{
    let t = d.push(x);
    let j = jd + seq![c] + x;
    let n = d.len() as int;
    lemma_line_start_push(d, x, i);
    assert(t[i] == d[i]);
    assert(jd.len() == line_start(d, n) - 1);
    assert(line_start(t, i) == line_start(d, i));
    lemma_line_start_nonneg(d, i);
    if i < n - 1 {
        lemma_line_start_mono(d, i, n - 1);
        assert(line_start(d, n) == line_start(d, n - 1) + d[n - 1].len() + 1);
        assert(line_start(d, i) + d[i].len() < jd.len());
        assert(jd[line_start(d, i) + d[i].len()] == c);
        assert(j[line_start(t, i) + t[i].len()] == jd[line_start(d, i) + d[i].len()]);
    } else {
        assert(line_start(d, n) == line_start(d, i) + d[i].len() + 1);
        assert(line_start(t, i) + t[i].len() == jd.len());
    }
}

proof fn lemma_laid_out_push(jd: Seq<char>, d: Seq<Seq<char>>, x: Seq<char>, c: char)
    requires
        laid_out(jd, d, c),
        d.len() >= 1,
    ensures
        laid_out(jd + seq![c] + x, d.push(x), c),
{
    let t = d.push(x);
    let j = jd + seq![c] + x;
    let n = d.len() as int;
    lemma_line_start_push(d, x, n);
    assert(line_start(t, n + 1) == line_start(t, n) + x.len() + 1);
    assert forall|i: int| #![trigger t[i]] 0 <= i < t.len() implies j.subrange(
        line_start(t, i),
        line_start(t, i) + t[i].len(),
    ) == t[i] by {
        lemma_laid_out_line(jd, d, x, c, i);
    }
    assert forall|i: int| #![trigger t[i]] 0 <= i < t.len() - 1 implies j[line_start(t, i)
        + t[i].len()] == c by {
        lemma_laid_out_sep(jd, d, x, c, i);
    }
}

/// Joining lines with a one-character separator puts every line, in
/// order, at its place, with exactly one separator between consecutive
/// lines.
pub proof fn lemma_join_laid_out(t: Seq<Seq<char>>, c: char)
    ensures
        laid_out(join(t, seq![c]), t, c),
    decreases t.len(),
{
    let j = join(t, seq![c]);
    if t.len() == 1 {
        assert(j == t[0]);
        assert(line_start(t, 0) == 0);
        assert(line_start(t, 1) == t[0].len() + 1);
        assert(j.subrange(0, t[0].len() as int) == t[0]);
        assert forall|i: int| #![trigger t[i]] 0 <= i < t.len() implies j.subrange(
            line_start(t, i),
            line_start(t, i) + t[i].len(),
        ) == t[i] by {
            assert(i == 0);
        }
    } else if t.len() >= 2 {
        let d = t.drop_last();
        lemma_join_laid_out(d, c);
        assert(t == d.push(t.last()));
        lemma_laid_out_push(join(d, seq![c]), d, t.last(), c);
    }
}
} // verus!
