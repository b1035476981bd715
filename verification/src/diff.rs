//! The word diff viewers: turning `git diff --word-diff` output into
//! text with colour escapes, and the scrolling and file selection of the
//! two diff screens.
use vstd::prelude::*;
use crate::keys::{Key, KeyPress};
use crate::text::{
    char_views, join, join_from, lines, lines_of, string_of, strings_of, views,
};

verus! {

broadcast use vstd::seq_lib::group_seq_properties;

/// The lines of `s` after the first `n`, joined with newlines.
pub open spec fn skipped_lines(s: Seq<char>, n: int) -> Seq<char> {
    let ls = lines(s);
    join(
        if n <= ls.len() {
            ls.skip(n)
        } else {
            seq![]
        },
        seq!['\n'],
    )
}

/// `s` without its first `n` lines (the header of a diff), the rest joined
/// with newlines.
pub fn skip_lines(s: &str, n: usize) -> (res: String)
    ensures
        res@ == skipped_lines(s@, n as int),
{
    let ls = lines_of(s);
    let mut nl: Vec<char> = Vec::new();
    nl.push('\n');
    let from = if n <= ls.len() {
        n
    } else {
        ls.len()
    };
    let j = join_from(&ls, from, &nl);
    proof {
        if n > ls.len() {
            assert(char_views(ls@).skip(ls.len() as int) == Seq::<Seq<char>>::empty());
        }
    }
    string_of(&j)
}

/// The pattern that marks words added in a word diff: `{+` opens, `+}` closes.
pub const ADDED_PATTERN: &'static str = r"\{([+])|([+])\}";

/// The pattern that marks words removed in a word diff: `[-` opens, `-]` closes.
pub const REMOVED_PATTERN: &'static str = r"\[([-])|([-])\]";

/// The opening and closing markers that a marker pattern matches.
pub open spec fn markers_of(pattern: Seq<char>) -> (Seq<char>, Seq<char>) {
    if pattern == ADDED_PATTERN@ {
        (seq!['{', '+'], seq!['+', '}'])
    } else {
        (seq!['[', '-'], seq!['-', ']'])
    }
}

/// `s` with each opening marker `mo` replaced by `open` and each closing
/// marker `mc` by `close`, scanning from the left: at each position the
/// opening marker is tried first, and a replaced marker is not scanned again.
pub open spec fn replace_markers(
    s: Seq<char>,
    mo: Seq<char>,
    mc: Seq<char>,
    open: Seq<char>,
    close: Seq<char>,
) -> Seq<char>
    decreases s.len(),
{
    if s.len() == 0 {
        seq![]
    } else if mo.len() > 0 && s.len() >= mo.len() && s.take(mo.len() as int) == mo {
        open + replace_markers(s.skip(mo.len() as int), mo, mc, open, close)
    } else if mc.len() > 0 && s.len() >= mc.len() && s.take(mc.len() as int) == mc {
        close + replace_markers(s.skip(mc.len() as int), mo, mc, open, close)
    } else {
        seq![s[0]] + replace_markers(s.skip(1), mo, mc, open, close)
    }
}

/// The replacement for one match: `close` when the closing alternative
/// (the second group) matched, else `open`.
fn pick<'a>(closing: bool, open: &'a str, close: &'a str) -> (res: &'a str)
    ensures
        res == (if closing {
            close
        } else {
            open
        }),
{
    if closing {
        close
    } else {
        open
    }
}

/// `Regex::new(pattern)` and `Regex::replace_all` with a replacer that
/// gives `close` for a match of the second alternative and `open` for the
/// first.  Claimed for the two marker patterns (literal alternatives
/// `\{([+])|([+])\}` and `\[([-])|([-])\]`, both valid): the regex crate
/// replaces the non-overlapping leftmost-first matches, trying the first
/// alternative before the second at each position, which is
/// `replace_markers`.
#[verifier::external_body]
fn regex_replace_all(text: &str, pattern: &str, open: &str, close: &str) -> (res: String)
    requires
        pattern@ == ADDED_PATTERN@ || pattern@ == REMOVED_PATTERN@,
    ensures
        res@ == replace_markers(
            text@,
            markers_of(pattern@).0,
            markers_of(pattern@).1,
            open@,
            close@,
        ),
{
    let re = regex::Regex::new(pattern).expect("Invalid regex");
    re.replace_all(text, |caps: &regex::Captures| pick(caps.get(2).is_some(), open, close)).to_string()
}

/// `text` with the markers of `pattern` replaced: `r1` for each opening
/// marker, `r2` for each closing one.
pub fn parse_diff(text: &str, pattern: &str, r1: &str, r2: &str) -> (res: String)
    requires
        pattern@ == ADDED_PATTERN@ || pattern@ == REMOVED_PATTERN@,
    ensures
        res@ == replace_markers(text@, markers_of(pattern@).0, markers_of(pattern@).1, r1@, r2@),
{
    regex_replace_all(text, pattern, r1, r2)
}

/// Green background on: opens an added word.
pub const ADDED_ON: &'static str = "\x1b[1;42m";

/// Red background on: opens a removed word.
pub const REMOVED_ON: &'static str = "\x1b[1;41m";

/// Attributes off: closes a marked word.
pub const STYLE_OFF: &'static str = "\x1b[0m";

/// The text of a word diff as the diff screens show it: the output of
/// `git diff -U1000000 --word-diff` without its five header lines, each
/// added word on green and each removed word on red.
pub open spec fn word_diff_text(raw: Seq<char>) -> Seq<char> {
    replace_markers(
        replace_markers(
            skipped_lines(raw, 5),
            seq!['{', '+'],
            seq!['+', '}'],
            ADDED_ON@,
            STYLE_OFF@,
        ),
        seq!['[', '-'],
        seq!['-', ']'],
        REMOVED_ON@,
        STYLE_OFF@,
    )
}

/// The text of a word diff (see `word_diff_text`).
pub fn get_diff(raw: &str) -> (res: String)
    ensures
        res@ == word_diff_text(raw@),
{
    let body = skip_lines(raw, 5);
    let added = parse_diff(&body, ADDED_PATTERN, ADDED_ON, STYLE_OFF);
    proof {
        assert(markers_of(ADDED_PATTERN@) == (seq!['{', '+'], seq!['+', '}']));
        if REMOVED_PATTERN@ == ADDED_PATTERN@ {
            reveal_strlit(r"\{([+])|([+])\}");
            reveal_strlit(r"\[([-])|([-])\]");
            assert(REMOVED_PATTERN@[1] != ADDED_PATTERN@[1]);
        }
        assert(markers_of(REMOVED_PATTERN@) == (seq!['[', '-'], seq!['-', ']']));
    }
    parse_diff(&added, REMOVED_PATTERN, REMOVED_ON, STYLE_OFF)
}

/// The scroll offset of the single-file diff screen after a key press;
/// `None` when the key (`q`, Esc or Control-c alone) closes the screen.
/// Up scrolls up to the top; Down scrolls down while the offset is at most
/// the screen height plus three.
pub open spec fn scroll_after(offset: u16, height: u16, key: KeyPress) -> Option<u16> {
    if key.key == Key::Char('q') || key.key == Key::Esc || (key.control_only && key.key
        == Key::Char('c')) {
        None
    } else if key.key == Key::Up {
        Some(if offset == 0 {
            0u16
        } else {
            (offset - 1) as u16
        })
    } else if key.key == Key::Down && offset <= (if height as int + 3 > u16::MAX {
        u16::MAX as int
    } else {
        height + 3
    }) {
        Some(if offset == u16::MAX {
            u16::MAX
        } else {
            (offset + 1) as u16
        })
    } else {
        Some(offset)
    }
}

/// One key press on the single-file diff screen (see `scroll_after`).
pub fn scroll_step(offset: u16, height: u16, key: KeyPress) -> (res: Option<u16>)
    ensures
        res == scroll_after(offset, height, key),
{
    let max_scroll = height.saturating_add(3);
    if key.key == Key::Char('q') || key.key == Key::Esc || (key.control_only && key.key
        == Key::Char('c')) {
        None
    } else if key.key == Key::Up {
        Some(offset.saturating_sub(1))
    } else if key.key == Key::Down && offset <= max_scroll {
        Some(offset.saturating_add(1))
    } else {
        Some(offset)
    }
}

/// The files with changes, one per line of `git diff --name-only` output.
pub fn get_list(output: &str) -> (res: Vec<String>)
    ensures
        views(res@) == lines(output@),
{
    let ls = lines_of(output);
    strings_of(&ls)
}

/// The file list of the multi-file diff screen, with its selected row.
pub struct StatefulList {
    pub items: Vec<String>,
    pub selected: Option<usize>,
}

/// What the multi-file diff screen does after a key press.
#[derive(Debug)]
pub enum ListAction {
    /// Close the screen.
    Quit,
    /// Keep showing what it shows.
    Stay,
    /// Show the diff of this file.
    Show(String),
}

impl StatefulList {
    /// The list of `items` with the first row selected.
    pub fn new(items: Vec<String>) -> (res: Self)
        ensures
            res.items == items,
            res.selected == Some(0usize),
    {
        StatefulList { items, selected: Some(0) }
    }

    /// The selection after moving down: past the last row it wraps to the first.
    pub open spec fn next_of(sel: Option<usize>, len: nat) -> Option<usize> {
        match sel {
            Some(i) => if i >= len - 1 {
                Some(0usize)
            } else {
                Some((i + 1) as usize)
            },
            None => Some(0usize),
        }
    }

    /// The selection after moving up: above the first row it wraps to the last.
    pub open spec fn previous_of(sel: Option<usize>, len: nat) -> Option<usize> {
        match sel {
            Some(i) => if i == 0 {
                Some((len - 1) as usize)
            } else {
                Some((i - 1) as usize)
            },
            None => Some(0usize),
        }
    }

    /// Moves the selection down one row.
    pub fn next(&mut self)
        requires
            old(self).selected is Some ==> old(self).items.len() > 0,
        ensures
            final(self).selected == Self::next_of(old(self).selected, old(self).items@.len()),
            final(self).items == old(self).items,
    {
        let i = match self.selected {
            Some(i) => {
                if i >= self.items.len() - 1 {
                    0
                } else {
                    i + 1
                }
            },
            None => 0,
        };
        self.selected = Some(i);
    }

    /// Moves the selection up one row.
    pub fn previous(&mut self)
        requires
            old(self).selected == Some(0usize) ==> old(self).items.len() > 0,
        ensures
            final(self).selected == Self::previous_of(old(self).selected, old(self).items@.len()),
            final(self).items == old(self).items,
    {
        let i = match self.selected {
            Some(i) => {
                if i == 0 {
                    self.items.len() - 1
                } else {
                    i - 1
                }
            },
            None => 0,
        };
        self.selected = Some(i);
    }

    /// Handles one key press: `q` or Esc quit, Down and Up move, Enter shows
    /// the selected file; anything else leaves the screen as it is.
    pub fn handle_key(&mut self, key: KeyPress) -> (res: ListAction)
        requires
            key.key == Key::Down ==> (old(self).selected is Some ==> old(self).items.len() > 0),
            key.key == Key::Up ==> (old(self).selected == Some(0usize) ==> old(self).items.len() > 0),
            key.key == Key::Enter ==> (old(self).selected matches Some(i) ==> i < old(self).items.len()),
        ensures
            final(self).items == old(self).items,
            (key.key == Key::Char('q') || key.key == Key::Esc) ==> res is Quit && final(self).selected
                == old(self).selected,
            key.key == Key::Down ==> res is Stay && final(self).selected == Self::next_of(
                old(self).selected,
                old(self).items@.len(),
            ),
            key.key == Key::Up ==> res is Stay && final(self).selected == Self::previous_of(
                old(self).selected,
                old(self).items@.len(),
            ),
            key.key == Key::Enter ==> final(self).selected == old(self).selected && match old(
                self,
            ).selected {
                Some(i) => res matches ListAction::Show(f) && f@ == old(self).items@[i as int]@,
                None => res is Stay,
            },
            !(key.key == Key::Char('q') || key.key == Key::Esc || key.key == Key::Down || key.key
                == Key::Up || key.key == Key::Enter) ==> res is Stay && final(self).selected == old(
                self,
            ).selected,
    {
        if key.key == Key::Char('q') || key.key == Key::Esc {
            ListAction::Quit
        } else if key.key == Key::Down {
            self.next();
            ListAction::Stay
        } else if key.key == Key::Up {
            self.previous();
            ListAction::Stay
        } else if key.key == Key::Enter {
            match self.selected {
                Some(i) => ListAction::Show(self.items[i].clone()),
                None => ListAction::Stay,
            }
        } else {
            ListAction::Stay
        }
    }
}

/// In a non-empty file list, moving down and then up returns to the same row.
pub proof fn lemma_list_next_then_previous(i: usize, len: nat)
    requires
        i < len,
        len <= usize::MAX,
    ensures
        StatefulList::previous_of(StatefulList::next_of(Some(i), len), len) == Some(i),
{
}

/// In a non-empty file list, moving up and then down returns to the same row.
pub proof fn lemma_list_previous_then_next(i: usize, len: nat)
    requires
        i < len,
        len <= usize::MAX,
    ensures
        StatefulList::next_of(StatefulList::previous_of(Some(i), len), len) == Some(i),
{
}

/// Skipping no lines gives back a text that holds no carriage return and
/// does not end with a newline.
pub proof fn lemma_skip_no_lines(s: Seq<char>)
    requires
        forall|k: int| 0 <= k < s.len() ==> s[k] != '\r',
        s.len() == 0 || s.last() != '\n',
    ensures
        skipped_lines(s, 0) == s,
{
    crate::text::lemma_join_lines(s);
    assert(lines(s).skip(0) == lines(s));
}

} // verus!
