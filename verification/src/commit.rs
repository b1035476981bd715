//! The commit screen: a title box and a message box, Tab to move between
//! them, Control-x to commit and Esc to leave without committing.
use vstd::prelude::*;
use crate::keys::{Key, KeyPress};
use crate::text::{char_views, chars_of, join, join_from, laid_out, lemma_join_laid_out, string_of, views};

verus! {

broadcast use vstd::seq_lib::group_seq_properties;

/// The state of the commit screen: which box has the focus (0 for the
/// title, 1 for the message) and which box is drawn as active.
#[derive(Clone, Copy, PartialEq, Eq, Structural, Debug)]
pub struct CommitForm {
    pub which: usize,
    pub title_active: bool,
    pub message_active: bool,
}

/// What the commit screen does after a key press.
#[derive(Clone, Copy, PartialEq, Eq, Structural, Debug)]
pub enum CommitAction {
    /// Leave the screen; commit when `true`.
    Finish(bool),
    /// Keep editing.
    Continue,
    /// Hand the key to the text box with this index.
    Input(usize),
}

impl CommitForm {
    /// The focus is on one of the two boxes, and that box alone is active.
    pub open spec fn wf(&self) -> bool {
        &&& self.which < 2
        &&& self.title_active == (self.which == 0)
        &&& self.message_active == (self.which == 1)
    }

    /// The screen as it opens: the title box has the focus.
    pub fn new() -> (res: Self)
        ensures
            res.wf(),
            res.which == 0,
    {
        CommitForm { which: 0, title_active: true, message_active: false }
    }

    /// The form after Tab: both boxes switch and the focus moves to the other box.
    pub open spec fn tabbed(self) -> Self {
        CommitForm {
            which: ((self.which + 1) % 2) as usize,
            title_active: !self.title_active,
            message_active: !self.message_active,
        }
    }

    /// Handles one key press: Esc leaves without
    /// committing, Tab moves the focus, Control-x commits, and any other key
    /// goes to the box with the focus.
    pub fn button_pressed(&mut self, key: KeyPress) -> (res: CommitAction)
        requires
            old(self).which < usize::MAX,
        ensures
            key.key == Key::Esc ==> res == CommitAction::Finish(false) && *final(self) == *old(self),
            key.key == Key::Tab ==> res == CommitAction::Continue && *final(self) == old(self).tabbed(),
            key.key == Key::Char('x') && key.control ==> res == CommitAction::Finish(true)
                && *final(self) == *old(self),
            !(key.key == Key::Esc || key.key == Key::Tab || (key.key == Key::Char('x') && key.control))
                ==> res == CommitAction::Input(old(self).which) && *final(self) == *old(self),
    {
        if key.key == Key::Esc {
            CommitAction::Finish(false)
        } else if key.key == Key::Tab {
            self.title_active = !self.title_active;
            self.which = (self.which + 1) % 2;
            self.message_active = !self.message_active;
            CommitAction::Continue
        } else if key.key == Key::Char('x') && key.control {
            CommitAction::Finish(true)
        } else {
            CommitAction::Input(self.which)
        }
    }
}

/// Tab keeps the form well formed and moves the focus to the other box:
/// the focus stays on one of the two boxes and only that box is active.
pub proof fn lemma_tab_keeps_form(f: CommitForm)
    requires
        f.wf(),
    ensures
        f.tabbed().wf(),
        f.tabbed().which != f.which,
{
}

/// Pressing Tab twice gives back the form it started from.
pub proof fn lemma_tab_twice(f: CommitForm)
    requires
        f.wf(),
    ensures
        f.tabbed().tabbed() == f,
{
}

fn join_strings(ls: &Vec<String>, sep: &Vec<char>) -> (res: String)
    ensures
        res@ == join(views(ls@), sep@),
{
    let mut cs: Vec<Vec<char>> = Vec::new();
    let mut i: usize = 0;
    while i < ls.len()
        invariant
            i <= ls.len(),
            char_views(cs@) == views(ls@).take(i as int),
        decreases ls.len() - i,
    {
        let c = chars_of(ls[i].as_str());
        assert(char_views(cs@.push(c)) == char_views(cs@).push(c@));
        assert(views(ls@).take(i + 1) == views(ls@).take(i as int).push(ls@[i as int]@));
        cs.push(c);
        i = i + 1;
    }
    assert(views(ls@).take(ls.len() as int) == views(ls@));
    let j = join_from(&cs, 0, sep);
    assert(char_views(cs@).skip(0) == char_views(cs@));
    string_of(&j)
}

/// The arguments of the `git commit` that the commit screen runs: the
/// title's lines and the message's lines, each joined with newlines, as the
/// two paragraphs of the message; quiet.
pub open spec fn commit_args(title: Seq<Seq<char>>, message: Seq<Seq<char>>) -> Seq<Seq<char>> {
    seq!["commit"@, "-m"@, join(title, seq!['\n']), "-m"@, join(message, seq!['\n']), "-q"@]
}

/// What happens when the commit screen closes: with `save_state`, the
/// `git commit` to run for the lines typed into the two boxes; else nothing.
pub fn make_commit(save_state: bool, title_lines: &Vec<String>, message_lines: &Vec<String>) -> (res: Option<Vec<String>>)
    ensures
        save_state ==> (res matches Some(v) && views(v@) == commit_args(
            views(title_lines@),
            views(message_lines@),
        )),
        save_state ==> (res matches Some(v) && v.len() == 6 && laid_out(
            views(v@)[2],
            views(title_lines@),
            '\n',
        ) && laid_out(views(v@)[4], views(message_lines@), '\n')),
        !save_state ==> res is None,
{
    if !save_state {
        return None;
    }
    let mut nl: Vec<char> = Vec::new();
    nl.push('\n');
    let mut v: Vec<String> = Vec::new();
    v.push("commit".to_owned());
    v.push("-m".to_owned());
    v.push(join_strings(title_lines, &nl));
    v.push("-m".to_owned());
    v.push(join_strings(message_lines, &nl));
    v.push("-q".to_owned());
    assert(views(v@) == commit_args(views(title_lines@), views(message_lines@)));
    proof {
        lemma_commit_messages(views(title_lines@), views(message_lines@));
    }
    Some(v)
}

/// How a text box is drawn: with a reversed cursor, and dimmed.
#[derive(Clone, Copy, PartialEq, Eq, Structural, Debug)]
pub struct BoxStyle {
    pub cursor_reversed: bool,
    pub dimmed: bool,
}

/// The style of an active (`true`) or inactive text box: the active one
/// shows a reversed cursor, the inactive one is dimmed with a plain cursor.
pub open spec fn style_of(active: bool) -> BoxStyle {
    BoxStyle { cursor_reversed: active, dimmed: !active }
}

/// A text box of the commit screen: its title and whether it is active.
pub struct TextBox {
    pub title: String,
    pub active: bool,
}

impl TextBox {
    /// A box with the given title and activity.
    pub fn new(title: &str, active: bool) -> (res: Self)
        ensures
            res.title@ == title@,
            res.active == active,
    {
        TextBox { title: title.to_owned(), active }
    }

    /// How the box is drawn now.
    pub fn style(&self) -> (res: BoxStyle)
        ensures
            res == style_of(self.active),
    {
        BoxStyle { cursor_reversed: self.active, dimmed: !self.active }
    }

    /// Makes an active box inactive and an inactive one active.
    pub fn switch(&mut self)
        ensures
            final(self).active == !old(self).active,
            final(self).title == old(self).title,
    {
        self.active = !self.active;
    }
}

/// Switching a text box twice gives back its activity and its style
/// (`first` and `second` are the activities after each `switch`, which
/// negates the one before), and each single switch changes the style.
pub proof fn lemma_switch_twice(active: bool, first: bool, second: bool)
    requires
        first == !active,
        second == !first,
    ensures
        second == active,
        style_of(second) == style_of(active),
        style_of(first) != style_of(active),
{
}

/// The commit that the screen makes carries the title box's lines, in
/// order and each whole, joined by single newlines as the first message,
/// and the message box's lines likewise as the second; quiet.
pub proof fn lemma_commit_messages(title: Seq<Seq<char>>, message: Seq<Seq<char>>)
    ensures
        commit_args(title, message).len() == 6,
        commit_args(title, message)[0] == "commit"@,
        commit_args(title, message)[1] == "-m"@,
        laid_out(commit_args(title, message)[2], title, '\n'),
        commit_args(title, message)[3] == "-m"@,
        laid_out(commit_args(title, message)[4], message, '\n'),
        commit_args(title, message)[5] == "-q"@,
{
    lemma_join_laid_out(title, '\n');
    lemma_join_laid_out(message, '\n');
}

} // verus!
