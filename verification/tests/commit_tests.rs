use wtree::commit::{make_commit, BoxStyle, CommitAction, CommitForm, TextBox};
use wtree::keys::{Key, KeyPress};

fn s(x: &str) -> String {
    x.to_string()
}

fn key(k: Key) -> KeyPress {
    KeyPress { key: k, control: false, control_only: false }
}

#[test]
fn commit_form_keys() {
    let mut f = CommitForm::new();
    let start = f;
    assert_eq!(f.button_pressed(key(Key::Char('a'))), CommitAction::Input(0));
    assert_eq!(f.button_pressed(key(Key::Tab)), CommitAction::Continue);
    assert_eq!(f.which, 1);
    assert!(!f.title_active && f.message_active);
    assert_eq!(f.button_pressed(key(Key::Char('x'))), CommitAction::Input(1));
    assert_eq!(f.button_pressed(key(Key::Tab)), CommitAction::Continue);
    assert_eq!(f, start);
    assert_eq!(
        f.button_pressed(KeyPress { key: Key::Char('x'), control: true, control_only: false }),
        CommitAction::Finish(true)
    );
    assert_eq!(f.button_pressed(key(Key::Esc)), CommitAction::Finish(false));
}

#[test]
fn commit_args() {
    let r = make_commit(true, &vec![s("Title")], &vec![s("line 1"), s("line 2")]);
    assert_eq!(
        r,
        Some(vec![s("commit"), s("-m"), s("Title"), s("-m"), s("line 1\nline 2"), s("-q")])
    );
    assert_eq!(make_commit(false, &vec![s("T")], &vec![]), None);
    assert_eq!(
        make_commit(true, &vec![], &vec![s("")]),
        Some(vec![s("commit"), s("-m"), s(""), s("-m"), s(""), s("-q")])
    );
}

#[test]
fn text_box_switch_twice() {
    let mut b = TextBox::new("Commit title", true);
    assert_eq!(b.style(), BoxStyle { cursor_reversed: true, dimmed: false });
    b.switch();
    assert!(!b.active);
    assert_eq!(b.style(), BoxStyle { cursor_reversed: false, dimmed: true });
    b.switch();
    assert!(b.active);
    assert_eq!(b.title, "Commit title");
    assert_eq!(b.style(), BoxStyle { cursor_reversed: true, dimmed: false });
}
