use wtree::diff::{
    get_diff, get_list, parse_diff, scroll_step, skip_lines, ListAction, StatefulList,
    ADDED_PATTERN, REMOVED_PATTERN,
};
use wtree::keys::{Key, KeyPress};

fn s(x: &str) -> String {
    x.to_string()
}

fn key(k: Key) -> KeyPress {
    KeyPress { key: k, control: false, control_only: false }
}

#[test]
fn skip_header_lines() {
    assert_eq!(skip_lines("h1\nh2\nbody\nend", 2), "body\nend");
    assert_eq!(skip_lines("a\nb", 5), "");
    assert_eq!(skip_lines("a\r\nb\n", 0), "a\nb");
}

#[test]
fn skip_no_lines_roundtrip() {
    assert_eq!(skip_lines("one\ntwo\n\nthree", 0), "one\ntwo\n\nthree");
}

#[test]
fn parse_added_markers() {
    assert_eq!(parse_diff("a{+b+}c", ADDED_PATTERN, "<", ">"), "a<b>c");
    assert_eq!(parse_diff("{+}", ADDED_PATTERN, "<", ">"), "<}");
    assert_eq!(parse_diff("+}{+", ADDED_PATTERN, "<", ">"), "><");
    assert_eq!(parse_diff("[-x-]", ADDED_PATTERN, "<", ">"), "[-x-]");
}

#[test]
fn parse_removed_markers() {
    assert_eq!(parse_diff("x[-y-]z", REMOVED_PATTERN, "(", ")"), "x(y)z");
    assert_eq!(parse_diff("-][-", REMOVED_PATTERN, "(", ")"), ")(");
}

#[test]
fn word_diff_text() {
    let raw = "h1\nh2\nh3\nh4\nh5\nfoo {+bar+} [-baz-]";
    assert_eq!(get_diff(raw), "foo \x1b[1;42mbar\x1b[0m \x1b[1;41mbaz\x1b[0m");
}

#[test]
fn scrolling() {
    assert_eq!(scroll_step(0, 10, key(Key::Up)), Some(0));
    assert_eq!(scroll_step(4, 10, key(Key::Up)), Some(3));
    assert_eq!(scroll_step(5, 10, key(Key::Down)), Some(6));
    assert_eq!(scroll_step(13, 10, key(Key::Down)), Some(14));
    assert_eq!(scroll_step(14, 10, key(Key::Down)), Some(14));
    assert_eq!(scroll_step(u16::MAX, u16::MAX, key(Key::Down)), Some(u16::MAX));
    assert_eq!(scroll_step(3, 10, key(Key::Char('q'))), None);
    assert_eq!(scroll_step(3, 10, key(Key::Esc)), None);
    assert_eq!(
        scroll_step(3, 10, KeyPress { key: Key::Char('c'), control: true, control_only: true }),
        None
    );
    assert_eq!(
        scroll_step(3, 10, KeyPress { key: Key::Char('c'), control: true, control_only: false }),
        Some(3)
    );
}

#[test]
fn name_list() {
    assert_eq!(get_list("a.rs\nb.rs\n"), vec![s("a.rs"), s("b.rs")]);
}

#[test]
fn file_list_moves_and_shows() {
    let mut l = StatefulList::new(vec![s("a"), s("b"), s("c")]);
    l.previous();
    assert_eq!(l.selected, Some(2));
    l.next();
    assert_eq!(l.selected, Some(0));
    assert!(matches!(l.handle_key(key(Key::Down)), ListAction::Stay));
    match l.handle_key(key(Key::Enter)) {
        ListAction::Show(f) => assert_eq!(f, "b"),
        _ => panic!("expected a file"),
    }
    assert!(matches!(l.handle_key(key(Key::Char('q'))), ListAction::Quit));
    assert!(matches!(l.handle_key(key(Key::Tab)), ListAction::Stay));
    assert_eq!(l.selected, Some(1));
}
