use wtree::keys::{Key, KeyPress};
use wtree::report::{Paint, Piece};
use wtree::staging::{
    generate_list, get_file_changes, list_diff, stage_file, stage_report, stage_targets,
    string_to_vec, unstage, unstage_file, unstage_report, RowColor, StagingError,
    StatefulCheckBox,
};
use wtree::status::FileState;

fn s(x: &str) -> String {
    x.to_string()
}

fn flat(out: &Vec<Vec<Piece>>) -> Vec<Vec<(String, Paint)>> {
    out.iter()
        .map(|l| l.iter().map(|p| (p.text.clone(), p.paint)).collect())
        .collect()
}

fn key(k: Key) -> KeyPress {
    KeyPress { key: k, control: false, control_only: false }
}

#[test]
fn string_to_vec_trims_lines() {
    assert_eq!(string_to_vec("  a.rs \n\tb.rs\n\n"), vec![s("a.rs"), s("b.rs"), s("")]);
    assert!(string_to_vec("").is_empty());
}

#[test]
fn list_diff_keeps_order_and_drops_common() {
    let l1 = vec![s("c"), s("a"), s("b"), s("a")];
    let l2 = vec![s("b")];
    assert_eq!(list_diff(l1, l2), vec![s("c"), s("a"), s("a")]);
    assert!(list_diff(vec![s("x")], vec![s("x")]).is_empty());
}

#[test]
fn stage_targets_all_or_given() {
    assert_eq!(stage_targets(None, true), Some(vec![s(".")]));
    assert_eq!(stage_targets(Some(vec![s("f")]), true), Some(vec![s(".")]));
    assert_eq!(stage_targets(Some(vec![s("f")]), false), Some(vec![s("f")]));
    assert_eq!(stage_targets(None, false), None);
}

#[test]
fn stage_report_lines() {
    let out = flat(&stage_report(vec![s("old")], vec![s("old"), s("new")]));
    assert_eq!(
        out,
        vec![vec![(s("new"), Paint::Red), (s(" -> "), Paint::Plain), (s("new"), Paint::Green)]]
    );
}

#[test]
fn unstage_report_lines() {
    let out = flat(&unstage_report(vec![s("a"), s("b")], vec![s("b")]));
    assert_eq!(
        out,
        vec![vec![(s("a"), Paint::Green), (s(" -> "), Paint::Plain), (s("a"), Paint::Red)]]
    );
}

#[test]
fn unstage_without_file_is_refused() {
    let r = unstage(None, false, "");
    assert_eq!(r.unwrap_err(), StagingError::NoFileSpecified);
    assert_eq!(StagingError::NoFileSpecified.message(), "No file specified");
}

#[test]
fn unstage_one_file() {
    assert_eq!(unstage(Some(s("x.rs")), false, "").unwrap(), vec![s("x.rs")]);
}

#[test]
fn unstage_all_takes_every_staged_change() {
    let porcelain = "A  new.rs\nM  mod.rs\n M work.rs\nD  del.rs\n?? un.rs";
    assert_eq!(
        unstage(None, true, porcelain).unwrap(),
        vec![s("new.rs"), s("mod.rs"), s("del.rs")]
    );
}

#[test]
fn unstage_all_with_worktree_changes_and_renames() {
    let porcelain = "AM x\nMM y\nR  old -> new\nC  a -> b\nT  t\nUU u\n!! ign\nR  odd";
    assert_eq!(
        unstage(Some(s("ignored")), true, porcelain).unwrap(),
        vec![s("x"), s("y"), s("new"), s("b"), s("t"), s("odd")]
    );
}

#[test]
fn file_args() {
    assert_eq!(stage_file("a b"), vec![s("add"), s("a b")]);
    assert_eq!(unstage_file("a"), vec![s("restore"), s("--staged"), s("a")]);
}

#[test]
fn generate_list_rows() {
    let rows = generate_list(
        &vec![s("a"), s("b"), s("c")],
        &vec![true, false],
        &vec![FileState::New, FileState::Renamed, FileState::Error],
    );
    assert_eq!(rows.len(), 2);
    assert_eq!(rows[0].checkmark, "  \u{2705}");
    assert_eq!(rows[0].label, "      New    ");
    assert_eq!(rows[0].color, RowColor::Green);
    assert_eq!(rows[0].file, "a");
    assert_eq!(rows[1].checkmark, "  []");
    assert_eq!(rows[1].label, "      Mod    ");
    assert_eq!(rows[1].color, RowColor::Yellow);
}

#[test]
fn generate_list_deleted_and_error() {
    let rows = generate_list(
        &vec![s("d"), s("e")],
        &vec![false, true],
        &vec![FileState::Deleted, FileState::Error],
    );
    assert_eq!((rows[0].label.as_str(), rows[0].color), ("      Del    ", RowColor::Red));
    assert_eq!((rows[1].label.as_str(), rows[1].color), ("      Err    ", RowColor::LightRed));
}

#[test]
fn file_changes_stage_and_unstage() {
    let changes = get_file_changes(
        &vec![s("a"), s("b"), s("c"), s("d")],
        &vec![false, true, true, false],
        &vec![true, false, true, false],
    );
    let v: Vec<(bool, String)> = changes.into_iter().map(|c| (c.stage, c.file)).collect();
    assert_eq!(v, vec![(true, s("a")), (false, s("b"))]);
}

#[test]
fn checkbox_navigation_wraps() {
    let mut cb = StatefulCheckBox::new("A  a\n?? b\n M c");
    assert_eq!(cb.selected, Some(0));
    cb.previous();
    assert_eq!(cb.selected, Some(2));
    cb.next();
    assert_eq!(cb.selected, Some(0));
    cb.next();
    cb.next();
    assert_eq!(cb.selected, Some(2));
    cb.next();
    assert_eq!(cb.selected, Some(0));
}

#[test]
fn checkbox_empty_list_stays_on_zero() {
    let mut cb = StatefulCheckBox::new("");
    cb.next();
    assert_eq!(cb.selected, Some(0));
    cb.previous();
    assert_eq!(cb.selected, Some(0));
}

#[test]
fn checkbox_single_flip_gives_one_change() {
    let mut cb = StatefulCheckBox::new("A  a\n?? b\n M c");
    assert_eq!(cb.added, vec![true, false, false]);
    assert!(cb.changes().is_empty());
    cb.next();
    cb.update();
    let v: Vec<(bool, String)> = cb.changes().into_iter().map(|c| (c.stage, c.file)).collect();
    assert_eq!(v, vec![(true, s("b"))]);
    cb.update();
    assert_eq!(cb.added, cb.original_states);
}

#[test]
fn checkbox_keys() {
    let mut cb = StatefulCheckBox::new("A  a\n?? b");
    assert_eq!(cb.handle_key(key(Key::Down)), None);
    assert_eq!(cb.selected, Some(1));
    assert_eq!(cb.handle_key(key(Key::Enter)), None);
    assert_eq!(cb.added, vec![true, true]);
    assert_eq!(cb.handle_key(key(Key::Up)), None);
    assert_eq!(cb.selected, Some(0));
    assert_eq!(cb.handle_key(key(Key::Char('x'))), None);
    assert_eq!(
        cb.handle_key(KeyPress { key: Key::Char('x'), control: true, control_only: true }),
        Some(true)
    );
    assert_eq!(cb.handle_key(key(Key::Char('q'))), Some(false));
    assert_eq!(cb.handle_key(key(Key::Esc)), Some(false));
    let rows = cb.rows();
    assert_eq!(rows[1].checkmark, "  \u{2705}");
}
