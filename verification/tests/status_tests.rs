use wtree::report::{Paint, Piece};
use wtree::status::{classify_status, get_file_states, get_git_status, FileState};

fn flat(out: &Vec<Vec<Piece>>) -> Vec<Vec<(String, Paint)>> {
    out.iter()
        .map(|l| l.iter().map(|p| (p.text.clone(), p.paint)).collect())
        .collect()
}

fn s(x: &str) -> String {
    x.to_string()
}

const PORCELAIN: &str = "A  new.rs\n M mod.rs\n?? un.rs\n D gone.rs\nD  del.rs\nUU conf.rs\nM  both.rs";

#[test]
fn classify_sorts_lines_by_code() {
    let r = classify_status(PORCELAIN);
    assert_eq!(r.staged, vec![s(" new.rs"), s(" both.rs")]);
    assert_eq!(r.unstaged, vec![s(" mod.rs"), s(" un.rs")]);
    assert_eq!(r.unstaged_deleted, vec![s(" gone.rs")]);
    assert_eq!(r.staged_deleted, vec![s(" del.rs")]);
    assert_eq!(r.other, vec![s(" conf.rs")]);
}

#[test]
fn classify_partition_covers_every_line() {
    let r = classify_status(PORCELAIN);
    let total = r.staged.len() + r.unstaged.len() + r.staged_deleted.len()
        + r.unstaged_deleted.len() + r.other.len();
    assert_eq!(total, PORCELAIN.lines().count());
}

#[test]
fn status_output_lists_sections() {
    let out = flat(&get_git_status(PORCELAIN));
    let expected = vec![
        vec![(s("\nStaged files:"), Paint::Plain)],
        vec![(s(" "), Paint::Plain), (s(" new.rs"), Paint::Green)],
        vec![(s(" "), Paint::Plain), (s(" both.rs"), Paint::Green)],
        vec![(s(" "), Paint::Plain), (s(" del.rs"), Paint::Red)],
        vec![(s("\nUnstaged files:"), Paint::Plain)],
        vec![(s(" "), Paint::Plain), (s(" mod.rs"), Paint::Yellow)],
        vec![(s(" "), Paint::Plain), (s(" un.rs"), Paint::Yellow)],
        vec![(s(" "), Paint::Plain), (s(" gone.rs"), Paint::Red)],
        vec![(s("\nOther files:"), Paint::Plain)],
        vec![(s(" "), Paint::Plain), (s(" conf.rs"), Paint::Red)],
    ];
    assert_eq!(out, expected);
}

#[test]
fn status_output_up_to_date() {
    let out = flat(&get_git_status(""));
    assert_eq!(out, vec![vec![(s("Everything is up to date"), Paint::Plain)]]);
}

#[test]
fn status_output_lists_deletions_alone() {
    let out = flat(&get_git_status(" D gone.rs\nD  del.rs"));
    assert_eq!(
        out,
        vec![
            vec![(s("\nStaged files:"), Paint::Plain)],
            vec![(s(" "), Paint::Plain), (s(" del.rs"), Paint::Red)],
            vec![(s("\nUnstaged files:"), Paint::Plain)],
            vec![(s(" "), Paint::Plain), (s(" gone.rs"), Paint::Red)],
        ]
    );
}

#[test]
fn status_output_staged_deletion_only() {
    let out = flat(&get_git_status("D  x"));
    assert_eq!(
        out,
        vec![
            vec![(s("\nStaged files:"), Paint::Plain)],
            vec![(s(" "), Paint::Plain), (s(" x"), Paint::Red)],
        ]
    );
}

#[test]
fn file_states_of_porcelain() {
    let input = "A  \"with space.txt\"\n?? plain.txt\nR  old -> new\nXY odd\n M  spaced \n D \"half";
    let (files, added, states) = get_file_states(input);
    assert_eq!(
        files,
        vec![
            s("with space.txt"),
            s("plain.txt"),
            s("old -> new"),
            s("odd"),
            s(" spaced "),
            s("\"half"),
        ]
    );
    assert_eq!(added, vec![true, false, true, false, false, false]);
    assert_eq!(
        states,
        vec![
            FileState::New,
            FileState::New,
            FileState::Renamed,
            FileState::Error,
            FileState::Modified,
            FileState::Deleted,
        ]
    );
}

#[test]
fn file_states_of_empty_output() {
    let (files, added, states) = get_file_states("");
    assert!(files.is_empty() && added.is_empty() && states.is_empty());
}

#[test]
fn classify_handles_crlf_lines() {
    let r = classify_status("A  a.rs\r\n?? b.rs\r\n");
    assert_eq!(r.staged, vec![s(" a.rs")]);
    assert_eq!(r.unstaged, vec![s(" b.rs")]);
}
