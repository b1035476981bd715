use wtree::text::{
    chars_of, concat_str, contains_chars, count_chars_in_bytes, lines_of, string_of, trim_end_matching,
    trimmed,
};

const SAMPLES: [&str; 9] = [
    "",
    "a",
    "a\n",
    "a\r\nb\r\n",
    "\n\n",
    "x\ry\nz",
    "  \u{3000}wide\u{a0} \t",
    "\u{e9}t\u{e9}\nna\u{ef}ve\r",
    "last\r",
];

#[test]
fn lines_agree_with_std() {
    for s in SAMPLES {
        let ours: Vec<String> = lines_of(s).iter().map(string_of).collect();
        let std_lines: Vec<String> = s.lines().map(|l| l.to_string()).collect();
        assert_eq!(ours, std_lines, "lines of {s:?}");
    }
}

#[test]
fn trim_agrees_with_std() {
    for s in SAMPLES {
        let ours = string_of(&trimmed(&chars_of(s)));
        assert_eq!(ours, s.trim(), "trim of {s:?}");
    }
}

#[test]
fn trim_end_matches_agrees_with_std() {
    for (s, p) in [("a.git.git", ".git"), ("x//", "/"), ("aaa", "aa"), ("git", ".git"), ("", "/")] {
        let ours = string_of(&trim_end_matching(&chars_of(s), &chars_of(p)));
        assert_eq!(ours, s.trim_end_matches(p), "{s:?} without {p:?}");
    }
}

#[test]
fn contains_agrees_with_std() {
    for (h, n) in [("abc", "bc"), ("abc", ""), ("", "a"), ("aab", "ab"), ("ab", "abc")] {
        assert_eq!(contains_chars(&chars_of(h), &chars_of(n)), h.contains(n), "{h:?} in {n:?}");
    }
}

#[test]
fn byte_boundaries_agree_with_std() {
    for s in ["ab", "\u{e9}x", "\u{20ac}x", "a\u{e9}", "a", "", "\u{1f600}"] {
        for k in 0..5usize {
            let ours = count_chars_in_bytes(&chars_of(s), k);
            let boundary = k <= s.len() && s.is_char_boundary(k);
            assert_eq!(ours.is_some(), boundary, "{s:?} at {k}");
            if let Some(n) = ours {
                assert_eq!(s[..k].chars().count(), n);
            }
        }
    }
}

#[test]
fn concat_joins() {
    assert_eq!(concat_str("ab", "\u{e9}"), "ab\u{e9}");
}
