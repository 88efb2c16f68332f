use wand::text::{split_lines, same_text};
use wand::util::color::diff;
use wand::util::fmt::indent;

fn lines(s: &str) -> Vec<String> {
    split_lines(s)
}

#[test]
fn split_lines_follows_str_lines() {
    for s in ["", "\n", "a", "a\n", "a\nb", "a\r\nb\r\n", "a\r", "a\r\r\n", "\n\nx", "x\ry\n"] {
        let expected: Vec<String> = s.lines().map(String::from).collect();
        assert_eq!(lines(s), expected, "input {:?}", s);
    }
}

#[test]
fn same_text_compares_characters() {
    assert!(same_text("message", "message"));
    assert!(!same_text("message", "messages"));
    assert!(!same_text("a", "b"));
    assert!(same_text("", ""));
}

#[test]
fn indent_prefixes_every_line() {
    assert_eq!(indent("a\nb".to_string(), 2), "  a\n  b\n");
    assert_eq!(indent("a\r\nb\n".to_string(), 1), " a\n b\n");
    assert_eq!(indent("".to_string(), 4), "");
    assert_eq!(indent("\n".to_string(), 3), "   \n");
    assert_eq!(indent("x".to_string(), 0), "x\n");
}

#[test]
fn indent_composes() {
    let s = "first\n  second\n\nthird".to_string();
    assert_eq!(indent(indent(s.clone(), 1), 2), indent(s, 3));
}

#[test]
fn indent_keeps_line_count() {
    let s = "a\r\r\nb\n\nc";
    let out = indent(s.to_string(), 2);
    assert_eq!(out.lines().count(), s.lines().count());
}

#[test]
fn diff_colours_added_and_removed_lines() {
    let out = diff("+added\n-removed\n context".to_string());
    assert_eq!(out, "\x1b[32m+added\x1b[39m\n\x1b[31m-removed\x1b[39m\n context\n");
}

#[test]
fn diff_of_plain_text_is_indent_by_zero() {
    let s = "apiVersion: v1\nkind: Pod\r\n metadata";
    assert_eq!(diff(s.to_string()), indent(s.to_string(), 0));
}

#[test]
fn diff_keeps_line_count() {
    let s = "+a\n-b\nc\n+\n-";
    assert_eq!(diff(s.to_string()).lines().count(), s.lines().count());
}

#[test]
fn diff_report_indents_coloured_lines() {
    let report = indent(diff("+x\ny".to_string()), 4);
    assert_eq!(report, "    \x1b[32m+x\x1b[39m\n    y\n");
}

/// Takes out every `ESC [ digits/; m` sequence.
fn strip_sgr(s: &str) -> String {
    let cs: Vec<char> = s.chars().collect();
    let mut out = String::new();
    let mut i: usize = 0;
    while i < cs.len() {
        if cs[i] == '\x1b' && i + 1 < cs.len() && cs[i + 1] == '[' {
            let mut k: usize = i + 2;
            while k < cs.len() && (cs[k].is_ascii_digit() || cs[k] == ';') {
                k += 1;
            }
            if k < cs.len() && cs[k] == 'm' {
                i = k + 1;
                continue;
            }
        }
        out.push(cs[i]);
        i += 1;
    }
    out
}

#[test]
fn diff_only_adds_colour() {
    let s = "+new line\n-old line\r\n same\n+\n-";
    assert_eq!(strip_sgr(&diff(s.to_string())), indent(s.to_string(), 0));
}
