//! Colouring of unified diff output: added lines in green, removed lines in
//! red, every other line as it is.

use vstd::prelude::*;
use color_eyre::owo_colors::OwoColorize;
use crate::text::{
    lines_of, terminated, split_lines, views, push_line, lemma_terminated_push, strip_cr,
    no_newline, plain_line, all_plain, lemma_lines_no_newline, lemma_lines_of_terminated,
    lemma_lines_of_terminated_stripped,
};
use crate::util::fmt::{indented, indented_lines, spaces};

verus! {

/// The escape sequence that turns the foreground green.
pub open spec fn fg_green() -> Seq<char> {
    seq!['\x1b', '[', '3', '2', 'm']
}

/// The escape sequence that turns the foreground red.
pub open spec fn fg_red() -> Seq<char> {
    seq!['\x1b', '[', '3', '1', 'm']
}

/// The escape sequence that restores the default foreground.
pub open spec fn fg_default() -> Seq<char> {
    seq!['\x1b', '[', '3', '9', 'm']
}

/// `l` starts with `c`.
pub open spec fn starts_with(l: Seq<char>, c: char) -> bool {
    l.len() > 0 && l[0] == c
}

/// How one line of a diff is shown.
pub open spec fn colorize(l: Seq<char>) -> Seq<char> {
    if starts_with(l, '+') {
        fg_green() + l + fg_default()
    } else if starts_with(l, '-') {
        fg_red() + l + fg_default()
    } else {
        l
    }
}

/// The lines of a diff, each coloured.
pub open spec fn colorized_lines(ls: Seq<Seq<char>>) -> Seq<Seq<char>> {
    ls.map_values(|l: Seq<char>| colorize(l))
}

/// What `diff` makes of `s`.
pub open spec fn colored_diff(s: Seq<char>) -> Seq<char> {
    terminated(colorized_lines(lines_of(s)))
}

/// `OwoColorize::green` of owo-colors (reached through color-eyre), shown
/// with `Display`: the green escape sequence, the text, and the sequence
/// that restores the default foreground, whatever the terminal.
#[verifier::external_body]
fn paint_green(line: &str) -> (r: String)
    ensures
        r@ == fg_green() + line@ + fg_default(),
{
    format!("{}", line.green())
}

/// `OwoColorize::red` of owo-colors (reached through color-eyre), shown
/// with `Display`: the red escape sequence, the text, and the sequence
/// that restores the default foreground, whatever the terminal.
#[verifier::external_body]
fn paint_red(line: &str) -> (r: String)
    ensures
        r@ == fg_red() + line@ + fg_default(),
{
    format!("{}", line.red())
}

/// Whether `line` starts with `c`.
fn line_starts_with(line: &str, c: char) -> (b: bool)
    ensures
        b == starts_with(line@, c),
{
    line.unicode_len() > 0 && line.get_char(0) == c
}

/// Colours a unified diff: lines that start with `+` turn green, lines that
/// start with `-` turn red, and every line ends with a line feed.
pub fn diff(source: String) -> (r: String)
    ensures
        r@ == colored_diff(source@),
{
    let ls = split_lines(source.as_str());
    let ghost lv = views(ls@);
    let mut out = String::new();
    let mut i: usize = 0;
    assert(colorized_lines(lv.take(0)) == Seq::<Seq<char>>::empty());
    while i < ls.len()
        invariant
            i <= ls.len(),
            lv == views(ls@),
            lv == lines_of(source@),
            out@ == terminated(colorized_lines(lv.take(i as int))),
        decreases ls.len() - i,
    {
        let ghost before = out@;
        let line = ls[i].as_str();
        assert(line@ == lv[i as int]);
        if line_starts_with(line, '+') {
            let painted = paint_green(line);
            push_line(&mut out, painted.as_str());
        } else if line_starts_with(line, '-') {
            let painted = paint_red(line);
            push_line(&mut out, painted.as_str());
        } else {
            push_line(&mut out, line);
        }
        proof {
            assert(colorized_lines(lv.take(i + 1)) == colorized_lines(lv.take(i as int)).push(
                colorize(lv[i as int]),
            ));
            lemma_terminated_push(colorized_lines(lv.take(i as int)), colorize(lv[i as int]));
        }
        i = i + 1;
    }
    assert(lv.take(ls.len() as int) == lv);
    out
}

/// Colouring keeps a line plain and free of line feeds.
proof fn lemma_colorize_keeps(l: Seq<char>)
    ensures
        no_newline(l) ==> no_newline(colorize(l)),
        plain_line(l) ==> plain_line(colorize(l)),
{
    if starts_with(l, '+') || starts_with(l, '-') {
        let c = colorize(l);
        assert(c.last() == 'm');
        if no_newline(l) {
            assert forall|j: int| 0 <= j < c.len() implies c[j] != '\n' by {
                if j >= 5 && j < 5 + l.len() {
                    assert(c[j] == l[j - 5]);
                }
            }
        }
    }
}

/// Colouring never joins or splits lines: `diff` gives one line for each
/// line of its input, coloured, without one trailing carriage return.
pub proof fn law_diff_keeps_lines(s: Seq<char>)
    ensures
        lines_of(colored_diff(s)) == colorized_lines(lines_of(s)).map_values(
            |l: Seq<char>| strip_cr(l),
        ),
        lines_of(colored_diff(s)).len() == lines_of(s).len(),
{
    let ls = colorized_lines(lines_of(s));
    lemma_lines_no_newline(s);
    assert forall|i: int| 0 <= i < ls.len() implies #[trigger] no_newline(ls[i]) by {
        assert(no_newline(lines_of(s)[i]));
        lemma_colorize_keeps(lines_of(s)[i]);
    }
    lemma_lines_of_terminated_stripped(ls);
}

/// When no line of `s` ends with a carriage return, the lines of `diff(s)`
/// are exactly the lines of `s`, each coloured.
pub proof fn law_diff_lines(s: Seq<char>)
    requires
        all_plain(lines_of(s)),
    ensures
        lines_of(colored_diff(s)) == colorized_lines(lines_of(s)),
{
    let ls = colorized_lines(lines_of(s));
    assert forall|i: int| 0 <= i < ls.len() implies #[trigger] plain_line(ls[i]) by {
        assert(plain_line(lines_of(s)[i]));
        lemma_colorize_keeps(lines_of(s)[i]);
    }
    lemma_lines_of_terminated(ls);
}

/// A text in which no line starts with `+` or `-` gets no colour: `diff`
/// only ends each of its lines with a line feed, as `indent` by zero does.
pub proof fn law_diff_without_changes(s: Seq<char>)
    requires
        forall|i: int|
            0 <= i < lines_of(s).len() ==> !starts_with(#[trigger] lines_of(s)[i], '+')
                && !starts_with(lines_of(s)[i], '-'),
    ensures
        colored_diff(s) == indented(s, 0),
{
    let ls = lines_of(s);
    assert(colorized_lines(ls) =~= indented_lines(ls, 0)) by {
        assert forall|i: int| 0 <= i < ls.len() implies colorized_lines(ls)[i]
            == indented_lines(ls, 0)[i] by {
            assert(spaces(0) + ls[i] =~= ls[i]);
        }
    }
}

/// The report shown before an install: the diff, coloured, then indented.
/// When no line ends with a carriage return, it holds every line of the
/// diff, coloured, after `n` spaces, one per line.
pub proof fn law_diff_report(s: Seq<char>, n: nat)
    requires
        all_plain(lines_of(s)),
    ensures
        indented(colored_diff(s), n) == terminated(indented_lines(colorized_lines(lines_of(s)), n)),
{
    law_diff_lines(s);
}

/// The number of digits and `;` at the front of `s`.
pub open spec fn sgr_params_len(s: Seq<char>) -> nat
    decreases s.len(),
{
    if s.len() > 0 && (('0' <= s[0] && s[0] <= '9') || s[0] == ';') {
        1 + sgr_params_len(s.drop_first())
    } else {
        0
    }
}

/// `s` with every escape sequence `ESC [ params m` (params made of digits
/// and `;`) taken out.
pub open spec fn strip_sgr(s: Seq<char>) -> Seq<char>
    decreases s.len(),
{
    if s.len() == 0 {
        s
    } else if s.len() >= 2 && s[0] == '\x1b' && s[1] == '[' && 2 + sgr_params_len(s.skip(2))
        < s.len() && s[(2 + sgr_params_len(s.skip(2))) as int] == 'm' {
        strip_sgr(s.skip((3 + sgr_params_len(s.skip(2))) as int))
    } else {
        seq![s[0]] + strip_sgr(s.drop_first())
    }
}

/// `l` holds no escape character.
pub open spec fn no_escape(l: Seq<char>) -> bool {
    forall|j: int| 0 <= j < l.len() ==> l[j] != '\x1b'
}

/// A two-digit colour sequence at the front is taken out.
proof fn lemma_strip_code(d1: char, d2: char, rest: Seq<char>)
    requires
        '0' <= d1 <= '9',
        '0' <= d2 <= '9',
    ensures
        strip_sgr(seq!['\x1b', '[', d1, d2, 'm'] + rest) == strip_sgr(rest),
{
    let s = seq!['\x1b', '[', d1, d2, 'm'] + rest;
    let p = s.skip(2);
    assert(p.drop_first().drop_first() =~= seq!['m'] + rest);
    assert(sgr_params_len(seq!['m'] + rest) == 0);
    assert(sgr_params_len(p.drop_first()) == 1);
    assert(sgr_params_len(p) == 2);
    assert(s.skip(5) =~= rest);
}

/// Text without escapes at the front stays as it is.
proof fn lemma_strip_plain(l: Seq<char>, rest: Seq<char>)
    requires
        no_escape(l),
    ensures
        strip_sgr(l + rest) == l + strip_sgr(rest),
    decreases l.len(),
{
    if l.len() > 0 {
        let s = l + rest;
        assert(s[0] == l[0]);
        assert(s.drop_first() =~= l.drop_first() + rest);
        lemma_strip_plain(l.drop_first(), rest);
        assert(seq![l[0]] + (l.drop_first() + strip_sgr(rest)) =~= l + strip_sgr(rest));
    } else {
        assert(l + rest =~= rest);
    }
}

/// A line without escapes, coloured and ended with a line feed, loses its
/// colour again when escape sequences are taken out.
proof fn lemma_strip_colorized(l: Seq<char>, rest: Seq<char>)
    requires
        no_escape(l),
    ensures
        strip_sgr(colorize(l) + seq!['\n'] + rest) == l + seq!['\n'] + strip_sgr(rest),
{
    let tail = seq!['\n'] + rest;
    assert(no_escape(seq!['\n']));
    lemma_strip_plain(seq!['\n'], rest);
    if starts_with(l, '+') || starts_with(l, '-') {
        let code = if starts_with(l, '+') { fg_green() } else { fg_red() };
        assert(colorize(l) + seq!['\n'] + rest =~= code + (l + (fg_default() + tail)));
        lemma_strip_code(code[2], code[3], l + (fg_default() + tail));
        assert(code =~= seq!['\x1b', '[', code[2], code[3], 'm']);
        lemma_strip_plain(l, fg_default() + tail);
        lemma_strip_code('3', '9', tail);
        assert(fg_default() =~= seq!['\x1b', '[', '3', '9', 'm']);
        assert(l + (seq!['\n'] + strip_sgr(rest)) =~= l + seq!['\n'] + strip_sgr(rest));
    } else {
        assert(colorize(l) + seq!['\n'] + rest =~= l + tail);
        lemma_strip_plain(l, tail);
        assert(l + (seq!['\n'] + strip_sgr(rest)) =~= l + seq!['\n'] + strip_sgr(rest));
    }
}

/// Taking the escapes out of coloured, terminated lines gives the plain
/// terminated lines.
proof fn lemma_strip_terminated(ls: Seq<Seq<char>>)
    requires
        forall|i: int| 0 <= i < ls.len() ==> #[trigger] no_escape(ls[i]),
    ensures
        strip_sgr(terminated(colorized_lines(ls))) == terminated(ls),
    decreases ls.len(),
{
    if ls.len() == 0 {
        assert(terminated(colorized_lines(ls)).len() == 0);
        assert(terminated(ls).len() == 0);
    } else {
        let cs = colorized_lines(ls);
        crate::text::lemma_terminated_front(cs);
        crate::text::lemma_terminated_front(ls);
        assert(cs.drop_first() =~= colorized_lines(ls.drop_first()));
        assert forall|i: int| 0 <= i < ls.drop_first().len() implies #[trigger] no_escape(
            ls.drop_first()[i],
        ) by {
            assert(ls.drop_first()[i] == ls[i + 1]);
        }
        lemma_strip_terminated(ls.drop_first());
        assert(no_escape(ls[0]));
        lemma_strip_colorized(ls[0], terminated(cs.drop_first()));
    }
}

/// No line of `s` holds a character that `s` does not hold.
proof fn lemma_lines_no_escape(s: Seq<char>)
    requires
        no_escape(s),
    ensures
        forall|i: int| 0 <= i < lines_of(s).len() ==> #[trigger] no_escape(lines_of(s)[i]),
    decreases s.len(),
{
    if s.len() > 0 {
        crate::text::lemma_newline_index(s);
        let k = crate::text::newline_index(s);
        if k < s.len() {
            let rest = s.skip((k + 1) as int);
            assert forall|j: int| 0 <= j < rest.len() implies rest[j] != '\x1b' by {
                assert(rest[j] == s[j + k + 1]);
            }
            lemma_lines_no_escape(rest);
            assert(no_escape(strip_cr(s.take(k as int))));
            assert forall|i: int| 0 <= i < lines_of(s).len() implies #[trigger] no_escape(
                lines_of(s)[i],
            ) by {
                if i > 0 {
                    assert(lines_of(s)[i] == lines_of(rest)[i - 1]);
                }
            }
        }
    }
}

/// Colouring changes no text: with the colour sequences taken out, the
/// output of `diff` on a text without escape characters is that text with
/// each line ended by a line feed, as `indent` by zero gives it.
pub proof fn law_diff_only_adds_colour(s: Seq<char>)
    requires
        no_escape(s),
    ensures
        strip_sgr(colored_diff(s)) == indented(s, 0),
{
    let ls = lines_of(s);
    lemma_lines_no_escape(s);
    lemma_strip_terminated(ls);
    assert(indented_lines(ls, 0) =~= ls) by {
        assert forall|i: int| 0 <= i < ls.len() implies indented_lines(ls, 0)[i] == ls[i] by {
            assert(spaces(0) + ls[i] =~= ls[i]);
        }
    }
}

/// An added line is painted green, a removed line red, each then set back
/// to the default colour; every other line is left as it is.
pub proof fn law_colorize(l: Seq<char>)
    ensures
        l.len() > 0 && l[0] == '+' ==> colorize(l) == seq!['\x1b', '[', '3', '2', 'm'] + l + seq![
            '\x1b',
            '[',
            '3',
            '9',
            'm',
        ],
        l.len() > 0 && l[0] == '-' ==> colorize(l) == seq!['\x1b', '[', '3', '1', 'm'] + l + seq![
            '\x1b',
            '[',
            '3',
            '9',
            'm',
        ],
        !(l.len() > 0 && (l[0] == '+' || l[0] == '-')) ==> colorize(l) == l,
{
}

} // verus!

