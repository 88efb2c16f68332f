//! Indentation of multi-line text.

use vstd::prelude::*;
use crate::text::{
    lines_of, terminated, strip_cr, no_newline, plain_line, all_plain, split_lines, views,
    push_char, push_line, lemma_lines_no_newline, lemma_lines_of_terminated,
    lemma_lines_of_terminated_stripped, lemma_terminated_push,
};

verus! {

/// `n` spaces.
pub open spec fn spaces(n: nat) -> Seq<char> {
    Seq::new(n, |i: int| ' ')
}

/// The lines of `s`, each after `n` spaces.
pub open spec fn indented_lines(ls: Seq<Seq<char>>, n: nat) -> Seq<Seq<char>> {
    ls.map_values(|l: Seq<char>| spaces(n) + l)
}

/// What `indent` makes of `s`: every line of `s` put after `n` spaces and
/// ended with a line feed.
pub open spec fn indented(s: Seq<char>, n: nat) -> Seq<char> {
    terminated(indented_lines(lines_of(s), n))
}

/// Puts `n` spaces in front of every line of `source`; each line of the
/// result ends with a line feed.
pub fn indent(source: String, n: usize) -> (r: String)
    ensures
        r@ == indented(source@, n as nat),
{
    let ls = split_lines(source.as_str());
    let ghost lv = views(ls@);
    let mut out = String::new();
    let mut i: usize = 0;
    assert(indented_lines(lv.take(0), n as nat) == Seq::<Seq<char>>::empty());
    while i < ls.len()
        invariant
            i <= ls.len(),
            lv == views(ls@),
            lv == lines_of(source@),
            out@ == terminated(indented_lines(lv.take(i as int), n as nat)),
        decreases ls.len() - i,
    {
        let ghost before = out@;
        let mut j: usize = 0;
        while j < n
            invariant
                j <= n,
                out@ == before + spaces(j as nat),
            decreases n - j,
        {
            push_char(&mut out, ' ');
            assert(spaces((j + 1) as nat) == spaces(j as nat).push(' '));
            j = j + 1;
        }
        push_line(&mut out, ls[i].as_str());
        proof {
            assert(lv[i as int] == ls@[i as int]@);
            assert(indented_lines(lv.take(i + 1), n as nat) == indented_lines(
                lv.take(i as int),
                n as nat,
            ).push(spaces(n as nat) + lv[i as int]));
            lemma_terminated_push(
                indented_lines(lv.take(i as int), n as nat),
                spaces(n as nat) + lv[i as int],
            );
            assert(out@ == before + spaces(n as nat) + lv[i as int] + seq!['\n']);
        }
        i = i + 1;
    }
    assert(lv.take(ls.len() as int) == lv);
    out
}

/// Indenting never joins or splits lines: the lines of `indent(s, n)` are
/// the lines of `s` with `n` spaces in front, each without one trailing
/// carriage return.
pub proof fn law_indent_keeps_lines(s: Seq<char>, n: nat)
    ensures
        lines_of(indented(s, n)) == indented_lines(lines_of(s), n).map_values(
            |l: Seq<char>| strip_cr(l),
        ),
        lines_of(indented(s, n)).len() == lines_of(s).len(),
{
    let ls = indented_lines(lines_of(s), n);
    lemma_lines_no_newline(s);
    assert forall|i: int| 0 <= i < ls.len() implies #[trigger] no_newline(ls[i]) by {
        assert(no_newline(lines_of(s)[i]));
        assert(ls[i] == spaces(n) + lines_of(s)[i]);
    }
    lemma_lines_of_terminated_stripped(ls);
}

/// Spaces in front of a plain line leave it plain.
proof fn lemma_indented_plain(ls: Seq<Seq<char>>, n: nat)
    requires
        all_plain(ls),
    ensures
        all_plain(indented_lines(ls, n)),
{
    assert forall|i: int| 0 <= i < indented_lines(ls, n).len() implies #[trigger] plain_line(
        indented_lines(ls, n)[i],
    ) by {
        let l = ls[i];
        assert(plain_line(l));
        let m = spaces(n) + l;
        assert(indented_lines(ls, n)[i] == m);
        if l.len() > 0 {
            assert(m.last() == l.last());
        } else if m.len() > 0 {
            assert(m.last() == ' ');
        }
    }
}

/// When no line of `s` ends with a carriage return, the lines of
/// `indent(s, n)` are exactly the lines of `s` with `n` spaces in front.
pub proof fn law_indent_lines(s: Seq<char>, n: nat)
    requires
        all_plain(lines_of(s)),
    ensures
        lines_of(indented(s, n)) == indented_lines(lines_of(s), n),
{
    lemma_indented_plain(lines_of(s), n);
    lemma_lines_of_terminated(indented_lines(lines_of(s), n));
}

/// Indenting by `a` and then by `b` is indenting by `a + b`, when no line of
/// the text ends with a carriage return.
pub proof fn law_indent_compose(s: Seq<char>, a: nat, b: nat)
    requires
        all_plain(lines_of(s)),
    ensures
        indented(indented(s, a), b) == indented(s, a + b),
{
    law_indent_lines(s, a);
    let ls = lines_of(s);
    assert(indented_lines(indented_lines(ls, a), b) =~= indented_lines(ls, a + b)) by {
        assert forall|i: int| 0 <= i < ls.len() implies indented_lines(indented_lines(ls, a), b)[i]
            == indented_lines(ls, a + b)[i] by {
            assert(spaces(b) + (spaces(a) + ls[i]) =~= spaces(a + b) + ls[i]);
        }
    }
}

/// Text whose every line already ends with a line feed, with no carriage
/// return before it, is left as it is by an indent of zero.
pub proof fn law_indent_zero_identity(ls: Seq<Seq<char>>)
    requires
        all_plain(ls),
    ensures
        indented(terminated(ls), 0) == terminated(ls),
{
    lemma_lines_of_terminated(ls);
    assert(indented_lines(ls, 0) =~= ls) by {
        assert forall|i: int| 0 <= i < ls.len() implies indented_lines(ls, 0)[i] == ls[i] by {
            assert(spaces(0) + ls[i] =~= ls[i]);
        }
    }
}

/// `spaces(n)` is exactly `n` space characters.
pub proof fn law_spaces(n: nat)
    ensures
        spaces(n).len() == n,
        forall|i: int| 0 <= i < n ==> #[trigger] spaces(n)[i] == ' ',
{
}

/// Every line that `indent` writes is `n` spaces, the line itself, and a
/// line feed: the output is exactly those pieces, in the order of the lines.
pub proof fn law_indent_pieces(s: Seq<char>, n: nat)
    ensures
        indented(s, n) == terminated(lines_of(s).map_values(|l: Seq<char>| spaces(n) + l)),
        forall|i: int|
            0 <= i < lines_of(s).len() ==> #[trigger] indented_lines(lines_of(s), n)[i] == spaces(n)
                + lines_of(s)[i],
{
}

} // verus!

