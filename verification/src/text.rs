//! Line handling shared by the text renderers.
//!
//! `lines_of` is the mathematical model of `str::lines`: a text is cut at
//! each line feed, a carriage return right before a line feed is dropped
//! with it, and a final line feed does not start an extra, empty line.

use vstd::prelude::*;

verus! {

/// Index of the first line feed in `s`, or `s.len()` when there is none.
pub open spec fn newline_index(s: Seq<char>) -> nat
    decreases s.len(),
{
    if s.len() == 0 {
        0
    } else if s[0] == '\n' {
        0
    } else {
        1 + newline_index(s.drop_first())
    }
}

/// `l` without one trailing carriage return.
pub open spec fn strip_cr(l: Seq<char>) -> Seq<char> {
    if l.len() > 0 && l.last() == '\r' {
        l.drop_last()
    } else {
        l
    }
}

/// The lines of `s`, as `str::lines` yields them.
pub open spec fn lines_of(s: Seq<char>) -> Seq<Seq<char>>
    decreases s.len(),
{
    if s.len() == 0 {
        seq![]
    } else {
        let k: nat = newline_index(s);
        if k >= s.len() {
            seq![s]
        } else {
            seq![strip_cr(s.take(k as int))] + lines_of(s.skip((k + 1) as int))
        }
    }
}

/// Where the first line feed of `s` stands.
pub proof fn lemma_newline_index(s: Seq<char>)
    ensures
        newline_index(s) <= s.len(),
        forall|i: int| 0 <= i < newline_index(s) ==> s[i] != '\n',
        newline_index(s) < s.len() ==> s[newline_index(s) as int] == '\n',
    decreases s.len(),
{
    if s.len() > 0 && s[0] != '\n' {
        lemma_newline_index(s.drop_first());
        assert forall|i: int| 0 <= i < newline_index(s) implies s[i] != '\n' by {
            if i > 0 {
                assert(s[i] == s.drop_first()[i - 1]);
            }
        }
    }
}

/// The first line feed of `s` is at `k` when `k` holds one and no earlier
/// position does; with no line feed at all it is `s.len()`.
pub proof fn lemma_newline_index_at(s: Seq<char>, k: int)
    requires
        0 <= k <= s.len(),
        forall|i: int| 0 <= i < k ==> s[i] != '\n',
        k < s.len() ==> s[k] == '\n',
    ensures
        newline_index(s) == k,
{
    lemma_newline_index(s);
    if newline_index(s) < k {
        assert(s[newline_index(s) as int] == '\n');
    } else if newline_index(s) > k {
        assert(s[k] != '\n');
    }
}

/// A std `String::push`, with the effect its documentation gives.
#[verifier::external_body]
pub(crate) fn push_char(s: &mut String, c: char)
    ensures
        final(s)@ == old(s)@.push(c),
{
    s.push(c);
}

/// The characters of `s`, in order.
pub fn chars_of(s: &str) -> (r: Vec<char>)
    ensures
        r@ == s@,
{
    let mut r: Vec<char> = Vec::new();
    for c in it: s.chars()
        invariant
            r.len() == it.index(),
            forall|i: int| 0 <= i < r.len() ==> r@[i] == it.seq()[i],
    {
        r.push(c);
    }
    r
}

/// The characters `cs[from..to]` as a string.
pub fn string_from_chars(cs: &Vec<char>, from: usize, to: usize) -> (r: String)
    requires
        from <= to <= cs.len(),
    ensures
        r@ == cs@.subrange(from as int, to as int),
{
    let mut r = String::new();
    let mut i: usize = from;
    while i < to
        invariant
            from <= i <= to <= cs.len(),
            r@ == cs@.subrange(from as int, i as int),
        decreases to - i,
    {
        push_char(&mut r, cs[i]);
        assert(cs@.subrange(from as int, i + 1) == cs@.subrange(from as int, i as int).push(cs@[i as int]));
        i = i + 1;
    }
    r
}

/// The views of a sequence of strings.
pub open spec fn views(v: Seq<String>) -> Seq<Seq<char>> {
    v.map_values(|l: String| l@)
}

/// The lines of `s`, as `str::lines` yields them.
pub fn split_lines(s: &str) -> (r: Vec<String>)
    ensures
        views(r@) == lines_of(s@),
{
    let cs = chars_of(s);
    let n: usize = cs.len();
    let mut out: Vec<String> = Vec::new();
    let mut start: usize = 0;
    assert(cs@.skip(0) == cs@);
    while start < n
        invariant
            cs@ == s@,
            n == cs.len(),
            start <= n,
            views(out@) + lines_of(cs@.skip(start as int)) == lines_of(s@),
        decreases n - start,
    {
        let ghost rest = cs@.skip(start as int);
        let mut k: usize = start;
        while k < n && cs[k] != '\n'
            invariant
                start <= k <= n,
                n == cs.len(),
                forall|i: int| start <= i < k ==> cs@[i] != '\n',
            decreases n - k,
        {
            k = k + 1;
        }
        proof {
            lemma_newline_index_at(rest, k - start);
        }
        let found = k < n;
        let end: usize = if found && k > start && cs[k - 1] == '\r' {
            k - 1
        } else {
            k
        };
        let line = string_from_chars(&cs, start, end);
        let ghost before = out@;
        out.push(line);
        let next: usize = if found {
            k + 1
        } else {
            n
        };
        proof {
            assert(views(out@) == views(before).push(line@));
            if found {
                assert(rest.take(k - start) == cs@.subrange(start as int, k as int));
                assert(line@ == strip_cr(rest.take(k - start)));
                assert(rest.skip(k - start + 1) == cs@.skip(next as int));
                assert(lines_of(rest) == seq![line@] + lines_of(cs@.skip(next as int)));
            } else {
                assert(line@ == rest);
                assert(cs@.skip(next as int).len() == 0);
                assert(lines_of(rest) == seq![line@] + lines_of(cs@.skip(next as int)));
            }
            assert(views(out@) + lines_of(cs@.skip(next as int)) == views(before) + lines_of(rest));
        }
        start = next;
    }
    assert(lines_of(cs@.skip(start as int)).len() == 0);
    assert(views(out@) + lines_of(cs@.skip(start as int)) == views(out@));
    out
}

/// Each line followed by a line feed, all joined.
pub open spec fn terminated(ls: Seq<Seq<char>>) -> Seq<char>
    decreases ls.len(),
{
    if ls.len() == 0 {
        seq![]
    } else {
        terminated(ls.drop_last()) + ls.last() + seq!['\n']
    }
}

/// `l` holds no line feed.
pub open spec fn no_newline(l: Seq<char>) -> bool {
    forall|j: int| 0 <= j < l.len() ==> l[j] != '\n'
}

/// A line that comes back unchanged from `lines_of` once it is terminated:
/// no line feed in it, and no carriage return at its end.
pub open spec fn plain_line(l: Seq<char>) -> bool {
    &&& no_newline(l)
    &&& !(l.len() > 0 && l.last() == '\r')
}

/// Every line of `ls` is a plain line.
pub open spec fn all_plain(ls: Seq<Seq<char>>) -> bool {
    forall|i: int| 0 <= i < ls.len() ==> #[trigger] plain_line(ls[i])
}

pub proof fn lemma_terminated_push(ls: Seq<Seq<char>>, l: Seq<char>)
    ensures
        terminated(ls.push(l)) == terminated(ls) + l + seq!['\n'],
{
    assert(ls.push(l).drop_last() == ls);
}

/// `terminated` read from the front.
pub proof fn lemma_terminated_front(ls: Seq<Seq<char>>)
    requires
        ls.len() > 0,
    ensures
        terminated(ls) == ls[0] + seq!['\n'] + terminated(ls.drop_first()),
    decreases ls.len(),
{
    if ls.len() > 1 {
        lemma_terminated_front(ls.drop_last());
        assert(ls.drop_last().drop_first() == ls.drop_first().drop_last());
        assert(ls.drop_first().last() == ls.last());
        assert(ls.drop_last()[0] == ls[0]);
        let t = terminated(ls.drop_first().drop_last());
        assert(terminated(ls) =~= ls[0] + seq!['\n'] + (t + ls.last() + seq!['\n']));
    } else {
        assert(ls.drop_first().len() == 0);
        assert(ls.drop_last().len() == 0);
        assert(terminated(ls.drop_last()) == Seq::<char>::empty());
        assert(terminated(ls.drop_first()) == Seq::<char>::empty());
        assert(terminated(ls) =~= ls[0] + seq!['\n'] + terminated(ls.drop_first()));
    }
}

/// No line that `lines_of` gives holds a line feed.
pub proof fn lemma_lines_no_newline(s: Seq<char>)
    ensures
        forall|i: int| 0 <= i < lines_of(s).len() ==> #[trigger] no_newline(lines_of(s)[i]),
    decreases s.len(),
{
    if s.len() > 0 {
        lemma_newline_index(s);
        let k: nat = newline_index(s);
        if k < s.len() {
            lemma_lines_no_newline(s.skip((k + 1) as int));
            let first = strip_cr(s.take(k as int));
            assert(no_newline(first));
            assert forall|i: int| 0 <= i < lines_of(s).len() implies #[trigger] no_newline(
                lines_of(s)[i],
            ) by {
                if i > 0 {
                    assert(lines_of(s)[i] == lines_of(s.skip((k + 1) as int))[i - 1]);
                }
            }
        }
    }
}

/// Lines that are terminated and cut again come back as they were.
pub proof fn lemma_lines_of_terminated(ls: Seq<Seq<char>>)
    requires
        all_plain(ls),
    ensures
        lines_of(terminated(ls)) == ls,
    decreases ls.len(),
{
    if ls.len() > 0 {
        lemma_terminated_front(ls);
        let l = ls[0];
        assert(plain_line(l));
        let rest = terminated(ls.drop_first());
        let s = l + seq!['\n'] + rest;
        assert(s == terminated(ls));
        lemma_newline_index_at(s, l.len() as int);
        assert(s.take(l.len() as int) == l);
        assert(s.skip((l.len() + 1) as int) == rest);
        assert(all_plain(ls.drop_first())) by {
            assert forall|i: int| 0 <= i < ls.drop_first().len() implies #[trigger] plain_line(
                ls.drop_first()[i],
            ) by {
                assert(ls.drop_first()[i] == ls[i + 1]);
            }
        }
        lemma_lines_of_terminated(ls.drop_first());
        assert(lines_of(s) == seq![l] + ls.drop_first());
        assert(seq![l] + ls.drop_first() == ls);
    } else {
        assert(terminated(ls).len() == 0);
    }
}

/// Lines without line feeds that are terminated and cut again come back
/// with at most one trailing carriage return dropped from each.
pub proof fn lemma_lines_of_terminated_stripped(ls: Seq<Seq<char>>)
    requires
        forall|i: int| 0 <= i < ls.len() ==> #[trigger] no_newline(ls[i]),
    ensures
        lines_of(terminated(ls)) == ls.map_values(|l: Seq<char>| strip_cr(l)),
    decreases ls.len(),
{
    if ls.len() > 0 {
        lemma_terminated_front(ls);
        let l = ls[0];
        assert(no_newline(l));
        let rest = terminated(ls.drop_first());
        let s = l + seq!['\n'] + rest;
        lemma_newline_index_at(s, l.len() as int);
        assert(s.take(l.len() as int) == l);
        assert(s.skip((l.len() + 1) as int) == rest);
        assert forall|i: int| 0 <= i < ls.drop_first().len() implies #[trigger] no_newline(
            ls.drop_first()[i],
        ) by {
            assert(ls.drop_first()[i] == ls[i + 1]);
        }
        lemma_lines_of_terminated_stripped(ls.drop_first());
        assert(lines_of(s) == seq![strip_cr(l)] + ls.drop_first().map_values(
            |l: Seq<char>| strip_cr(l),
        ));
        assert(seq![strip_cr(l)] + ls.drop_first().map_values(|l: Seq<char>| strip_cr(l))
            =~= ls.map_values(|l: Seq<char>| strip_cr(l)));
    } else {
        assert(terminated(ls).len() == 0);
        assert(ls.map_values(|l: Seq<char>| strip_cr(l)) =~= Seq::<Seq<char>>::empty());
    }
}

/// Whether `a` and `b` hold the same text.
pub fn same_text(a: &str, b: &str) -> (r: bool)
    ensures
        r == (a@ == b@),
{
    let x = chars_of(a);
    let y = chars_of(b);
    if x.len() != y.len() {
        return false;
    }
    let mut i: usize = 0;
    while i < x.len()
        invariant
            x@ == a@,
            y@ == b@,
            x.len() == y.len(),
            i <= x.len(),
            forall|j: int| 0 <= j < i ==> x@[j] == y@[j],
        decreases x.len() - i,
    {
        if x[i] != y[i] {
            return false;
        }
        i = i + 1;
    }
    assert(x@ =~= y@);
    true
}

/// Appends `line` and a line feed to `out`.
pub fn push_line(out: &mut String, line: &str)
    ensures
        final(out)@ == old(out)@ + line@ + seq!['\n'],
{
    out.append(line);
    push_char(out, '\n');
}

/// With no carriage return in `s`, the lines of `s`, each ended by a line
/// feed, give `s` back, with a line feed added when `s` did not end with
/// one: cutting into lines loses nothing but that final line ending.
pub proof fn law_lines_rejoin(s: Seq<char>)
    requires
        forall|i: int| 0 <= i < s.len() ==> s[i] != '\r',
    ensures
        terminated(lines_of(s)) == if s.len() == 0 || s.last() == '\n' {
            s
        } else {
            s.push('\n')
        },
    decreases s.len(),
{
    if s.len() > 0 {
        lemma_newline_index(s);
        let k = newline_index(s);
        if k >= s.len() {
            assert(lines_of(s) == seq![s]);
            assert(seq![s].drop_last().len() == 0);
            assert(terminated(seq![s].drop_last()) == Seq::<char>::empty());
            assert(s.last() != '\n');
            assert(terminated(lines_of(s)) =~= s.push('\n'));
        } else {
            let rest = s.skip((k + 1) as int);
            let first = s.take(k as int);
            assert(strip_cr(first) == first);
            let ls = lines_of(s);
            assert(ls == seq![first] + lines_of(rest));
            assert forall|i: int| 0 <= i < rest.len() implies rest[i] != '\r' by {
                assert(rest[i] == s[i + k + 1]);
            }
            law_lines_rejoin(rest);
            lemma_terminated_front(ls);
            assert(ls.drop_first() =~= lines_of(rest));
            if rest.len() == 0 {
                assert(k == s.len() - 1);
                assert(s =~= first + seq!['\n']);
            } else {
                assert(rest.last() == s.last());
                assert(s =~= first + seq!['\n'] + rest);
                if s.last() == '\n' {
                    assert(terminated(ls) =~= s);
                } else {
                    assert(terminated(ls) =~= s.push('\n'));
                }
            }
        }
    }
}

} // verus!

