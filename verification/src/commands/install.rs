//! Installing the Runebook Kubernetes agent.

use vstd::prelude::*;
use std::collections::HashMap;
use handlebars::Handlebars;
use crate::text::chars_of;

verus! {

/// `c` answers yes.
pub open spec fn is_yes(c: char) -> bool {
    c == 'y' || c == 'Y'
}

/// The lines, as `read_line` gives them, that answer "Do you wish to
/// continue? [Y/n]" by going on with the install: `y` or `Y`, or nothing at
/// all (the default), each with or without its line ending (`\n` or
/// `\r\n`), and a lone carriage return.
pub open spec fn accepts(answer: Seq<char>) -> bool {
    ||| answer.len() == 1 && (is_yes(answer[0]) || answer[0] == '\n' || answer[0] == '\r')
    ||| answer.len() == 2 && (is_yes(answer[0]) || answer[0] == '\r') && answer[1] == '\n'
    ||| answer.len() == 3 && is_yes(answer[0]) && answer[1] == '\r' && answer[2] == '\n'
}

/// Whether the line read from the user goes on with the install.
pub fn confirm_accepts(answer: &str) -> (r: bool)
    ensures
        r == accepts(answer@),
{
    let cs = chars_of(answer);
    let n: usize = cs.len();
    if n == 1 {
        cs[0] == 'y' || cs[0] == 'Y' || cs[0] == '\n' || cs[0] == '\r'
    } else if n == 2 {
        (cs[0] == 'y' || cs[0] == 'Y' || cs[0] == '\r') && cs[1] == '\n'
    } else if n == 3 {
        (cs[0] == 'y' || cs[0] == 'Y') && cs[1] == '\r' && cs[2] == '\n'
    } else {
        false
    }
}

/// The characters inside the tags of `t`: each tag runs from a `{{` met
/// outside a tag to the next `}}`. `in_tag` says whether `t` starts inside
/// a tag.
pub open spec fn tag_chars(t: Seq<char>, in_tag: bool) -> Seq<char>
    decreases t.len(),
{
    if t.len() == 0 {
        seq![]
    } else if !in_tag && t.len() >= 2 && t[0] == '{' && t[1] == '{' {
        tag_chars(t.skip(2), true)
    } else if in_tag && t.len() >= 2 && t[0] == '}' && t[1] == '}' {
        tag_chars(t.skip(2), false)
    } else if in_tag {
        seq![t[0]] + tag_chars(t.drop_first(), true)
    } else {
        tag_chars(t.drop_first(), false)
    }
}

/// A character that can open a nested construct inside a tag: a block,
/// a subexpression, an array or an object.
pub open spec fn nesting_mark(c: char) -> bool {
    c == '#' || c == '(' || c == '[' || c == '{'
}

/// How many nesting marks `s` holds.
pub open spec fn mark_count(s: Seq<char>) -> nat
    decreases s.len(),
{
    if s.len() == 0 {
        0
    } else {
        mark_count(s.drop_last()) + if nesting_mark(s.last()) {
            1nat
        } else {
            0nat
        }
    }
}

/// The most nesting marks a template may hold.
pub const MAX_NESTING_MARKS: usize = 64;

/// A template that handlebars renders without unbounded recursion: no `>`
/// or `*` inside its tags, so no partial call (`{{> p}}`, `{{#> p}}`) and no
/// decorator such as `{{#*inline}}`; and at most `MAX_NESTING_MARKS`
/// openings of blocks, subexpressions or literals inside its tags, which
/// bounds how deep rendering nests. Blocks, comments, triple braces, paths
/// and helper calls are all admitted.
pub open spec fn renderable_template(t: Seq<char>) -> bool {
    let inner = tag_chars(t, false);
    &&& forall|i: int| 0 <= i < inner.len() ==> inner[i] != '>' && inner[i] != '*'
    &&& mark_count(inner) <= MAX_NESTING_MARKS
}

/// The characters inside the tags of `template`.
fn tag_chars_of(template: &str) -> (r: Vec<char>)
    ensures
        r@ == tag_chars(template@, false),
{
    let cs = chars_of(template);
    let n: usize = cs.len();
    let mut inner: Vec<char> = Vec::new();
    let mut in_tag = false;
    let mut i: usize = 0;
    assert(cs@.skip(0) == cs@);
    while i < n
        invariant
            cs@ == template@,
            n == cs.len(),
            i <= n,
            inner@ + tag_chars(cs@.skip(i as int), in_tag) == tag_chars(template@, false),
        decreases n - i,
    {
        let ghost rest = cs@.skip(i as int);
        let ghost before = inner@;
        if !in_tag && i + 1 < n && cs[i] == '{' && cs[i + 1] == '{' {
            assert(rest.skip(2) == cs@.skip(i + 2));
            in_tag = true;
            i = i + 2;
        } else if in_tag && i + 1 < n && cs[i] == '}' && cs[i + 1] == '}' {
            assert(rest.skip(2) == cs@.skip(i + 2));
            in_tag = false;
            i = i + 2;
        } else {
            assert(rest.drop_first() == cs@.skip(i + 1));
            if in_tag {
                inner.push(cs[i]);
                assert(before + (seq![rest[0]] + tag_chars(rest.drop_first(), true)) == inner@
                    + tag_chars(rest.drop_first(), true));
            }
            i = i + 1;
        }
    }
    assert(tag_chars(cs@.skip(n as int), in_tag).len() == 0);
    assert(inner@ + tag_chars(cs@.skip(n as int), in_tag) == inner@);
    inner
}

/// Whether handlebars can be trusted to render `template` without
/// unbounded recursion.
pub fn is_renderable_template(template: &str) -> (r: bool)
    ensures
        r == renderable_template(template@),
{
    let inner = tag_chars_of(template);
    let mut marks: usize = 0;
    let mut i: usize = 0;
    while i < inner.len()
        invariant
            inner@ == tag_chars(template@, false),
            i <= inner.len(),
            marks == mark_count(inner@.take(i as int)),
            marks <= i,
            forall|j: int| 0 <= j < i ==> inner@[j] != '>' && inner@[j] != '*',
        decreases inner.len() - i,
    {
        let c = inner[i];
        if c == '>' || c == '*' {
            return false;
        }
        assert(inner@.take(i + 1).drop_last() == inner@.take(i as int));
        if c == '#' || c == '(' || c == '[' || c == '{' {
            marks = marks + 1;
        }
        i = i + 1;
    }
    assert(inner@.take(inner.len() as int) == inner@);
    marks <= MAX_NESTING_MARKS
}

/// What handlebars renders of `template`, registered under the name
/// `manifest` in a new registry, with the string fields `data`; `None` when
/// the template does not compile or does not render.
pub uninterp spec fn handlebars_rendering(template: Seq<char>, data: Seq<(Seq<char>, Seq<char>)>) -> Option<
    Seq<char>,
>;

/// The views of the entries of a template's data.
pub open spec fn data_views(data: Seq<(String, String)>) -> Seq<(Seq<char>, Seq<char>)> {
    data.map_values(|e: (String, String)| (e.0@, e.1@))
}

/// `Handlebars::register_template_string` under the name `manifest`, then
/// `Handlebars::render` of it, in a new `Handlebars` registry, with `data`
/// as a map from field names to strings: the named rendering. Partials and
/// decorators are not admitted: handlebars puts no bound on partials, so an
/// inline partial that calls itself recurses until the stack overflows.
/// Nesting is bounded too, since every block, subexpression and literal
/// inside a tag adds to the depth of the recursive parse and render.
#[verifier::external_body]
fn handlebars_render(template: &str, data: &Vec<(String, String)>) -> (r: Option<String>)
    requires
        renderable_template(template@),
    ensures
        handlebars_rendering(template@, data_views(data@)) == match r {
            Some(s) => Some(s@),
            None => None,
        },
{
    let fields: HashMap<&str, &str> = data.iter().map(|(k, v)| (k.as_str(), v.as_str())).collect();
    let mut registry = Handlebars::new();
    registry.register_template_string("manifest", template).ok()?;
    registry.render("manifest", &fields).ok()
}

/// The data that the install manifest is rendered with.
pub open spec fn manifest_data(agent_id: Seq<char>, public_key: Seq<char>, private_key: Seq<char>) -> Seq<
    (Seq<char>, Seq<char>),
> {
    seq![("agent_id"@, agent_id), ("public_key"@, public_key), ("private_key"@, private_key)]
}

/// Renders the agent's install manifest from its template, with the
/// organisation's agent id and key pair. A template that calls partials or
/// decorators, or nests more than `MAX_NESTING_MARKS` constructs, gives
/// `None`, as does one that handlebars refuses.
pub fn render_manifest(template: &str, agent_id: &str, public_key: &str, private_key: &str) -> (r:
    Option<String>)
    ensures
        !renderable_template(template@) ==> r is None,
        renderable_template(template@) ==> handlebars_rendering(
            template@,
            manifest_data(agent_id@, public_key@, private_key@),
        ) == match r {
            Some(s) => Some(s@),
            None => None,
        },
{
    if !is_renderable_template(template) {
        return None;
    }
    let mut data: Vec<(String, String)> = Vec::new();
    data.push((String::from_str("agent_id"), String::from_str(agent_id)));
    data.push((String::from_str("public_key"), String::from_str(public_key)));
    data.push((String::from_str("private_key"), String::from_str(private_key)));
    assert(data_views(data@) =~= manifest_data(agent_id@, public_key@, private_key@));
    handlebars_render(template, &data)
}

/// `e` is a line ending as `read_line` keeps it, or none at all.
pub open spec fn line_ending(e: Seq<char>) -> bool {
    e == Seq::<char>::empty() || e == seq!['\n'] || e == seq!['\r', '\n']
}

/// An answer goes on with the install only when it starts with `y`, `Y`
/// or a line ending: every other first character, such as `n` or `N`,
/// cancels, and so does an empty answer.
pub proof fn law_confirm_first_character(answer: Seq<char>)
    ensures
        accepts(answer) ==> answer.len() > 0 && (is_yes(answer[0]) || answer[0] == '\n'
            || answer[0] == '\r'),
{
}

/// The accepted answers are exactly: `y` or `Y` followed by a line ending
/// or by nothing, a bare line ending, and a lone carriage return.
pub proof fn law_confirm_answers(answer: Seq<char>)
    ensures
        accepts(answer) <==> (answer == seq!['\r'] || (answer.len() > 0 && is_yes(answer[0])
            && line_ending(answer.drop_first())) || (answer.len() > 0 && line_ending(answer))),
{
    let d = answer.drop_first();
    if answer.len() > 0 {
        assert(d.len() == answer.len() - 1);
        assert forall|i: int| 0 <= i < d.len() implies d[i] == answer[i + 1] by {}
    }
    if answer.len() == 1 {
        assert(d =~= Seq::<char>::empty());
        if answer[0] == '\n' {
            assert(answer =~= seq!['\n']);
        }
        if answer[0] == '\r' {
            assert(answer =~= seq!['\r']);
        }
    } else if answer.len() == 2 {
        if answer[1] == '\n' {
            assert(d =~= seq!['\n']);
        }
        if answer[0] == '\r' && answer[1] == '\n' {
            assert(answer =~= seq!['\r', '\n']);
        }
        if line_ending(d) {
            assert(d[0] == answer[1]);
        }
        if line_ending(answer) {
            assert(answer == seq!['\r', '\n']);
            assert(answer[0] == '\r');
        }
    } else if answer.len() == 3 {
        if answer[1] == '\r' && answer[2] == '\n' {
            assert(d =~= seq!['\r', '\n']);
        }
        if line_ending(d) {
            assert(d[0] == answer[1] && d[1] == answer[2]);
        }
    }
}

/// Each field that the manifest is rendered with is bound to its own
/// argument: `agent_id` to the agent id, `public_key` to the public key
/// and `private_key` to the private key, and there are no other fields.
pub proof fn law_manifest_fields(agent_id: Seq<char>, public_key: Seq<char>, private_key: Seq<char>)
    ensures
        manifest_data(agent_id, public_key, private_key).len() == 3,
        manifest_data(agent_id, public_key, private_key)[0] == ("agent_id"@, agent_id),
        manifest_data(agent_id, public_key, private_key)[1] == ("public_key"@, public_key),
        manifest_data(agent_id, public_key, private_key)[2] == ("private_key"@, private_key),
{
}

} // verus!

