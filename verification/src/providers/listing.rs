//! From rows of command output to suggestions.
use crate::text;
use crate::text_laws;
use crate::text_parts;
use crate::types;
use crate::types::{provider_value, Suggestion, SuggestionView};
use vstd::prelude::*;
use vstd::string::*;

verus! {

/// The contents of a sequence of rows.
pub open spec fn views_of<T: View>(v: Seq<T>) -> Seq<T::V> {
    v.map_values(|t: T| t@)
}

/// The content of an optional suggestion.
pub open spec fn opt_shown(o: Option<Suggestion>) -> Option<SuggestionView> {
    match o {
        Some(s) => Some(s@),
        None => None,
    }
}

/// What `f` makes of the rows, in order, without the rows it makes nothing
/// of.
pub open spec fn picked<A, B>(rows: Seq<A>, f: spec_fn(A) -> Option<B>) -> Seq<B>
    decreases rows.len(),
{
    if rows.len() == 0 {
        Seq::empty()
    } else {
        match f(rows.last()) {
            Some(b) => picked(rows.drop_last(), f).push(b),
            None => picked(rows.drop_last(), f),
        }
    }
}

/// Rows are picked one by one: what comes of rows in front of others comes in
/// front, and what comes of one row is what `f` makes of it.
pub proof fn law_picked_apart<A, B>(a: Seq<A>, b: Seq<A>, row: A, f: spec_fn(A) -> Option<B>)
    ensures
        picked(a + b, f) == picked(a, f) + picked(b, f),
        picked(seq![row], f) == (match f(row) {
            Some(x) => seq![x],
            None => Seq::<B>::empty(),
        }),
        picked(Seq::<A>::empty(), f) == Seq::<B>::empty(),
{
    lemma_picked_parts(a, b, f);
    assert(seq![row].drop_last() =~= Seq::<A>::empty());
    assert(picked(seq![row].drop_last(), f) =~= Seq::<B>::empty());
    if let Some(x) = f(row) {
        assert(Seq::<B>::empty().push(x) =~= seq![x]);
    }
}

proof fn lemma_picked_parts<A, B>(a: Seq<A>, b: Seq<A>, f: spec_fn(A) -> Option<B>)
    ensures
        picked(a + b, f) == picked(a, f) + picked(b, f),
    decreases b.len(),
{
    if b.len() == 0 {
        assert(a + b =~= a);
        assert(picked(a, f) + picked(b, f) =~= picked(a, f));
    } else {
        lemma_picked_parts(a, b.drop_last(), f);
        assert((a + b).drop_last() =~= a + b.drop_last());
        assert((a + b).last() == b.last());
        assert(picked(a + b, f) =~= picked(a, f) + picked(b, f));
    }
}

/// Every row of which `f` makes something is picked.
pub proof fn law_all_picked<A, B>(rows: Seq<A>, f: spec_fn(A) -> Option<B>)
    ensures
        forall|j: int|
            0 <= j < rows.len() ==> (f(#[trigger] rows[j]) matches Some(x) ==> picked(
                rows,
                f,
            ).contains(x)),
        (forall|j: int| 0 <= j < rows.len() ==> f(#[trigger] rows[j]) is Some) ==> picked(
            rows,
            f,
        ).len() == rows.len() && forall|j: int|
            0 <= j < rows.len() ==> f(#[trigger] rows[j]) == Some(picked(rows, f)[j]),
    decreases rows.len(),
{
    if rows.len() > 0 {
        let d = rows.drop_last();
        law_all_picked(d, f);
        let p = picked(d, f);
        let q = picked(rows, f);
        assert forall|j: int| 0 <= j < rows.len() implies (f(#[trigger] rows[j]) matches Some(x)
            ==> q.contains(x)) by {
            if j < d.len() {
                assert(d[j] == rows[j]);
                if let Some(x) = f(rows[j]) {
                    let k = choose|k: int| 0 <= k < p.len() && p[k] == x;
                    assert(q[k] == x);
                }
            } else if let Some(x) = f(rows[j]) {
                assert(q[q.len() - 1] == x);
            }
        }
        if forall|j: int| 0 <= j < rows.len() ==> f(#[trigger] rows[j]) is Some {
            assert forall|j: int| 0 <= j < d.len() implies f(#[trigger] d[j]) is Some by {
                assert(d[j] == rows[j]);
            }
            assert(f(rows[rows.len() - 1]) is Some);
            assert forall|j: int| 0 <= j < rows.len() implies f(#[trigger] rows[j]) == Some(
                q[j],
            ) by {
                if j < d.len() {
                    assert(d[j] == rows[j]);
                }
            }
        }
    }
}

/// Nothing but what `f` makes of some row is picked, and no more than one
/// thing for each row.
pub proof fn law_picked<A, B>(rows: Seq<A>, f: spec_fn(A) -> Option<B>)
    ensures
        picked(rows, f).len() <= rows.len(),
        forall|i: int|
            0 <= i < picked(rows, f).len() ==> exists|j: int|
                0 <= j < rows.len() && f(#[trigger] rows[j]) == Some(#[trigger] picked(rows, f)[i]),
    decreases rows.len(),
{
    if rows.len() > 0 {
        let d = rows.drop_last();
        law_picked(d, f);
        let r = picked(rows, f);
        assert forall|i: int| 0 <= i < r.len() implies exists|j: int|
            0 <= j < rows.len() && f(#[trigger] rows[j]) == Some(#[trigger] r[i]) by {
            if i < picked(d, f).len() {
                assert(r[i] == picked(d, f)[i]);
                let j = choose|j: int| 0 <= j < d.len() && f(#[trigger] d[j]) == Some(r[i]);
                assert(rows[j] == d[j]);
            } else {
                assert(rows[rows.len() - 1] == rows.last());
            }
        }
    }
}

/// Picking from rows and further rows is picking from each in turn.
pub proof fn law_picked_concat<A, B>(a: Seq<A>, b: Seq<A>, f: spec_fn(A) -> Option<B>)
    ensures
        picked(a + b, f) == picked(a, f) + picked(b, f),
    decreases b.len(),
{
    if b.len() == 0 {
        assert(a + b =~= a);
        assert(picked(b, f) =~= Seq::empty());
    } else {
        law_picked_concat(a, b.drop_last(), f);
        assert((a + b).drop_last() =~= a + b.drop_last());
        assert(picked(a + b, f) =~= picked(a, f) + picked(b, f));
    }
}

/// What `f` makes of the rows, in order. `g` says what that is.
pub(crate) fn pick<T: View, F: Fn(&T) -> Option<Suggestion>>(
    rows: &Vec<T>,
    f: F,
    Ghost(g): Ghost<spec_fn(T::V) -> Option<SuggestionView>>,
) -> (r: Vec<Suggestion>)
    requires
        forall|t: &T| #[trigger] call_requires(f, (t,)),
        forall|t: &T, o: Option<Suggestion>| #[trigger]
            call_ensures(f, (t,), o) ==> opt_shown(o) == g(t@),
    ensures
        types::shown(r@) == picked(views_of(rows@), g),
{
    let ghost all = views_of(rows@);
    let mut out: Vec<Suggestion> = Vec::new();
    let mut i: usize = 0;
    proof {
        assert(all.take(0) =~= Seq::empty());
        assert(types::shown(out@) =~= Seq::empty());
    }
    while i < rows.len()
        invariant
            i <= rows.len(),
            all == views_of(rows@),
            forall|t: &T| #[trigger] call_requires(f, (t,)),
            forall|t: &T, o: Option<Suggestion>| #[trigger]
                call_ensures(f, (t,), o) ==> opt_shown(o) == g(t@),
            types::shown(out@) == picked(all.take(i as int), g),
        decreases rows.len() - i,
    {
        proof {
            assert(all.take(i + 1).drop_last() =~= all.take(i as int));
            assert(all.take(i + 1).last() == rows@[i as int]@);
        }
        let got = f(&rows[i]);
        assert(opt_shown(got) == g(rows@[i as int]@));
        if let Some(s) = got {
            let ghost before = out@;
            out.push(s);
            assert(types::shown(out@) =~= types::shown(before).push(s@));
        }
        i += 1;
    }
    assert(all.take(all.len() as int) =~= all);
    out
}

/// What `f` makes of the lines of a command's output, in order.
pub(crate) fn pick_lines<F: Fn(&String) -> Option<Suggestion>>(
    stdout: &str,
    f: F,
    Ghost(g): Ghost<spec_fn(Seq<char>) -> Option<SuggestionView>>,
) -> (r: Vec<Suggestion>)
    requires
        forall|t: &String| #[trigger] call_requires(f, (t,)),
        forall|t: &String, o: Option<Suggestion>| #[trigger]
            call_ensures(f, (t,), o) ==> opt_shown(o) == g(t@),
    ensures
        types::shown(r@) == picked(text::lines(stdout@), g),
{
    let lines = text::lines_of(stdout);
    assert(views_of(lines@) =~= text::views(lines@));
    pick(&lines, f, Ghost(g))
}

// ---------------------------------------------------------------------------
// Descriptions
// ---------------------------------------------------------------------------
/// The pieces with one more, if it is there.
pub open spec fn extended(pieces: Seq<Seq<char>>, more: Option<Seq<char>>) -> Seq<Seq<char>> {
    match more {
        Some(m) => pieces.push(m),
        None => pieces,
    }
}

/// The pieces with spaces between them, if there are any.
pub open spec fn joined_or_none(pieces: Seq<Seq<char>>) -> Option<Seq<char>> {
    if pieces.len() == 0 {
        None
    } else {
        Some(text_parts::joined(pieces, " "@))
    }
}

/// `a (b)`, or the one that is there.
pub open spec fn with_remark(a: Option<Seq<char>>, b: Option<Seq<char>>) -> Option<Seq<char>> {
    match (a, b) {
        (Some(x), Some(y)) => Some(x + " ("@ + y + ")"@),
        (Some(x), None) => Some(x),
        (None, Some(y)) => Some(y),
        (None, None) => None,
    }
}

/// Adds a piece, if it is there.
pub fn extend(pieces: &mut Vec<String>, more: Option<String>)
    ensures
        text::views(final(pieces)@) == extended(text::views(old(pieces)@), text::opt_view(more)),
{
    if let Some(m) = more {
        let ghost before = pieces@;
        pieces.push(m);
        assert(text::views(pieces@) =~= text::views(before).push(m@));
    }
}

/// The pieces with spaces between them, if there are any.
pub fn join_or_none(pieces: &Vec<String>) -> (r: Option<String>)
    ensures
        text::opt_view(r) == joined_or_none(text::views(pieces@)),
{
    assert(text::views(pieces@).len() == pieces@.len());
    if pieces.len() == 0 {
        None
    } else {
        Some(text_parts::join_all(pieces, " "))
    }
}

/// `a (b)`, or the one that is there.
pub fn remark(a: Option<String>, b: Option<String>) -> (r: Option<String>)
    ensures
        text::opt_view(r) == with_remark(text::opt_view(a), text::opt_view(b)),
{
    match (a, b) {
        (Some(x), Some(y)) => {
            let mut out = x;
            out.append(" (");
            out.append(&y);
            out.append(")");
            Some(out)
        },
        (Some(x), None) => Some(x),
        (None, Some(y)) => Some(y),
        (None, None) => None,
    }
}

// ---------------------------------------------------------------------------
// Plain lists
// ---------------------------------------------------------------------------
/// A name with a description.
pub open spec fn entry(piece: Seq<char>, description: Seq<char>) -> Option<SuggestionView> {
    if text::trimmed(piece).len() == 0 {
        None
    } else {
        Some(types::provided(text::trimmed(piece), Some(description)))
    }
}

/// One suggestion for each piece that is not blank, all with one description.
pub open spec fn entries(
    pieces: Seq<Seq<char>>,
    description: Seq<char>,
) -> Seq<SuggestionView> {
    picked(pieces, |p: Seq<char>| entry(p, description))
}

/// A line with a name on it suggests the name, without the white space around
/// it, and before all that the further lines suggest. A blank line suggests
/// nothing.
pub proof fn law_line_entries(
    front: Seq<char>,
    name: Seq<char>,
    back: Seq<char>,
    rest: Seq<char>,
    description: Seq<char>,
)
    requires
        text::is_blank(front),
        text::is_blank(back),
        text_laws::tight(name),
        !front.contains('\n'),
        !back.contains('\n'),
        !name.contains('\n'),
    ensures
        entries(text::lines(front + name + back + seq!['\n'] + rest), description) == seq![
            types::provided(name, Some(description)),
        ] + entries(text::lines(rest), description),
        entries(text::lines(front + seq!['\n'] + rest), description) == entries(
            text::lines(rest),
            description,
        ),
        entries(text::lines(front + name + back), description) == seq![
            types::provided(name, Some(description)),
        ],
        entries(Seq::<Seq<char>>::empty(), description) == Seq::<SuggestionView>::empty(),
{
    let l = front + name + back;
    let f = |p: Seq<char>| entry(p, description);
    assert(!l.contains('\n')) by {
        if l.contains('\n') {
            let k = choose|k: int| 0 <= k < l.len() && l[k] == '\n';
            if k < front.len() {
                assert(front[k] == '\n');
            } else if k < front.len() + name.len() {
                assert(name[k - front.len()] == '\n');
            } else {
                assert(back[k - front.len() - name.len()] == '\n');
            }
        }
    }
    text_laws::law_line_ends(l, rest);
    text_laws::law_line_ends(front, rest);
    text_laws::law_last_line(l);
    text_laws::law_trim(front, name, back);
    lemma_unreturned(front, name, back);
    let u = text_laws::unreturned(l);
    law_picked_apart(seq![u], text::lines(rest), u, f);
    law_picked_apart(seq![l], text::lines(rest), l, f);
    let v = text_laws::unreturned(front);
    law_picked_apart(seq![v], text::lines(rest), v, f);
    assert forall|k: int| 0 <= k < v.len() implies text::is_white(#[trigger] v[k]) by {
        assert(v[k] == front[k]);
    }
    text_laws::law_trim_blank(v);
    assert(entries(text::lines(front + seq!['\n'] + rest), description) =~= entries(
        text::lines(rest),
        description,
    ));
}

/// A carriage return at the end of a line is white space like any other.
proof fn lemma_unreturned(front: Seq<char>, name: Seq<char>, back: Seq<char>)
    requires
        text::is_blank(front),
        text::is_blank(back),
        text_laws::tight(name),
    ensures
        text::trimmed(text_laws::unreturned(front + name + back)) == name,
{
    let l = front + name + back;
    text_laws::law_trim(front, name, back);
    let u = text_laws::unreturned(l);
    if u != l {
        if back.len() == 0 {
            assert(l[l.len() - 1] == name[name.len() - 1]);
            assert(text::is_white('\r'));
        } else {
            let shorter = back.take(back.len() - 1);
            assert(u =~= front + name + shorter);
            assert(text::is_blank(shorter));
            text_laws::law_trim(front, name, shorter);
        }
    }
}

/// One suggestion for each piece that is not blank, all with one description.
pub fn entries_of(pieces: &Vec<String>, description: &str) -> (r: Vec<Suggestion>)
    ensures
        types::shown(r@) == entries(text::views(pieces@), description@),
{
    let f = |p: &String| -> (o: Option<Suggestion>)
        ensures
            opt_shown(o) == entry(p@, description@),
        {
            let t = text::trim(p);
            if t.as_str().is_empty() {
                None
            } else {
                Some(provider_value(t, Some(description.to_owned())))
            }
        };
    assert(views_of(pieces@) =~= text::views(pieces@));
    pick(pieces, f, Ghost(|p: Seq<char>| entry(p, description@)))
}

/// One suggestion for each line that is not blank, all with one description.
pub fn line_entries(stdout: &str, description: &str) -> (r: Vec<Suggestion>)
    ensures
        types::shown(r@) == entries(text::lines(stdout@), description@),
{
    entries_of(&text::lines_of(stdout), description)
}

// ---------------------------------------------------------------------------
// Pairs of a name and a description
// ---------------------------------------------------------------------------
/// The first halves of pairs.
pub open spec fn firsts(pairs: Seq<(Seq<char>, Seq<char>)>) -> Seq<Seq<char>> {
    pairs.map_values(|p: (Seq<char>, Seq<char>)| p.0)
}

/// Pairs as suggestions: name and description.
pub open spec fn pairs_shown(pairs: Seq<(Seq<char>, Seq<char>)>) -> Seq<SuggestionView> {
    pairs.map_values(|p: (Seq<char>, Seq<char>)| types::provided(p.0, Some(p.1)))
}

/// Whether a name is among the suggestions that stand for the pairs.
pub(crate) fn knows(out: &Vec<Suggestion>, id: &str, Ghost(pairs): Ghost<Seq<(Seq<char>, Seq<char>)>>) -> (r:
    bool)
    requires
        types::shown(out@) == pairs_shown(pairs),
    ensures
        r == firsts(pairs).contains(id@),
{
    let ghost all = firsts(pairs);
    assert(types::shown(out@).len() == pairs.len());
    let mut i: usize = 0;
    while i < out.len()
        invariant
            i <= out.len(),
            out.len() == pairs.len(),
            all == firsts(pairs),
            types::shown(out@) == pairs_shown(pairs),
            forall|j: int| 0 <= j < i ==> #[trigger] all[j] != id@,
        decreases out.len() - i,
    {
        assert(types::shown(out@)[i as int] == out@[i as int]@);
        assert(pairs_shown(pairs)[i as int].text == pairs[i as int].0);
        assert(all[i as int] == out@[i as int].text@);
        if text::same(&out[i].text, id) {
            return true;
        }
        i += 1;
    }
    false
}

// ---------------------------------------------------------------------------
// Arguments
// ---------------------------------------------------------------------------
/// One argument.
pub fn strings1(a: &str) -> (r: Vec<String>)
    ensures
        text::views(r@) == seq![a@],
{
    let mut out: Vec<String> = Vec::new();
    out.push(a.to_owned());
    assert(text::views(out@) =~= seq![a@]);
    out
}

/// Two arguments.
pub fn strings2(a: &str, b: &str) -> (r: Vec<String>)
    ensures
        text::views(r@) == seq![a@, b@],
{
    let mut out = strings1(a);
    let ghost before = out@;
    out.push(b.to_owned());
    assert(text::views(out@) =~= text::views(before).push(b@));
    assert(text::views(out@) =~= seq![a@, b@]);
    out
}

/// Three arguments.
pub fn strings3(a: &str, b: &str, c: &str) -> (r: Vec<String>)
    ensures
        text::views(r@) == seq![a@, b@, c@],
{
    let mut out = strings2(a, b);
    let ghost before = out@;
    out.push(c.to_owned());
    assert(text::views(out@) =~= text::views(before).push(c@));
    assert(text::views(out@) =~= seq![a@, b@, c@]);
    out
}

/// Four arguments.
pub fn strings4(a: &str, b: &str, c: &str, d: &str) -> (r: Vec<String>)
    ensures
        text::views(r@) == seq![a@, b@, c@, d@],
{
    let mut out = strings3(a, b, c);
    let ghost before = out@;
    out.push(d.to_owned());
    assert(text::views(out@) =~= text::views(before).push(d@));
    assert(text::views(out@) =~= seq![a@, b@, c@, d@]);
    out
}

/// Five arguments.
pub fn strings5(a: &str, b: &str, c: &str, d: &str, e: &str) -> (r: Vec<String>)
    ensures
        text::views(r@) == seq![a@, b@, c@, d@, e@],
{
    let mut out = strings4(a, b, c, d);
    let ghost before = out@;
    out.push(e.to_owned());
    assert(text::views(out@) =~= text::views(before).push(e@));
    assert(text::views(out@) =~= seq![a@, b@, c@, d@, e@]);
    out
}

/// Every pair is shown under its name with its description, in order.
pub proof fn law_pairs(pairs: Seq<(Seq<char>, Seq<char>)>, i: int)
    requires
        0 <= i < pairs.len(),
    ensures
        pairs_shown(pairs).len() == pairs.len(),
        firsts(pairs).len() == pairs.len(),
        pairs_shown(pairs)[i].text == pairs[i].0,
        pairs_shown(pairs)[i].description == Some(pairs[i].1),
        firsts(pairs)[i] == pairs[i].0,
{
}

} // verus!
