//! Which targets the text of a makefile has.
use crate::providers::local_project::makefile;
use crate::providers::local_project::makefile::Joining;
use crate::providers::path_laws;
use crate::providers::paths;
use crate::text;
use crate::text_laws;
use vstd::prelude::*;
use vstd::string::*;

verus! {

// ---------------------------------------------------------------------------
// One line
// ---------------------------------------------------------------------------
/// The words before the colon of a rule are its names, whatever follows the
/// colon, as long as the colon begins no assignment. The line may be indented
/// by anything but a tabulator.
pub proof fn law_rule_line(indent: Seq<char>, lhs: Seq<char>, rest: Seq<char>)
    requires
        text::is_blank(indent),
        indent.len() == 0 || indent[0] != '\t',
        lhs.len() > 0,
        !text::is_white(lhs[0]),
        lhs[0] != '#',
        lhs[0] != '.',
        !lhs.contains(':'),
        !lhs.contains('='),
        rest.len() == 0 || rest[0] != '=',
        rest.len() < 2 || rest[0] != ':' || rest[1] != '=',
    ensures
        makefile::rule_names(indent + lhs + seq![':'] + rest) == text::words(lhs),
{
    let line = indent + lhs + seq![':'] + rest;
    let n = indent.len() as int;
    let m = lhs.len() as int;
    assert(line[n] == lhs[0]);
    text_laws::lemma_white_end(line, 0, n);
    let t = makefile::without_indent(line);
    assert(t =~= lhs + seq![':'] + rest);
    assert forall|j: int| 0 <= j < m implies t[j] != ':' && t[j] != '=' by {
        assert(lhs.contains(lhs[j]));
    }
    assert(t[m] == ':');
    text_laws::lemma_found(t, ':', 0, m);
    assert(text::find_from(t, '=', 0) >= m) by {
        lemma_not_before(t, '=', 0, m);
    }
    if m + 1 < t.len() {
        assert(t[m + 1] == rest[0]);
    }
    if m + 2 < t.len() {
        assert(t[m + 2] == rest[1]);
    }
    if n > 0 {
        assert(line[0] == indent[0]);
        assert(text::is_white(indent[0]));
        text_laws::law_white('#');
    }
    assert(t.take(m) =~= lhs);
}

proof fn lemma_not_before(s: Seq<char>, c: char, i: int, k: int)
    requires
        0 <= i <= k <= s.len(),
        forall|j: int| i <= j < k ==> s[j] != c,
    ensures
        text::find_from(s, c, i) >= k,
    decreases k - i,
{
    if i < k {
        lemma_not_before(s, c, i + 1, k);
    } else {
        text::lemma_find_from(s, c, i);
    }
}

/// A recipe, a comment, a blank line, a line of a meta target and a line
/// without a colon name nothing.
pub proof fn law_no_rule_line(indent: Seq<char>, rest: Seq<char>)
    requires
        text::is_blank(indent),
    ensures
        makefile::rule_names(seq!['\t'] + rest) == Seq::<Seq<char>>::empty(),
        makefile::rule_names(indent) == Seq::<Seq<char>>::empty(),
        makefile::rule_names(indent + seq!['#'] + rest) == Seq::<Seq<char>>::empty(),
        makefile::rule_names(indent + seq!['.'] + rest) == Seq::<Seq<char>>::empty(),
        !rest.contains(':') ==> makefile::rule_names(rest) == Seq::<Seq<char>>::empty(),
{
    let n = indent.len() as int;
    assert((seq!['\t'] + rest)[0] == '\t');
    text_laws::lemma_white_end(indent, 0, n);
    assert(makefile::without_indent(indent).len() == 0);
    text_laws::law_white('#');
    text_laws::law_white('.');
    let a = indent + seq!['#'] + rest;
    assert(a[n] == '#');
    text_laws::lemma_white_end(a, 0, n);
    assert(makefile::without_indent(a)[0] == '#');
    let b = indent + seq!['.'] + rest;
    assert(b[n] == '.');
    text_laws::lemma_white_end(b, 0, n);
    assert(makefile::without_indent(b)[0] == '.');
    if !rest.contains(':') {
        let t = makefile::without_indent(rest);
        text::lemma_skip_white(rest, 0);
        text::lemma_find_from(t, ':', 0);
        let c = text::find_from(t, ':', 0);
        if c < t.len() {
            assert(t[c] == rest[text::skip_white(rest, 0) + c]);
            assert(rest.contains(':'));
        }
    }
}

// ---------------------------------------------------------------------------
// Names
// ---------------------------------------------------------------------------
/// Whether make takes a name as it stands: it begins with no dot, and holds
/// neither `$(` nor `${` nor `%`.
pub open spec fn plain(name: Seq<char>) -> bool {
    &&& name.len() == 0 || name[0] != '.'
    &&& !name.contains('%')
    &&& forall|i: int|
        0 <= i < name.len() - 1 && #[trigger] name[i] == '$' ==> name[i + 1] != '(' && name[i + 1]
            != '{'
}

proof fn lemma_plain(name: Seq<char>)
    ensures
        makefile::is_target(name) <==> plain(name),
{
    if plain(name) {
        if makefile::has_pair(name, '$', '(') {
            let i = choose|i: int|
                0 <= i < name.len() - 1 && #[trigger] name[i] == '$' && name[i + 1] == '(';
            assert(false);
        }
        if makefile::has_pair(name, '$', '{') {
            let i = choose|i: int|
                0 <= i < name.len() - 1 && #[trigger] name[i] == '$' && name[i + 1] == '{';
            assert(false);
        }
    }
    if makefile::is_target(name) {
        assert forall|i: int| 0 <= i < name.len() - 1 && #[trigger] name[i] == '$' implies name[i
            + 1] != '(' && name[i + 1] != '{' by {
            if name[i + 1] == '(' {
                assert(makefile::has_pair(name, '$', '('));
            }
            if name[i + 1] == '{' {
                assert(makefile::has_pair(name, '$', '{'));
            }
        }
    }
}

proof fn lemma_names_in(out: Seq<Seq<char>>, names: Seq<Seq<char>>, name: Seq<char>)
    ensures
        makefile::with_names(out, names).contains(name) <==> out.contains(name) || (plain(name)
            && names.contains(name)),
    decreases names.len(),
{
    if names.len() > 0 {
        let d = names.drop_last();
        let w = makefile::with_names(out, d);
        lemma_names_in(out, d, name);
        lemma_names_in(out, d, names.last());
        lemma_plain(names.last());
        assert(names =~= d.push(names.last()));
        assert(names.contains(name) <==> d.contains(name) || name == names.last()) by {
            if d.contains(name) {
                let k = choose|k: int| 0 <= k < d.len() && d[k] == name;
                assert(names[k] == name);
            }
            if name == names.last() {
                assert(names[names.len() - 1] == name);
            }
            if names.contains(name) {
                let k = choose|k: int| 0 <= k < names.len() && names[k] == name;
                if k < d.len() {
                    assert(d[k] == name);
                }
            }
        }
        let l = names.last();
        assert(w.push(l).contains(name) <==> w.contains(name) || name == l) by {
            if w.contains(name) {
                let k = choose|k: int| 0 <= k < w.len() && w[k] == name;
                assert(w.push(l)[k] == name);
            }
            if name == l {
                assert(w.push(l)[w.len() as int] == name);
            }
        }
    }
}

/// The targets are exactly the plain names of the rules: every one of them,
/// whatever other characters it is made of, and nothing else.
pub proof fn law_targets_are_names(lines: Seq<Seq<char>>, name: Seq<char>)
    ensures
        makefile::targets_of(lines).contains(name) <==> plain(name) && exists|i: int|
            0 <= i < lines.len() && makefile::rule_names(#[trigger] lines[i]).contains(name),
    decreases lines.len(),
{
    if lines.len() > 0 {
        let d = lines.drop_last();
        law_targets_are_names(d, name);
        lemma_names_in(makefile::targets_of(d), makefile::rule_names(lines.last()), name);
        if exists|i: int|
            0 <= i < d.len() && makefile::rule_names(#[trigger] d[i]).contains(name) {
            let i = choose|i: int|
                0 <= i < d.len() && makefile::rule_names(#[trigger] d[i]).contains(name);
            assert(lines[i] == d[i]);
        }
        if makefile::rule_names(lines.last()).contains(name) {
            assert(lines[lines.len() - 1] == lines.last());
        }
        if exists|i: int|
            0 <= i < lines.len() && makefile::rule_names(#[trigger] lines[i]).contains(name) {
            let i = choose|i: int|
                0 <= i < lines.len() && makefile::rule_names(#[trigger] lines[i]).contains(name);
            if i < d.len() {
                assert(d[i] == lines[i]);
            }
        }
    }
}

proof fn lemma_names_extend(out: Seq<Seq<char>>, names: Seq<Seq<char>>)
    ensures
        out.is_prefix_of(makefile::with_names(out, names)),
    decreases names.len(),
{
    if names.len() > 0 {
        lemma_names_extend(out, names.drop_last());
        let w = makefile::with_names(out, names.drop_last());
        assert forall|i: int| 0 <= i < out.len() implies out[i] == makefile::with_names(
            out,
            names,
        )[i] by {
            assert(out[i] == w[i]);
        }
    }
}

/// Further lines put their targets behind those of the lines before them.
pub proof fn law_targets_in_order(a: Seq<Seq<char>>, b: Seq<Seq<char>>)
    ensures
        makefile::targets_of(a).is_prefix_of(makefile::targets_of(a + b)),
        makefile::targets_of(a).no_duplicates(),
    decreases b.len(),
{
    lemma_distinct(a);
    if b.len() == 0 {
        assert(a + b =~= a);
    } else {
        law_targets_in_order(a, b.drop_last());
        assert((a + b).drop_last() =~= a + b.drop_last());
        assert((a + b).last() == b.last());
        let w = makefile::targets_of(a + b.drop_last());
        lemma_names_extend(w, makefile::rule_names(b.last()));
        let t = makefile::targets_of(a);
        assert forall|i: int| 0 <= i < t.len() implies t[i] == makefile::targets_of(a + b)[i] by {
            assert(t[i] == w[i]);
        }
    }
}

proof fn lemma_distinct_names(out: Seq<Seq<char>>, names: Seq<Seq<char>>)
    requires
        out.no_duplicates(),
    ensures
        makefile::with_names(out, names).no_duplicates(),
    decreases names.len(),
{
    if names.len() > 0 {
        lemma_distinct_names(out, names.drop_last());
    }
}

proof fn lemma_distinct(lines: Seq<Seq<char>>)
    ensures
        makefile::targets_of(lines).no_duplicates(),
    decreases lines.len(),
{
    if lines.len() > 0 {
        lemma_distinct(lines.drop_last());
        lemma_distinct_names(
            makefile::targets_of(lines.drop_last()),
            makefile::rule_names(lines.last()),
        );
    }
}

/// The names of one rule keep their order.
pub proof fn law_rule_names_in_order(names: Seq<Seq<char>>)
    requires
        names.no_duplicates(),
        forall|i: int| 0 <= i < names.len() ==> plain(#[trigger] names[i]),
    ensures
        makefile::with_names(Seq::empty(), names) == names,
    decreases names.len(),
{
    if names.len() > 0 {
        let d = names.drop_last();
        assert forall|i: int| 0 <= i < d.len() implies plain(#[trigger] d[i]) by {
            assert(d[i] == names[i]);
        }
        law_rule_names_in_order(d);
        lemma_plain(names[names.len() - 1]);
        if d.contains(names.last()) {
            let k = choose|k: int| 0 <= k < d.len() && d[k] == names.last();
            assert(names[k] == names[names.len() - 1]);
        }
        assert(d.push(names.last()) =~= names);
    }
}

// ---------------------------------------------------------------------------
// The whole text
// ---------------------------------------------------------------------------
proof fn lemma_join_apart(p: Seq<char>, rest: Seq<Seq<char>>)
    requires
        ({
            let l = text_laws::unreturned(p);
            l.len() == 0 || l[l.len() - 1] != '\\'
        }),
    ensures
        ({
            let b = makefile::join_lines(rest);
            makefile::join_lines(seq![p] + rest) == (Joining {
                out: seq![text_laws::unreturned(p)] + b.out,
                current: b.current,
                continued: b.continued,
            })
        }),
    decreases rest.len(),
{
    let all = seq![p] + rest;
    let l = text_laws::unreturned(p);
    assert(makefile::without_cr(p) =~= l);
    if rest.len() == 0 {
        assert(all.drop_last() =~= Seq::empty());
        assert(all.last() == p);
        let st = makefile::join_lines(Seq::empty());
        assert(makefile::join_lines(all) == makefile::join_line(st, p));
        assert(Seq::<char>::empty() + l =~= l);
        assert(st.out.push(l) =~= seq![l] + st.out);
    } else {
        lemma_join_apart(p, rest.drop_last());
        assert(all.drop_last() =~= seq![p] + rest.drop_last());
        assert(all.last() == rest.last());
        let b = makefile::join_lines(rest.drop_last());
        let begun = if b.continued {
            b.current.push(' ')
        } else {
            b.current
        };
        let x = begun + makefile::without_cr(rest.last());
        assert((seq![l] + b.out).push(x) =~= seq![l] + b.out.push(x));
    }
}

/// A line that does not end in a backslash is a line of its own.
pub proof fn law_plain_line(l: Seq<char>, rest: Seq<char>)
    requires
        !l.contains('\n'),
        ({
            let u = text_laws::unreturned(l);
            u.len() == 0 || u[u.len() - 1] != '\\'
        }),
    ensures
        makefile::logical(l + seq!['\n'] + rest) == seq![text_laws::unreturned(l)]
            + makefile::logical(rest),
        makefile::logical(l) == seq![text_laws::unreturned(l)],
{
    text_laws::law_split(l, '\n', rest);
    lemma_join_apart(l, text::split(rest, '\n'));
    let b = makefile::join_lines(text::split(rest, '\n'));
    let u = text_laws::unreturned(l);
    assert((seq![u] + b.out).push(b.current) =~= seq![u] + b.out.push(b.current));
    lemma_join_apart(l, Seq::empty());
    assert(seq![l] + Seq::<Seq<char>>::empty() =~= seq![l]);
    assert(makefile::logical(l) =~= seq![u]);
}

proof fn lemma_join_continued(x: Seq<char>, p: Seq<char>, rest: Seq<Seq<char>>)
    requires
        rest.len() > 0,
        text_laws::unreturned(p) == x + seq!['\\'],
    ensures
        ({
            let b = makefile::join_lines(rest);
            let a = makefile::join_lines(seq![p] + rest);
            &&& a.continued == b.continued
            &&& b.out.len() == 0 ==> b.continued && a.continued && a.out == b.out && a.current == x
                + seq![' '] + b.current
            &&& b.out.len() > 0 ==> a.current == b.current && a.out == seq![
                x + seq![' '] + b.out[0],
            ] + b.out.skip(1)
        }),
    decreases rest.len(),
{
    let all = seq![p] + rest;
    let l = x + seq!['\\'];
    assert(makefile::without_cr(p) =~= l);
    assert(l[l.len() - 1] == '\\');
    assert(l.drop_last() =~= x);
    assert(all.drop_last() =~= seq![p] + rest.drop_last());
    assert(all.last() == rest.last());
    let q = makefile::without_cr(rest.last());
    if rest.len() == 1 {
        assert(rest.drop_last() =~= Seq::empty());
        assert((seq![p] + rest.drop_last()).drop_last() =~= Seq::empty());
        assert((seq![p] + rest.drop_last()).last() == p);
        let s0 = makefile::join_lines(Seq::empty());
        let s1 = makefile::join_lines(seq![p] + rest.drop_last());
        assert(s1 == makefile::join_line(s0, p));
        assert(s1.current =~= x);
        assert(s1.continued);
        assert(Seq::<char>::empty() + q =~= q);
        assert(x.push(' ') + q =~= x + seq![' '] + q);
        if q.len() > 0 && q.last() == '\\' {
            assert(Seq::<char>::empty() + q.drop_last() =~= q.drop_last());
            assert(x.push(' ') + q.drop_last() =~= x + seq![' '] + q.drop_last());
        } else {
            let b = makefile::join_lines(rest);
            let a = makefile::join_lines(all);
            assert(b.out =~= seq![q]);
            assert(a.out =~= seq![x + seq![' '] + q]);
            assert(a.out =~= seq![x + seq![' '] + b.out[0]] + b.out.skip(1));
        }
    } else {
        let d = rest.drop_last();
        lemma_join_continued(x, p, d);
        let b = makefile::join_lines(d);
        let a = makefile::join_lines(seq![p] + d);
        let bb = if b.continued {
            b.current.push(' ')
        } else {
            b.current
        };
        let ab = if a.continued {
            a.current.push(' ')
        } else {
            a.current
        };
        let b2 = makefile::join_lines(rest);
        let a2 = makefile::join_lines(all);
        if b.out.len() == 0 {
            assert(ab =~= x + seq![' '] + bb);
            if q.len() > 0 && q.last() == '\\' {
                assert(ab + q.drop_last() =~= x + seq![' '] + (bb + q.drop_last()));
            } else {
                assert(b2.out =~= seq![bb + q]);
                assert(ab + q =~= x + seq![' '] + (bb + q));
                assert(a2.out =~= seq![x + seq![' '] + b2.out[0]] + b2.out.skip(1));
            }
        } else {
            assert(ab == bb);
            if !(q.len() > 0 && q.last() == '\\') {
                assert(b2.out =~= b.out.push(bb + q));
                assert(a2.out =~= seq![x + seq![' '] + b2.out[0]] + b2.out.skip(1));
            }
        }
    }
}

/// A backslash at the end of a line joins the next line to it: the backslash
/// goes, and a space stands between the two.
pub proof fn law_continued_line(x: Seq<char>, rest: Seq<char>)
    requires
        !x.contains('\n'),
        makefile::logical(rest).len() > 0,
    ensures
        makefile::logical(x + seq!['\\'] + seq!['\n'] + rest) == seq![
            x + seq![' '] + makefile::logical(rest)[0],
        ] + makefile::logical(rest).skip(1),
        makefile::logical(x + seq!['\\', '\r'] + seq!['\n'] + rest) == seq![
            x + seq![' '] + makefile::logical(rest)[0],
        ] + makefile::logical(rest).skip(1),
{
    lemma_continued(x, x + seq!['\\'], rest);
    let r = x + seq!['\\', '\r'];
    assert(r.take(r.len() - 1) =~= x + seq!['\\']);
    lemma_continued(x, r, rest);
}

proof fn lemma_continued(x: Seq<char>, l: Seq<char>, rest: Seq<char>)
    requires
        !x.contains('\n'),
        l == x + seq!['\\'] || l == x + seq!['\\', '\r'],
        makefile::logical(rest).len() > 0,
    ensures
        makefile::logical(l + seq!['\n'] + rest) == seq![
            x + seq![' '] + makefile::logical(rest)[0],
        ] + makefile::logical(rest).skip(1),
{
    assert(!l.contains('\n')) by {
        if l.contains('\n') {
            let k = choose|k: int| 0 <= k < l.len() && l[k] == '\n';
            if k < x.len() {
                assert(x[k] == '\n');
            }
        }
    }
    text_laws::law_split(l, '\n', rest);
    let pieces = text::split(rest, '\n');
    assert(pieces.len() > 0);
    assert(text_laws::unreturned(l) =~= x + seq!['\\']);
    lemma_join_continued(x, l, pieces);
    let b = makefile::join_lines(pieces);
    let a = makefile::join_lines(seq![l] + pieces);
    let lb = makefile::logical(rest);
    let la = makefile::logical(l + seq!['\n'] + rest);
    if b.out.len() > 0 {
        if b.current.len() > 0 {
            assert(lb =~= b.out.push(b.current));
        }
        assert(la =~= seq![x + seq![' '] + lb[0]] + lb.skip(1));
    } else {
        assert(lb =~= seq![b.current]);
        assert(la =~= seq![x + seq![' '] + lb[0]] + lb.skip(1));
    }
}

/// The targets of a text whose first line ends without a backslash: the plain
/// names of the first line, and the targets of the rest.
pub proof fn law_first_line(l: Seq<char>, rest: Seq<char>, name: Seq<char>)
    requires
        !l.contains('\n'),
        ({
            let u = text_laws::unreturned(l);
            u.len() == 0 || u[u.len() - 1] != '\\'
        }),
    ensures
        makefile::makefile_targets(l + seq!['\n'] + rest).contains(name) <==> (plain(name)
            && makefile::rule_names(text_laws::unreturned(l)).contains(name))
            || makefile::makefile_targets(rest).contains(name),
{
    law_plain_line(l, rest);
    let u = text_laws::unreturned(l);
    let more = makefile::logical(rest);
    let all = seq![u] + more;
    law_targets_are_names(all, name);
    law_targets_are_names(more, name);
    if exists|i: int|
        0 <= i < more.len() && makefile::rule_names(#[trigger] more[i]).contains(name) {
        let i = choose|i: int|
            0 <= i < more.len() && makefile::rule_names(#[trigger] more[i]).contains(name);
        assert(all[i + 1] == more[i]);
    }
    if makefile::rule_names(u).contains(name) {
        assert(all[0] == u);
    }
    if exists|i: int| 0 <= i < all.len() && makefile::rule_names(#[trigger] all[i]).contains(name) {
        let i = choose|i: int|
            0 <= i < all.len() && makefile::rule_names(#[trigger] all[i]).contains(name);
        if i > 0 {
            assert(more[i - 1] == all[i]);
        }
    }
}

/// A makefile of one rule with one plain name has that one target, whatever
/// characters the name is made of beyond those that make reads specially.
pub proof fn law_one_target(name: Seq<char>)
    requires
        name.len() > 0,
        text_laws::solid(name),
        name[0] != '.',
        !name.contains(':'),
        !name.contains('='),
        !name.contains('#'),
        !name.contains('$'),
        !name.contains('%'),
        !name.contains('\\'),
    ensures
        makefile::makefile_targets(name + seq![':']) == seq![name],
{
    let l = name + seq![':'];
    let none = Seq::<char>::empty();
    assert(!l.contains('\n')) by {
        if l.contains('\n') {
            let k = choose|k: int| 0 <= k < l.len() && l[k] == '\n';
            if k < name.len() {
                assert(!text::is_white(name[k]));
                text_laws::law_white('\n');
            }
        }
    }
    assert(l[l.len() - 1] == ':');
    law_plain_line(l, none);
    assert(name.contains(name[0]));
    assert(!text::is_white(name[0]));
    law_rule_line(none, name, none);
    assert(none + name + seq![':'] + none =~= l);
    text_laws::law_one_word(name);
    assert(plain(name)) by {
        assert forall|i: int| 0 <= i < name.len() - 1 && #[trigger] name[i] == '$' implies name[i
            + 1] != '(' && name[i + 1] != '{' by {
            assert(name.contains('$'));
        }
    }
    law_rule_names_in_order(seq![name]);
    assert(makefile::logical(l) == seq![l]);
    assert(seq![l].drop_last() =~= Seq::empty());
    assert(makefile::targets_of(seq![l].drop_last()) =~= Seq::empty());
}

/// Of the makefiles of one directory, `GNUmakefile` counts before `makefile`
/// and `makefile` before `Makefile`; one in a nearer directory counts before
/// any further up.
pub proof fn law_makefile_precedence<F: Fn(&str) -> bool>(
    is_file: F,
    there: spec_fn(Seq<char>) -> bool,
    dir: Seq<char>,
    r: Option<Seq<char>>,
)
    requires
        path_laws::answers_by(is_file, there),
        path_laws::ends_in_name(dir),
        paths::upward_result(is_file, dir, makefile::makefile_names(), r),
    ensures
        there(dir + "/GNUmakefile"@) ==> r == Some(dir + "/GNUmakefile"@),
        !there(dir + "/GNUmakefile"@) && there(dir + "/makefile"@) ==> r == Some(
            dir + "/makefile"@,
        ),
        !there(dir + "/GNUmakefile"@) && !there(dir + "/makefile"@) && there(dir + "/Makefile"@)
            ==> r == Some(dir + "/Makefile"@),
{
    let names = makefile::makefile_names();
    path_laws::law_upward(is_file, there, dir, names, r);
    reveal_strlit("GNUmakefile");
    reveal_strlit("/GNUmakefile");
    reveal_strlit("makefile");
    reveal_strlit("/makefile");
    reveal_strlit("Makefile");
    reveal_strlit("/Makefile");
    path_laws::law_joined(dir, "GNUmakefile"@, dir);
    path_laws::law_joined(dir, "makefile"@, dir);
    path_laws::law_joined(dir, "Makefile"@, dir);
    assert(dir + "/GNUmakefile"@ =~= dir + seq!['/'] + "GNUmakefile"@);
    assert(dir + "/makefile"@ =~= dir + seq!['/'] + "makefile"@);
    assert(dir + "/Makefile"@ =~= dir + seq!['/'] + "Makefile"@);
    assert(paths::ancestor(dir, 0) == Some(dir));
    assert(paths::candidate(dir, names, 0, 0) == dir + "/GNUmakefile"@);
    assert(paths::candidate(dir, names, 0, 1) == dir + "/makefile"@);
    assert(paths::candidate(dir, names, 0, 2) == dir + "/Makefile"@);
    if r is Some {
        let p = r->Some_0;
        let (k, j) = choose|k: int, j: int|
            0 <= k < 32 && 0 <= j < names.len() && paths::ancestor(dir, k) is Some && p
                == #[trigger] paths::candidate(dir, names, k, j) && (forall|i: int, l: int|
                0 <= i <= k && 0 <= l < names.len() && (i < k || l < j) ==> !there(
                    #[trigger] paths::candidate(dir, names, i, l),
                ));
        assert(j == 0 || j == 1 || j == 2);
    }
}

/// An assignment names no target, whichever of its signs it is written with.
pub proof fn law_assignment(name: Seq<char>, gap: Seq<char>, rest: Seq<char>)
    requires
        text_laws::tight(name),
        !name.contains(':'),
        !name.contains('='),
        text::is_blank(gap),
    ensures
        makefile::rule_names(name + gap + seq!['='] + rest) == Seq::<Seq<char>>::empty(),
        makefile::rule_names(name + gap + seq![':', '='] + rest) == Seq::<Seq<char>>::empty(),
        makefile::rule_names(name + gap + seq![':', ':', '='] + rest) == Seq::<Seq<char>>::empty(),
        makefile::rule_names(name + gap + seq!['?', '='] + rest) == Seq::<Seq<char>>::empty(),
        makefile::rule_names(name + gap + seq!['+', '='] + rest) == Seq::<Seq<char>>::empty(),
{
    lemma_assigned(name, gap, seq!['='], rest);
    lemma_assigned(name, gap, seq![':', '='], rest);
    lemma_assigned(name, gap, seq![':', ':', '='], rest);
    lemma_assigned(name, gap, seq!['?', '='], rest);
    lemma_assigned(name, gap, seq!['+', '='], rest);
}

proof fn lemma_assigned(name: Seq<char>, gap: Seq<char>, sign: Seq<char>, rest: Seq<char>)
    requires
        text_laws::tight(name),
        !name.contains(':'),
        !name.contains('='),
        text::is_blank(gap),
        sign == seq!['='] || sign == seq![':', '='] || sign == seq![':', ':', '='] || sign == seq![
            '?',
            '=',
        ] || sign == seq!['+', '='],
    ensures
        makefile::rule_names(name + gap + sign + rest) == Seq::<Seq<char>>::empty(),
{
    let s = name + gap + sign + rest;
    let n = name.len() as int;
    let g = n + gap.len();
    assert(s[0] == name[0]);
    text_laws::lemma_white_end(s, 0, 0);
    assert(s.skip(0) =~= s);
    let t = makefile::without_indent(s);
    assert(t == s);
    assert forall|i: int| 0 <= i < g implies s[i] != ':' && s[i] != '=' by {
        if i < n {
            assert(s[i] == name[i]);
            assert(name.contains(name[i]));
        } else {
            assert(s[i] == gap[i - n]);
            assert(text::is_white(gap[i - n]));
        }
    }
    text::lemma_find_from(s, ':', 0);
    text::lemma_find_from(s, '=', 0);
    let c = text::find_from(s, ':', 0);
    let e = text::find_from(s, '=', 0);
    assert forall|i: int| 0 <= i < sign.len() implies s[g + i] == sign[i] by {}
    if sign[0] == ':' {
        assert(s[g] == ':');
        assert(c == g);
        assert(s[g + 1] == sign[1]);
        if sign.len() == 3 {
            assert(s[g + 2] == sign[2]);
        }
    } else {
        let k = sign.len() - 1;
        assert(s[g + k] == '=');
        assert(e <= g + k);
        assert(c > g + k) by {
            if c <= g + k {
                assert(s[c] == ':');
                assert(s[c] == sign[c - g]);
            }
        }
    }
}

} // verus!
