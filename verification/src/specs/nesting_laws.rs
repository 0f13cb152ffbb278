//! How deep a text nests, and what cleaning keeps.
use crate::specs::guard;
use crate::specs::guard::Scan;
use crate::specs::model::{
    ArgView, CompletionSpec, CompletionSpecView, EntryView, ObjectView, OptionView, SubcommandView,
};
use crate::specs::parsing;
use crate::specs::tree;
use crate::specs::validate;
use crate::text;
use std::sync::Arc;
use vstd::prelude::*;
use vstd::string::*;

verus! {

// ---------------------------------------------------------------------------
// Depth
// ---------------------------------------------------------------------------
/// Where a scan of the whole text ends.
pub open spec fn ending(s: Seq<char>) -> Scan {
    guard::scan(s, s.len() as int)
}

proof fn lemma_scan_prefix(a: Seq<char>, b: Seq<char>, n: int)
    requires
        0 <= n <= a.len(),
    ensures
        guard::scan(a + b, n) == guard::scan(a, n),
    decreases n,
{
    if n > 0 {
        lemma_scan_prefix(a, b, n - 1);
        assert((a + b)[n - 1] == a[n - 1]);
    }
}

proof fn lemma_push(s: Seq<char>, c: char)
    ensures
        ending(s.push(c)) == guard::scan_step(ending(s), c),
{
    let t = s.push(c);
    lemma_scan_prefix(s, seq![c], s.len() as int);
    assert(s + seq![c] =~= t);
    assert(t[s.len() as int] == c);
}

/// Outside of strings an opening bracket of either kind goes one level down
/// and a closing one a level up, but never above the top. Other characters
/// leave the depth, and a double quote begins a string.
pub proof fn law_depth_outside_strings(s: Seq<char>, c: char)
    requires
        !ending(s).in_string,
    ensures
        c == '[' || c == '{' ==> ending(s.push(c)).depth == ending(s).depth + 1,
        c == ']' || c == '}' ==> ending(s.push(c)).depth == (if ending(s).depth > 0 {
            ending(s).depth - 1
        } else {
            0
        }),
        c != '[' && c != '{' && c != ']' && c != '}' ==> ending(s.push(c)).depth == ending(s).depth,
        ending(s.push(c)).in_string <==> c == '"',
{
    lemma_push(s, c);
}

/// Whether the text holds neither a double quote nor a backslash.
pub open spec fn unquoted(s: Seq<char>) -> bool {
    !s.contains('"') && !s.contains('\\')
}

proof fn lemma_in_string(s: Seq<char>, body: Seq<char>)
    requires
        ending(s).in_string,
        !ending(s).escape,
        unquoted(body),
    ensures
        ending(s + body) == ending(s),
    decreases body.len(),
{
    if body.len() == 0 {
        assert(s + body =~= s);
    } else {
        let d = body.drop_last();
        assert(unquoted(d)) by {
            if d.contains('"') {
                let k = choose|k: int| 0 <= k < d.len() && d[k] == '"';
                assert(body[k] == '"');
            }
            if d.contains('\\') {
                let k = choose|k: int| 0 <= k < d.len() && d[k] == '\\';
                assert(body[k] == '\\');
            }
        }
        lemma_in_string(s, d);
        assert(s + body =~= (s + d).push(body.last()));
        assert(body.contains(body.last())) by {
            assert(body[body.len() - 1] == body.last());
        }
        lemma_push(s + d, body.last());
    }
}

/// Brackets inside of a string do not count, whatever they are: a string
/// leaves the depth as it was. An escaped character, be it a double quote or
/// a backslash, does not end the string.
pub proof fn law_strings_do_not_nest(s: Seq<char>, body: Seq<char>, c: char, more: Seq<char>)
    requires
        !ending(s).in_string,
        !ending(s).escape,
        unquoted(body),
        unquoted(more),
    ensures
        ending(s + seq!['"'] + body + seq!['"']) == ending(s),
        ending(s + seq!['"'] + body + seq!['\\', c] + more + seq!['"']) == ending(s),
{
    lemma_push(s, '"');
    assert(s.push('"') =~= s + seq!['"']);
    let t = s + seq!['"'];
    lemma_in_string(t, body);
    lemma_push(t + body, '"');
    assert((t + body).push('"') =~= s + seq!['"'] + body + seq!['"']);
    lemma_push(t + body, '\\');
    let u = (t + body).push('\\');
    lemma_push(u, c);
    let v = u.push(c);
    assert(v =~= s + seq!['"'] + body + seq!['\\', c]);
    lemma_in_string(v, more);
    lemma_push(v + more, '"');
    assert((v + more).push('"') =~= s + seq!['"'] + body + seq!['\\', c] + more + seq!['"']);
    assert(ending(s + seq!['"'] + body + seq!['"']) == ending(s));
}

/// A text is too deep as soon as some beginning of it ends too deep, and only
/// then. So it stays too deep whatever follows.
pub proof fn law_too_deep(s: Seq<char>, more: Seq<char>, max: nat)
    ensures
        ending(s).depth > max ==> guard::too_deep(s + more, max),
        guard::too_deep(s, max) ==> guard::too_deep(s + more, max),
        guard::too_deep(s, max) ==> exists|n: int|
            0 <= n <= s.len() && (#[trigger] ending(s.take(n))).depth > max,
        !guard::too_deep(Seq::empty(), max),
{
    lemma_scan_prefix(s, more, s.len() as int);
    if guard::too_deep(s, max) {
        let n = choose|n: int| 0 <= n <= s.len() && (#[trigger] guard::scan(s, n)).depth > max;
        lemma_scan_prefix(s, more, n);
        assert(guard::scan(s + more, n).depth > max);
        lemma_scan_prefix(s.take(n), s.skip(n), n);
        assert(s.take(n) + s.skip(n) =~= s);
        assert(ending(s.take(n)).depth > max);
    }
    if ending(s).depth > max {
        assert(guard::scan(s + more, s.len() as int).depth > max);
    }
}

proof fn lemma_openings(n: nat, k: int)
    requires
        0 <= k <= n,
    ensures
        guard::scan(Seq::new(n, |i: int| '['), k) == (Scan {
            depth: k as nat,
            in_string: false,
            escape: false,
        }),
    decreases k,
{
    if k > 0 {
        lemma_openings(n, k - 1);
    }
}

/// A text of nothing but opening brackets is too deep exactly if there are
/// more of them than allowed.
pub proof fn law_openings(n: nat, max: nat)
    ensures
        guard::too_deep(Seq::new(n, |i: int| '['), max) <==> n > max,
{
    let s = Seq::new(n, |i: int| '[');
    lemma_openings(n, n as int);
    if guard::too_deep(s, max) {
        let k = choose|k: int| 0 <= k <= s.len() && (#[trigger] guard::scan(s, k)).depth > max;
        lemma_openings(n, k);
    }
}

// ---------------------------------------------------------------------------
// Trees
// ---------------------------------------------------------------------------
/// What is done to the nodes of a forest is done to each of them and to all
/// that are below it; no tree is lost or added, and none changes its place.
pub proof fn law_every_node(
    f: spec_fn(SubcommandView) -> SubcommandView,
    ts: Seq<SubcommandView>,
    i: int,
)
    requires
        0 <= i < ts.len(),
    ensures
        tree::map_forest(f, ts).len() == ts.len(),
        tree::map_forest(f, ts)[i].subcommands == tree::map_forest(f, ts[i].subcommands),
        tree::map_forest(f, ts)[i].name == f(tree::bare(ts[i])).name,
        tree::map_forest(f, ts)[i].description == f(tree::bare(ts[i])).description,
        tree::map_forest(f, ts)[i].options == f(tree::bare(ts[i])).options,
        tree::map_forest(f, ts)[i].args == f(tree::bare(ts[i])).args,
        tree::map_forest(f, ts)[i].priority == f(tree::bare(ts[i])).priority,
{
    let t = ts[i];
    let m = tree::map_tree(f, t);
    assert(m.subcommands =~= tree::map_forest(f, t.subcommands));
}

/// Whether two forests are built alike, with each node of one checked to be
/// the node at its place in the other.
pub open spec fn all_checked(a: Seq<SubcommandView>, b: Seq<SubcommandView>) -> bool
    decreases a,
{
    &&& a.len() == b.len()
    &&& forall|i: int|
        0 <= i < a.len() ==> (#[trigger] b[i]).name == a[i].name && b[i].description
            == a[i].description && b[i].priority == a[i].priority && b[i].args
            == validate::checked_args(a[i].args) && b[i].options == validate::checked_options(
            a[i].options,
        )
    &&& forall|i: int|
        0 <= i < a.len() ==> all_checked(
            (#[trigger] a[i]).subcommands,
            b[i].subcommands,
        )
}

/// Checking a spec reaches every subcommand at every depth and changes nothing
/// but what is checked in its arguments and options.
pub proof fn law_check_reaches_all(ts: Seq<SubcommandView>)
    ensures
        all_checked(ts, tree::map_forest(|t: SubcommandView| validate::checked_node(t), ts)),
    decreases ts,
{
    let f = |t: SubcommandView| validate::checked_node(t);
    let m = tree::map_forest(f, ts);
    assert forall|i: int| 0 <= i < ts.len() implies (#[trigger] m[i]).name == ts[i].name
        && m[i].description == ts[i].description && m[i].priority == ts[i].priority && m[i].args
        == validate::checked_args(ts[i].args) && m[i].options == validate::checked_options(
        ts[i].options,
    ) by {
        law_every_node(f, ts, i);
    }
    assert forall|i: int| 0 <= i < ts.len() implies all_checked(
        (#[trigger] ts[i]).subcommands,
        m[i].subcommands,
    ) by {
        law_every_node(f, ts, i);
        law_check_reaches_all(ts[i].subcommands);
    }
}

/// Whether two forests are built alike, with the texts of each node of one
/// cleaned at its place in the other.
pub open spec fn all_cleaned(a: Seq<SubcommandView>, b: Seq<SubcommandView>) -> bool
    decreases a,
{
    &&& a.len() == b.len()
    &&& forall|i: int|
        0 <= i < a.len() ==> (#[trigger] b[i]).name == guard::clean(a[i].name) && b[i].description
            == guard::clean_opt(a[i].description) && b[i].priority == a[i].priority && b[i].args
            == guard::clean_args(a[i].args) && b[i].options == guard::clean_options(a[i].options)
    &&& forall|i: int|
        0 <= i < a.len() ==> all_cleaned(
            (#[trigger] a[i]).subcommands,
            b[i].subcommands,
        )
}

/// Cleaning a spec reaches every subcommand at every depth and changes nothing
/// but texts.
pub proof fn law_clean_reaches_all(ts: Seq<SubcommandView>)
    ensures
        all_cleaned(ts, tree::map_forest(|t: SubcommandView| guard::clean_node(t), ts)),
    decreases ts,
{
    let f = |t: SubcommandView| guard::clean_node(t);
    let m = tree::map_forest(f, ts);
    assert forall|i: int| 0 <= i < ts.len() implies (#[trigger] m[i]).name == guard::clean(
        ts[i].name,
    ) && m[i].description == guard::clean_opt(ts[i].description) && m[i].priority
        == ts[i].priority && m[i].args == guard::clean_args(ts[i].args) && m[i].options
        == guard::clean_options(ts[i].options) by {
        law_every_node(f, ts, i);
    }
    assert forall|i: int| 0 <= i < ts.len() implies all_cleaned(
        (#[trigger] ts[i]).subcommands,
        m[i].subcommands,
    ) by {
        law_every_node(f, ts, i);
        law_clean_reaches_all(ts[i].subcommands);
    }
}

/// Checking or cleaning the subcommands of a spec is checking or cleaning the
/// whole forest of them.
pub proof fn law_spec_forests(s: CompletionSpecView)
    ensures
        all_checked(s.subcommands, validate::checked_spec(s).subcommands),
        all_cleaned(s.subcommands, guard::clean_spec(s).subcommands),
{
    law_check_reaches_all(s.subcommands);
    law_clean_reaches_all(s.subcommands);
}

// ---------------------------------------------------------------------------
// Texts
// ---------------------------------------------------------------------------
/// Cleaning takes out the control characters and leaves every other one in
/// its place among the rest.
pub proof fn law_clean_apart(a: Seq<char>, c: char, b: Seq<char>)
    ensures
        c < ' ' || '\u{7f}' <= c <= '\u{9f}' ==> guard::clean(a + seq![c] + b) == guard::clean(a)
            + guard::clean(b),
        !(c < ' ' || '\u{7f}' <= c <= '\u{9f}') ==> guard::clean(a + seq![c] + b) == guard::clean(a)
            + seq![c] + guard::clean(b),
        guard::clean(Seq::empty()) == Seq::<char>::empty(),
    decreases b.len(),
{
    reveal(Seq::filter);
    let p = |c: char| !text::is_control(c);
    let all = a + seq![c] + b;
    if b.len() == 0 {
        assert(all =~= a.push(c));
        assert(all.drop_last() =~= a);
    } else {
        law_clean_apart(a, c, b.drop_last());
        assert(all.drop_last() =~= a + seq![c] + b.drop_last());
        assert(all.last() == b.last());
    }
    if c < ' ' || '\u{7f}' <= c <= '\u{9f}' {
        assert(guard::clean(all) =~= guard::clean(a) + guard::clean(b));
    } else {
        assert(guard::clean(all) =~= guard::clean(a) + seq![c] + guard::clean(b));
    }
}

/// Cleaning changes texts that a user may see and nothing else, and no list
/// loses an item.
pub proof fn law_clean_keeps(o: ObjectView, a: ArgView, p: OptionView, s: CompletionSpecView, i: int)
    ensures
        guard::clean_object(o).kind == o.kind,
        guard::clean_object(o).priority == o.priority,
        guard::clean_object(o).hidden == o.hidden,
        guard::clean_object(o).name.len() == o.name.len(),
        0 <= i < o.name.len() ==> guard::clean_object(o).name[i] == guard::clean(o.name[i]),
        o.description matches Some(d) ==> guard::clean_object(o).description == Some(
            guard::clean(d),
        ),
        o.description is None ==> guard::clean_object(o).description is None,
        guard::clean_entry(EntryView::Object(o)) == EntryView::Object(guard::clean_object(o)),
        guard::clean_arg(a).generators == a.generators,
        guard::clean_arg(a).template == a.template,
        guard::clean_arg(a).is_optional == a.is_optional,
        guard::clean_arg(a).is_variadic == a.is_variadic,
        guard::clean_arg(a).suggestions.len() == a.suggestions.len(),
        0 <= i < a.suggestions.len() ==> guard::clean_arg(a).suggestions[i] == guard::clean_entry(
            a.suggestions[i],
        ),
        guard::clean_arg(a).name == guard::clean_opt(a.name),
        guard::clean_arg(a).description == guard::clean_opt(a.description),
        guard::clean_option(p).priority == p.priority,
        guard::clean_option(p).name.len() == p.name.len(),
        0 <= i < p.name.len() ==> guard::clean_option(p).name[i] == guard::clean(p.name[i]),
        guard::clean_option(p).description == guard::clean_opt(p.description),
        p.args matches Some(x) ==> guard::clean_option(p).args == Some(guard::clean_arg(x)),
        p.args is None ==> guard::clean_option(p).args is None,
        guard::clean_option(p).extra_args.len() == p.extra_args.len(),
        0 <= i < p.extra_args.len() ==> guard::clean_option(p).extra_args[i] == guard::clean_arg(
            p.extra_args[i],
        ),
        guard::clean_spec(s).name == guard::clean(s.name),
        guard::clean_spec(s).description == guard::clean_opt(s.description),
        guard::clean_spec(s).args.len() == s.args.len(),
        0 <= i < s.args.len() ==> guard::clean_spec(s).args[i] == guard::clean_arg(s.args[i]),
        guard::clean_spec(s).options.len() == s.options.len(),
        0 <= i < s.options.len() ==> guard::clean_spec(s).options[i] == guard::clean_option(
            s.options[i],
        ),
{
}

// ---------------------------------------------------------------------------
// Templates
// ---------------------------------------------------------------------------
/// Of several templates paths win over folders and folders over the rest,
/// wherever they stand; of the rest the first wins.
pub proof fn law_preferred_template(a: Seq<Seq<char>>, t: Seq<char>, b: Seq<Seq<char>>)
    ensures
        parsing::preferred_template(a + seq!["filepaths"@] + b) == Some("filepaths"@),
        !a.contains("filepaths"@) && !b.contains("filepaths"@) ==> parsing::preferred_template(
            a + seq!["folders"@] + b,
        ) == Some("folders"@),
        t != "filepaths"@ && t != "folders"@ && !b.contains("filepaths"@) && !b.contains(
            "folders"@,
        ) ==> parsing::preferred_template(seq![t] + b) == Some(t),
        parsing::preferred_template(Seq::empty()) is None,
{
    reveal_strlit("filepaths");
    reveal_strlit("folders");
    assert("filepaths"@.len() != "folders"@.len());
    let x = a + seq!["filepaths"@] + b;
    assert(x[a.len() as int] == "filepaths"@);
    let y = a + seq!["folders"@] + b;
    assert(y[a.len() as int] == "folders"@);
    if y.contains("filepaths"@) {
        let k = choose|k: int| 0 <= k < y.len() && y[k] == "filepaths"@;
        if k < a.len() {
            assert(a[k] == "filepaths"@);
        } else {
            assert(b[k - a.len() - 1] == "filepaths"@);
        }
    }
    let z = seq![t] + b;
    assert(z[0] == t);
    if z.contains("filepaths"@) {
        let k = choose|k: int| 0 <= k < z.len() && z[k] == "filepaths"@;
        if k > 0 {
            assert(b[k - 1] == "filepaths"@);
        }
    }
    if z.contains("folders"@) {
        let k = choose|k: int| 0 <= k < z.len() && z[k] == "folders"@;
        if k > 0 {
            assert(b[k - 1] == "folders"@);
        }
    }
}

// ---------------------------------------------------------------------------
// Reading
// ---------------------------------------------------------------------------
/// Text whose brackets nest more than thirty-two deep is refused with a
/// message that says so, whatever a parser would make of it.
pub proof fn law_refused_unread<P: FnOnce(&str) -> Result<CompletionSpec, String>>(
    parse: P,
    contents: Seq<char>,
    n: int,
    r: Result<CompletionSpec, String>,
    t: Result<Arc<CompletionSpec>, String>,
)
    requires
        0 <= n <= contents.len(),
        guard::scan(contents, n).depth > 32,
    ensures
        parsing::checked_parse(parse, contents, r) ==> (r matches Err(e) && e@
            == "spec exceeds maximum JSON nesting depth of "@ + text::decimal(32)
            + "; this is almost certainly a malformed or malicious spec"@),
        parsing::entry_parse(parse, contents, t) ==> (t matches Err(e) && e@ == "parse: "@
            + ("spec exceeds maximum JSON nesting depth of "@ + text::decimal(32)
            + "; this is almost certainly a malformed or malicious spec"@)),
{
    if parsing::entry_parse(parse, contents, t) {
        let out = choose|out: Result<CompletionSpec, String>| #[trigger]
            parsing::checked_parse(parse, contents, out) && match out {
                Ok(s) => t matches Ok(x) && (*x)@ == validate::checked_spec(s@),
                Err(e) => t matches Err(m) && m@ == "parse: "@ + e@,
            };
        assert(out is Err);
    }
}

/// Text that never nests deeper than thirty-two is parsed as it stands: what
/// comes out is what the parser gave, cleaned and, for an entry, checked. An
/// error of the parser comes out as it is, and for an entry behind `parse: `.
pub proof fn law_read<P: FnOnce(&str) -> Result<CompletionSpec, String>>(
    parse: P,
    contents: Seq<char>,
    got: Result<CompletionSpec, String>,
    r: Result<CompletionSpec, String>,
    t: Result<Arc<CompletionSpec>, String>,
)
    requires
        forall|n: int| 0 <= n <= contents.len() ==> (#[trigger] guard::scan(contents, n)).depth <= 32,
        forall|c: &str, out: Result<CompletionSpec, String>|
            c@ == contents && #[trigger] call_ensures(parse, (c,), out) ==> out == got,
    ensures
        parsing::checked_parse(parse, contents, r) ==> match got {
            Ok(s) => r matches Ok(x) && x@ == guard::clean_spec(s@),
            Err(e) => r == Err::<CompletionSpec, String>(e),
        },
        parsing::entry_parse(parse, contents, t) ==> match got {
            Ok(s) => t matches Ok(x) && (*x)@ == validate::checked_spec(guard::clean_spec(s@)),
            Err(e) => t matches Err(m) && m@ == "parse: "@ + e@,
        },
{
    if parsing::entry_parse(parse, contents, t) {
        let out = choose|out: Result<CompletionSpec, String>| #[trigger]
            parsing::checked_parse(parse, contents, out) && match out {
                Ok(s) => t matches Ok(x) && (*x)@ == validate::checked_spec(s@),
                Err(e) => t matches Err(m) && m@ == "parse: "@ + e@,
            };
        assert(got is Ok <==> out is Ok);
    }
}

} // verus!
