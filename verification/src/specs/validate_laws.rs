//! What checking a spec guarantees for the spec as a whole.
use crate::specs::model::{
    ArgView, CompletionSpecView, EntryView, GeneratorView, OptionView, SubcommandView,
};
use crate::specs::tree;
use crate::specs::validate;
use vstd::prelude::*;

verus! {

// ---------------------------------------------------------------------------
// Nothing left to take out
// ---------------------------------------------------------------------------
pub open spec fn arg_is_checked(a: ArgView) -> bool {
    &&& forall|i: int|
        0 <= i < a.generators.len() ==> validate::runnable(#[trigger] a.generators[i])
    &&& forall|i: int|
        0 <= i < a.suggestions.len() ==> validate::presentable(#[trigger] a.suggestions[i])
}

pub open spec fn args_are_checked(v: Seq<ArgView>) -> bool {
    forall|i: int| 0 <= i < v.len() ==> arg_is_checked(#[trigger] v[i])
}

pub open spec fn option_is_checked(o: OptionView) -> bool {
    &&& (o.args matches Some(a) ==> arg_is_checked(a))
    &&& args_are_checked(o.extra_args)
}

pub open spec fn options_are_checked(v: Seq<OptionView>) -> bool {
    forall|i: int| 0 <= i < v.len() ==> option_is_checked(#[trigger] v[i])
}

/// Whether every generator of a subcommand, or of one below it, can run, and
/// every listed value be shown.
pub open spec fn tree_is_checked(t: SubcommandView) -> bool
    decreases t,
{
    &&& options_are_checked(t.options)
    &&& args_are_checked(t.args)
    &&& forall|i: int|
        0 <= i < t.subcommands.len() ==> tree_is_checked(#[trigger] t.subcommands[i])
}

/// Whether every generator of a spec can run, and every listed value be shown,
/// at every depth.
pub open spec fn spec_is_checked(s: CompletionSpecView) -> bool {
    &&& options_are_checked(s.options)
    &&& args_are_checked(s.args)
    &&& forall|i: int|
        0 <= i < s.subcommands.len() ==> tree_is_checked(#[trigger] s.subcommands[i])
}

proof fn lemma_arg(a: ArgView)
    ensures
        arg_is_checked(validate::checked_arg(a)),
        arg_is_checked(a) ==> validate::checked_arg(a) == a,
{
    validate::law_checked_arg(a);
    if arg_is_checked(a) {
        validate::lemma_filter_all(a.generators, |g: GeneratorView| validate::runnable(g));
        validate::lemma_filter_all(a.suggestions, |e: EntryView| validate::presentable(e));
    }
}

proof fn lemma_args(v: Seq<ArgView>)
    ensures
        args_are_checked(validate::checked_args(v)),
        args_are_checked(v) ==> validate::checked_args(v) == v,
{
    let r = validate::checked_args(v);
    assert forall|i: int| 0 <= i < r.len() implies arg_is_checked(#[trigger] r[i]) by {
        lemma_arg(v[i]);
    }
    if args_are_checked(v) {
        assert forall|i: int| 0 <= i < v.len() implies r[i] == v[i] by {
            lemma_arg(v[i]);
        }
        assert(r =~= v);
    }
}

proof fn lemma_options(v: Seq<OptionView>)
    ensures
        options_are_checked(validate::checked_options(v)),
        options_are_checked(v) ==> validate::checked_options(v) == v,
{
    let r = validate::checked_options(v);
    assert forall|i: int| 0 <= i < v.len() implies option_is_checked(#[trigger] r[i]) && (
    option_is_checked(v[i]) ==> r[i] == v[i]) by {
        if let Some(a) = v[i].args {
            lemma_arg(a);
        }
        lemma_args(v[i].extra_args);
    }
    if options_are_checked(v) {
        assert forall|i: int| 0 <= i < v.len() implies r[i] == v[i] by {
            assert(option_is_checked(v[i]));
        }
        assert(r =~= v);
    }
}

proof fn lemma_tree(t: SubcommandView)
    ensures
        tree_is_checked(tree::map_tree(|n: SubcommandView| validate::checked_node(n), t)),
        tree_is_checked(t) ==> tree::map_tree(|n: SubcommandView| validate::checked_node(n), t)
            == t,
    decreases t,
{
    let f = |n: SubcommandView| validate::checked_node(n);
    let r = tree::map_tree(f, t);
    lemma_options(t.options);
    lemma_args(t.args);
    assert(r.subcommands.len() == t.subcommands.len());
    assert forall|i: int| 0 <= i < r.subcommands.len() implies tree_is_checked(
        #[trigger] r.subcommands[i],
    ) by {
        lemma_tree(t.subcommands[i]);
    }
    if tree_is_checked(t) {
        assert forall|i: int| 0 <= i < t.subcommands.len() implies r.subcommands[i]
            == t.subcommands[i] by {
            lemma_tree(t.subcommands[i]);
            assert(tree_is_checked(t.subcommands[i]));
        }
        assert(r.subcommands =~= t.subcommands);
        assert(r =~= t);
    }
}

proof fn lemma_spec(s: CompletionSpecView)
    ensures
        spec_is_checked(validate::checked_spec(s)),
        spec_is_checked(s) ==> validate::checked_spec(s) == s,
{
    let r = validate::checked_spec(s);
    lemma_options(s.options);
    lemma_args(s.args);
    assert forall|i: int| 0 <= i < r.subcommands.len() implies tree_is_checked(
        #[trigger] r.subcommands[i],
    ) by {
        lemma_tree(s.subcommands[i]);
    }
    if spec_is_checked(s) {
        assert forall|i: int| 0 <= i < s.subcommands.len() implies r.subcommands[i]
            == s.subcommands[i] by {
            lemma_tree(s.subcommands[i]);
            assert(tree_is_checked(s.subcommands[i]));
        }
        assert(r.subcommands =~= s.subcommands);
        assert(r =~= s);
    }
}

/// Every generator of a checked spec can run and every listed value can be
/// shown, at any depth; a spec of which this holds is left as it is; and
/// checking twice is checking once.
pub proof fn law_checked_spec(s: CompletionSpecView)
    ensures
        spec_is_checked(validate::checked_spec(s)),
        spec_is_checked(s) ==> validate::checked_spec(s) == s,
        validate::checked_spec(validate::checked_spec(s)) == validate::checked_spec(s),
{
    lemma_spec(s);
    lemma_spec(validate::checked_spec(s));
}

// ---------------------------------------------------------------------------
// What is reported again
// ---------------------------------------------------------------------------
/// Whether `at` picks the items of `a` out of `b`, in order.
pub open spec fn picked(a: Seq<Seq<char>>, b: Seq<Seq<char>>, at: Seq<int>) -> bool {
    &&& at.len() == a.len()
    &&& forall|i: int| 0 <= i < at.len() ==> 0 <= #[trigger] at[i] < b.len() && a[i] == b[at[i]]
    &&& forall|i: int, j: int| 0 <= i < j < at.len() ==> #[trigger] at[i] < #[trigger] at[j]
}

/// Whether `a` is `b` with some lines left out.
pub open spec fn is_subsequence(a: Seq<Seq<char>>, b: Seq<Seq<char>>) -> bool {
    exists|at: Seq<int>| #[trigger] picked(a, b, at)
}

/// Whether a line reports a `type` that means nothing.
pub open spec fn is_type_warning(line: Seq<char>, name: Seq<char>) -> bool {
    exists|kind: Seq<char>|
        !validate::known_type(kind) && line == #[trigger] validate::type_warning(name, kind)
}

/// Whether `a` is what is left of the report `b` when nothing but unknown
/// types remains to be said.
pub open spec fn only_types_left(
    a: Seq<Seq<char>>,
    b: Seq<Seq<char>>,
    name: Seq<char>,
) -> bool {
    &&& is_subsequence(a, b)
    &&& forall|i: int| 0 <= i < a.len() ==> is_type_warning(#[trigger] a[i], name)
}

proof fn lemma_none_left(b: Seq<Seq<char>>, name: Seq<char>)
    ensures
        only_types_left(Seq::empty(), b, name),
{
    assert(picked(Seq::empty(), b, Seq::empty()));
}

proof fn lemma_all_left(a: Seq<Seq<char>>, name: Seq<char>)
    requires
        forall|i: int| 0 <= i < a.len() ==> is_type_warning(#[trigger] a[i], name),
    ensures
        only_types_left(a, a, name),
{
    assert(picked(a, a, Seq::new(a.len(), |i: int| i)));
}

proof fn lemma_left(
    a: Seq<Seq<char>>,
    b: Seq<Seq<char>>,
    c: Seq<Seq<char>>,
    d: Seq<Seq<char>>,
    name: Seq<char>,
)
    requires
        only_types_left(a, b, name),
        only_types_left(c, d, name),
    ensures
        only_types_left(a + c, b + d, name),
{
    let p = choose|at: Seq<int>| #[trigger] picked(a, b, at);
    let q = choose|at: Seq<int>| #[trigger] picked(c, d, at);
    let at = p + q.map_values(|i: int| b.len() + i);
    assert forall|i: int| 0 <= i < at.len() implies 0 <= #[trigger] at[i] < (b + d).len() && (a
        + c)[i] == (b + d)[at[i]] by {
        if i < p.len() {
            assert(at[i] == p[i]);
        } else {
            assert(at[i] == b.len() + q[i - p.len()]);
        }
    }
    assert forall|i: int, j: int| 0 <= i < j < at.len() implies #[trigger] at[i]
        < #[trigger] at[j] by {
        if j < p.len() {
            assert(p[i] < p[j]);
        } else if i < p.len() {
            assert(at[i] == p[i]);
            assert(at[j] == b.len() + q[j - p.len()]);
        } else {
            assert(q[i - p.len()] < q[j - p.len()]);
        }
    }
    assert(picked(a + c, b + d, at));
    assert forall|i: int| 0 <= i < (a + c).len() implies is_type_warning(
        #[trigger] (a + c)[i],
        name,
    ) by {
        if i < a.len() {
            assert(is_type_warning(a[i], name));
        } else {
            assert(is_type_warning(c[i - a.len()], name));
        }
    }
}

proof fn lemma_no_pipeline_warnings(gs: Seq<GeneratorView>, name: Seq<char>)
    requires
        forall|i: int| 0 <= i < gs.len() ==> validate::runnable(#[trigger] gs[i]),
    ensures
        validate::pipeline_warnings(gs, name) == Seq::<Seq<char>>::empty(),
    decreases gs.len(),
{
    if gs.len() > 0 {
        assert(validate::runnable(gs[gs.len() - 1]));
        assert forall|i: int| 0 <= i < gs.drop_last().len() implies validate::runnable(
            #[trigger] gs.drop_last()[i],
        ) by {
            assert(gs.drop_last()[i] == gs[i]);
        }
        lemma_no_pipeline_warnings(gs.drop_last(), name);
    }
}

proof fn lemma_no_nameless_warnings(es: Seq<EntryView>, name: Seq<char>)
    requires
        forall|i: int| 0 <= i < es.len() ==> validate::presentable(#[trigger] es[i]),
    ensures
        validate::nameless_warnings(es, name) == Seq::<Seq<char>>::empty(),
    decreases es.len(),
{
    if es.len() > 0 {
        assert(validate::presentable(es[es.len() - 1]));
        assert forall|i: int| 0 <= i < es.drop_last().len() implies validate::presentable(
            #[trigger] es.drop_last()[i],
        ) by {
            assert(es.drop_last()[i] == es[i]);
        }
        lemma_no_nameless_warnings(es.drop_last(), name);
    }
}

proof fn lemma_type_warnings(es: Seq<EntryView>, name: Seq<char>)
    ensures
        forall|i: int|
            0 <= i < validate::type_warnings(es, name).len() ==> is_type_warning(
                #[trigger] validate::type_warnings(es, name)[i],
                name,
            ),
    decreases es.len(),
{
    if es.len() > 0 {
        lemma_type_warnings(es.drop_last(), name);
        let rest = validate::type_warnings(es.drop_last(), name);
        let r = validate::type_warnings(es, name);
        assert forall|i: int| 0 <= i < r.len() implies is_type_warning(#[trigger] r[i], name) by {
            if i < rest.len() {
                assert(r[i] == rest[i]);
            } else if let EntryView::Object(o) = es.last() {
                if let Some(k) = o.kind {
                    assert(r[i] == validate::type_warning(name, k));
                }
            }
        }
    }
}

proof fn lemma_arg_left(a: ArgView, name: Seq<char>)
    ensures
        only_types_left(
            validate::arg_warnings(validate::checked_arg(a), name),
            validate::arg_warnings(a, name),
            name,
        ),
{
    let c = validate::checked_arg(a);
    lemma_arg(a);
    lemma_arg(c);
    lemma_no_pipeline_warnings(c.generators, name);
    lemma_no_nameless_warnings(c.suggestions, name);
    let types = validate::type_warnings(c.suggestions, name);
    lemma_type_warnings(c.suggestions, name);
    lemma_all_left(types, name);
    let front = validate::pipeline_warnings(a.generators, name) + validate::nameless_warnings(
        a.suggestions,
        name,
    );
    lemma_none_left(front, name);
    lemma_left(Seq::empty(), front, types, types, name);
    assert(validate::arg_warnings(c, name) =~= Seq::<Seq<char>>::empty() + types);
    assert(validate::arg_warnings(a, name) =~= front + types);
}

proof fn lemma_args_left(v: Seq<ArgView>, name: Seq<char>)
    ensures
        only_types_left(
            validate::args_warnings(validate::checked_args(v), name),
            validate::args_warnings(v, name),
            name,
        ),
    decreases v.len(),
{
    let c = validate::checked_args(v);
    if v.len() == 0 {
        lemma_none_left(Seq::empty(), name);
    } else {
        lemma_args_left(v.drop_last(), name);
        lemma_arg_left(v.last(), name);
        assert(c.drop_last() =~= validate::checked_args(v.drop_last()));
        assert(c.last() == validate::checked_arg(v.last()));
        lemma_left(
            validate::args_warnings(c.drop_last(), name),
            validate::args_warnings(v.drop_last(), name),
            validate::arg_warnings(c.last(), name),
            validate::arg_warnings(v.last(), name),
            name,
        );
    }
}

proof fn lemma_option_left(o: OptionView, name: Seq<char>)
    ensures
        only_types_left(
            validate::option_warnings(validate::checked_option(o), name),
            validate::option_warnings(o, name),
            name,
        ),
{
    let c = validate::checked_option(o);
    lemma_args_left(o.extra_args, name);
    match o.args {
        Some(a) => {
            lemma_arg_left(a, name);
            lemma_left(
                validate::arg_warnings(validate::checked_arg(a), name),
                validate::arg_warnings(a, name),
                validate::args_warnings(c.extra_args, name),
                validate::args_warnings(o.extra_args, name),
                name,
            );
        },
        None => {
            lemma_none_left(Seq::empty(), name);
            lemma_left(
                Seq::empty(),
                Seq::empty(),
                validate::args_warnings(c.extra_args, name),
                validate::args_warnings(o.extra_args, name),
                name,
            );
        },
    }
}

proof fn lemma_options_left(v: Seq<OptionView>, name: Seq<char>)
    ensures
        only_types_left(
            validate::options_warnings(validate::checked_options(v), name),
            validate::options_warnings(v, name),
            name,
        ),
    decreases v.len(),
{
    let c = validate::checked_options(v);
    if v.len() == 0 {
        lemma_none_left(Seq::empty(), name);
    } else {
        lemma_options_left(v.drop_last(), name);
        lemma_option_left(v.last(), name);
        assert(c.drop_last() =~= validate::checked_options(v.drop_last()));
        assert(c.last() == validate::checked_option(v.last()));
        lemma_left(
            validate::options_warnings(c.drop_last(), name),
            validate::options_warnings(v.drop_last(), name),
            validate::option_warnings(c.last(), name),
            validate::option_warnings(v.last(), name),
            name,
        );
    }
}

proof fn lemma_forest_left(ts: Seq<SubcommandView>, name: Seq<char>)
    ensures
        only_types_left(
            validate::forest_warnings(
                tree::map_forest(|n: SubcommandView| validate::checked_node(n), ts),
                name,
            ),
            validate::forest_warnings(ts, name),
            name,
        ),
    decreases ts,
{
    let f = |n: SubcommandView| validate::checked_node(n);
    let cs = tree::map_forest(f, ts);
    if ts.len() == 0 {
        lemma_none_left(Seq::empty(), name);
    } else {
        let t = ts[ts.len() - 1];
        let c = cs[cs.len() - 1];
        assert(c == tree::map_tree(f, t));
        assert(c.subcommands =~= tree::map_forest(f, t.subcommands));
        assert(cs.drop_last() =~= tree::map_forest(f, ts.drop_last()));
        lemma_args_left(t.args, name);
        lemma_options_left(t.options, name);
        lemma_left(
            validate::args_warnings(c.args, name),
            validate::args_warnings(t.args, name),
            validate::options_warnings(c.options, name),
            validate::options_warnings(t.options, name),
            name,
        );
        lemma_forest_left(t.subcommands, name);
        lemma_left(
            validate::node_warnings(c, name),
            validate::node_warnings(t, name),
            validate::forest_warnings(c.subcommands, name),
            validate::forest_warnings(t.subcommands, name),
            name,
        );
        lemma_forest_left(ts.drop_last(), name);
        lemma_left(
            validate::node_warnings(c, name) + validate::forest_warnings(c.subcommands, name),
            validate::node_warnings(t, name) + validate::forest_warnings(t.subcommands, name),
            validate::forest_warnings(cs.drop_last(), name),
            validate::forest_warnings(ts.drop_last(), name),
            name,
        );
    }
}

/// Checking a spec once more reports nothing new: its lines are among those
/// of the first time, in the same order, and all of them are about unknown
/// types.
pub proof fn law_second_report(s: CompletionSpecView)
    ensures
        only_types_left(
            validate::spec_warnings(validate::checked_spec(s)),
            validate::spec_warnings(s),
            s.name,
        ),
{
    let c = validate::checked_spec(s);
    lemma_args_left(s.args, s.name);
    lemma_options_left(s.options, s.name);
    lemma_forest_left(s.subcommands, s.name);
    lemma_left(
        validate::args_warnings(c.args, s.name),
        validate::args_warnings(s.args, s.name),
        validate::options_warnings(c.options, s.name),
        validate::options_warnings(s.options, s.name),
        s.name,
    );
    lemma_left(
        validate::args_warnings(c.args, s.name) + validate::options_warnings(c.options, s.name),
        validate::args_warnings(s.args, s.name) + validate::options_warnings(s.options, s.name),
        validate::forest_warnings(c.subcommands, s.name),
        validate::forest_warnings(s.subcommands, s.name),
        s.name,
    );
}

} // verus!
