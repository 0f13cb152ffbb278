//! What cleaning a spec guarantees for the spec as a whole.
use crate::specs::guard;
use crate::specs::model::{
    ArgView, CompletionSpec, CompletionSpecView, EntryView, OptionView, SubcommandView,
};
use crate::specs::parsing;
use crate::specs::tree;
use crate::specs::validate;
use std::sync::Arc;
use vstd::prelude::*;

verus! {

// ---------------------------------------------------------------------------
// Free of control characters
// ---------------------------------------------------------------------------
pub open spec fn opt_is_clean(o: Option<Seq<char>>) -> bool {
    o matches Some(s) ==> !guard::has_control(s)
}

pub open spec fn all_are_clean(v: Seq<Seq<char>>) -> bool {
    forall|i: int| 0 <= i < v.len() ==> !guard::has_control(#[trigger] v[i])
}

pub open spec fn entry_is_clean(e: EntryView) -> bool {
    match e {
        EntryView::Plain(s) => !guard::has_control(s),
        EntryView::Object(o) => all_are_clean(o.name) && opt_is_clean(o.description),
    }
}

pub open spec fn arg_is_clean(a: ArgView) -> bool {
    &&& opt_is_clean(a.name)
    &&& opt_is_clean(a.description)
    &&& forall|i: int| 0 <= i < a.suggestions.len() ==> entry_is_clean(#[trigger] a.suggestions[i])
}

pub open spec fn args_are_clean(v: Seq<ArgView>) -> bool {
    forall|i: int| 0 <= i < v.len() ==> arg_is_clean(#[trigger] v[i])
}

pub open spec fn option_is_clean(o: OptionView) -> bool {
    &&& all_are_clean(o.name)
    &&& opt_is_clean(o.description)
    &&& (o.args matches Some(a) ==> arg_is_clean(a))
    &&& args_are_clean(o.extra_args)
}

pub open spec fn options_are_clean(v: Seq<OptionView>) -> bool {
    forall|i: int| 0 <= i < v.len() ==> option_is_clean(#[trigger] v[i])
}

/// Whether no text of a subcommand, or of one below it, holds a control
/// character.
pub open spec fn tree_is_clean(t: SubcommandView) -> bool
    decreases t,
{
    &&& !guard::has_control(t.name)
    &&& opt_is_clean(t.description)
    &&& options_are_clean(t.options)
    &&& args_are_clean(t.args)
    &&& forall|i: int|
        0 <= i < t.subcommands.len() ==> tree_is_clean(#[trigger] t.subcommands[i])
}

/// Whether no text of a spec that a user may see holds a control character.
pub open spec fn spec_is_clean(s: CompletionSpecView) -> bool {
    &&& !guard::has_control(s.name)
    &&& opt_is_clean(s.description)
    &&& options_are_clean(s.options)
    &&& args_are_clean(s.args)
    &&& forall|i: int|
        0 <= i < s.subcommands.len() ==> tree_is_clean(#[trigger] s.subcommands[i])
}

// ---------------------------------------------------------------------------
// Cleaning leaves none, and a clean text as it is
// ---------------------------------------------------------------------------
proof fn lemma_opt(o: Option<Seq<char>>)
    ensures
        opt_is_clean(guard::clean_opt(o)),
        opt_is_clean(o) ==> guard::clean_opt(o) == o,
{
    if let Some(s) = o {
        guard::law_clean(s);
    }
}

proof fn lemma_all(v: Seq<Seq<char>>)
    ensures
        all_are_clean(guard::clean_all(v)),
        all_are_clean(v) ==> guard::clean_all(v) == v,
{
    let r = guard::clean_all(v);
    assert forall|i: int| 0 <= i < r.len() implies !guard::has_control(#[trigger] r[i]) by {
        guard::law_clean(v[i]);
    }
    if all_are_clean(v) {
        assert forall|i: int| 0 <= i < v.len() implies r[i] == v[i] by {
            guard::law_clean(v[i]);
        }
        assert(r =~= v);
    }
}

proof fn lemma_entry(e: EntryView)
    ensures
        entry_is_clean(guard::clean_entry(e)),
        entry_is_clean(e) ==> guard::clean_entry(e) == e,
{
    match e {
        EntryView::Plain(s) => {
            guard::law_clean(s);
        },
        EntryView::Object(o) => {
            lemma_all(o.name);
            lemma_opt(o.description);
        },
    }
}

proof fn lemma_arg(a: ArgView)
    ensures
        arg_is_clean(guard::clean_arg(a)),
        arg_is_clean(a) ==> guard::clean_arg(a) == a,
{
    lemma_opt(a.name);
    lemma_opt(a.description);
    let r = guard::clean_arg(a);
    assert forall|i: int| 0 <= i < r.suggestions.len() implies entry_is_clean(
        #[trigger] r.suggestions[i],
    ) by {
        lemma_entry(a.suggestions[i]);
    }
    if arg_is_clean(a) {
        assert forall|i: int| 0 <= i < a.suggestions.len() implies r.suggestions[i]
            == a.suggestions[i] by {
            lemma_entry(a.suggestions[i]);
        }
        assert(r.suggestions =~= a.suggestions);
    }
}

proof fn lemma_args(v: Seq<ArgView>)
    ensures
        args_are_clean(guard::clean_args(v)),
        args_are_clean(v) ==> guard::clean_args(v) == v,
{
    let r = guard::clean_args(v);
    assert forall|i: int| 0 <= i < r.len() implies arg_is_clean(#[trigger] r[i]) by {
        lemma_arg(v[i]);
    }
    if args_are_clean(v) {
        assert forall|i: int| 0 <= i < v.len() implies r[i] == v[i] by {
            lemma_arg(v[i]);
        }
        assert(r =~= v);
    }
}

proof fn lemma_option(o: OptionView)
    ensures
        option_is_clean(guard::clean_option(o)),
        option_is_clean(o) ==> guard::clean_option(o) == o,
{
    lemma_all(o.name);
    lemma_opt(o.description);
    if let Some(a) = o.args {
        lemma_arg(a);
    }
    lemma_args(o.extra_args);
}

proof fn lemma_options(v: Seq<OptionView>)
    ensures
        options_are_clean(guard::clean_options(v)),
        options_are_clean(v) ==> guard::clean_options(v) == v,
{
    let r = guard::clean_options(v);
    assert forall|i: int| 0 <= i < r.len() implies option_is_clean(#[trigger] r[i]) by {
        lemma_option(v[i]);
    }
    if options_are_clean(v) {
        assert forall|i: int| 0 <= i < v.len() implies r[i] == v[i] by {
            lemma_option(v[i]);
        }
        assert(r =~= v);
    }
}

proof fn lemma_tree(t: SubcommandView)
    ensures
        tree_is_clean(tree::map_tree(|n: SubcommandView| guard::clean_node(n), t)),
        tree_is_clean(t) ==> tree::map_tree(|n: SubcommandView| guard::clean_node(n), t) == t,
    decreases t,
{
    let f = |n: SubcommandView| guard::clean_node(n);
    let r = tree::map_tree(f, t);
    guard::law_clean(t.name);
    lemma_opt(t.description);
    lemma_options(t.options);
    lemma_args(t.args);
    assert(r.subcommands.len() == t.subcommands.len());
    assert forall|i: int| 0 <= i < r.subcommands.len() implies tree_is_clean(
        #[trigger] r.subcommands[i],
    ) by {
        lemma_tree(t.subcommands[i]);
    }
    if tree_is_clean(t) {
        assert forall|i: int| 0 <= i < t.subcommands.len() implies r.subcommands[i]
            == t.subcommands[i] by {
            lemma_tree(t.subcommands[i]);
            assert(tree_is_clean(t.subcommands[i]));
        }
        assert(r.subcommands =~= t.subcommands);
        assert(r =~= t);
    }
}

/// No text of a cleaned spec holds a control character, at any depth; a spec
/// without any is left as it is; and cleaning twice is cleaning once.
pub proof fn law_clean_spec(s: CompletionSpecView)
    ensures
        spec_is_clean(guard::clean_spec(s)),
        spec_is_clean(s) ==> guard::clean_spec(s) == s,
        guard::clean_spec(guard::clean_spec(s)) == guard::clean_spec(s),
{
    lemma_spec(s);
    lemma_spec(guard::clean_spec(s));
}

proof fn lemma_spec(s: CompletionSpecView)
    ensures
        spec_is_clean(guard::clean_spec(s)),
        spec_is_clean(s) ==> guard::clean_spec(s) == s,
{
    let r = guard::clean_spec(s);
    guard::law_clean(s.name);
    lemma_opt(s.description);
    lemma_options(s.options);
    lemma_args(s.args);
    assert forall|i: int| 0 <= i < r.subcommands.len() implies tree_is_clean(
        #[trigger] r.subcommands[i],
    ) by {
        lemma_tree(s.subcommands[i]);
    }
    if spec_is_clean(s) {
        assert forall|i: int| 0 <= i < s.subcommands.len() implies r.subcommands[i]
            == s.subcommands[i] by {
            lemma_tree(s.subcommands[i]);
            assert(tree_is_clean(s.subcommands[i]));
        }
        assert(r.subcommands =~= s.subcommands);
        assert(r =~= s);
    }
}

// ---------------------------------------------------------------------------
// Validation keeps a spec clean
// ---------------------------------------------------------------------------
proof fn lemma_filter_within<T>(s: Seq<T>, p: spec_fn(T) -> bool)
    ensures
        forall|i: int| 0 <= i < s.filter(p).len() ==> s.contains(#[trigger] s.filter(p)[i]),
    decreases s.len(),
{
    reveal(Seq::filter);
    if s.len() > 0 {
        let d = s.drop_last();
        lemma_filter_within(d, p);
        assert forall|i: int| 0 <= i < s.filter(p).len() implies s.contains(
            #[trigger] s.filter(p)[i],
        ) by {
            if i < d.filter(p).len() {
                assert(s.filter(p)[i] == d.filter(p)[i]);
                let k = choose|k: int| 0 <= k < d.len() && d[k] == d.filter(p)[i];
                assert(s[k] == s.filter(p)[i]);
            } else {
                assert(s[s.len() - 1] == s.filter(p)[i]);
            }
        }
    }
}

proof fn lemma_checked_arg(a: ArgView)
    requires
        arg_is_clean(a),
    ensures
        arg_is_clean(validate::checked_arg(a)),
{
    let p = |e: EntryView| validate::presentable(e);
    lemma_filter_within(a.suggestions, p);
    let r = validate::checked_arg(a);
    assert forall|i: int| 0 <= i < r.suggestions.len() implies entry_is_clean(
        #[trigger] r.suggestions[i],
    ) by {
        assert(a.suggestions.contains(a.suggestions.filter(p)[i]));
        let k = choose|k: int|
            0 <= k < a.suggestions.len() && a.suggestions[k] == r.suggestions[i];
        assert(entry_is_clean(a.suggestions[k]));
    }
}

proof fn lemma_checked_args(v: Seq<ArgView>)
    requires
        args_are_clean(v),
    ensures
        args_are_clean(validate::checked_args(v)),
{
    let r = validate::checked_args(v);
    assert forall|i: int| 0 <= i < r.len() implies arg_is_clean(#[trigger] r[i]) by {
        assert(arg_is_clean(v[i]));
        lemma_checked_arg(v[i]);
    }
}

proof fn lemma_checked_options(v: Seq<OptionView>)
    requires
        options_are_clean(v),
    ensures
        options_are_clean(validate::checked_options(v)),
{
    let r = validate::checked_options(v);
    assert forall|i: int| 0 <= i < r.len() implies option_is_clean(#[trigger] r[i]) by {
        assert(option_is_clean(v[i]));
        if let Some(a) = v[i].args {
            lemma_checked_arg(a);
        }
        lemma_checked_args(v[i].extra_args);
    }
}

proof fn lemma_checked_tree(t: SubcommandView)
    requires
        tree_is_clean(t),
    ensures
        tree_is_clean(tree::map_tree(|n: SubcommandView| validate::checked_node(n), t)),
    decreases t,
{
    let f = |n: SubcommandView| validate::checked_node(n);
    let r = tree::map_tree(f, t);
    lemma_checked_options(t.options);
    lemma_checked_args(t.args);
    assert(r.subcommands.len() == t.subcommands.len());
    assert forall|i: int| 0 <= i < r.subcommands.len() implies tree_is_clean(
        #[trigger] r.subcommands[i],
    ) by {
        assert(tree_is_clean(t.subcommands[i]));
        lemma_checked_tree(t.subcommands[i]);
    }
}

/// Validating a clean spec leaves it clean.
pub proof fn law_validation_keeps_clean(s: CompletionSpecView)
    requires
        spec_is_clean(s),
    ensures
        spec_is_clean(validate::checked_spec(s)),
{
    let r = validate::checked_spec(s);
    lemma_checked_options(s.options);
    lemma_checked_args(s.args);
    assert forall|i: int| 0 <= i < r.subcommands.len() implies tree_is_clean(
        #[trigger] r.subcommands[i],
    ) by {
        assert(tree_is_clean(s.subcommands[i]));
        lemma_checked_tree(s.subcommands[i]);
    }
}

/// No text of a spec that was loaded holds a control character, whatever its
/// file holds.
pub proof fn law_loaded_spec_is_clean<P: FnOnce(&str) -> Result<CompletionSpec, String>>(
    parse: P,
    contents: Seq<char>,
    r: Result<Arc<CompletionSpec>, String>,
)
    requires
        parsing::entry_parse(parse, contents, r),
    ensures
        r matches Ok(t) ==> spec_is_clean((*t)@),
{
    let out = choose|out: Result<CompletionSpec, String>| #[trigger]
        parsing::checked_parse(parse, contents, out) && match out {
            Ok(s) => r matches Ok(t) && (*t)@ == validate::checked_spec(s@),
            Err(e) => r matches Err(m) && m@ == "parse: "@ + e@,
        };
    if let Ok(t) = r {
        let s = out->Ok_0;
        let (c, parsed) = choose|c: &str, parsed: Result<CompletionSpec, String>|
            c@ == contents && #[trigger] call_ensures(parse, (c,), parsed) && match parsed {
                Ok(p) => out matches Ok(q) && q@ == guard::clean_spec(p@),
                Err(e) => out == Err::<CompletionSpec, String>(e),
            };
        law_clean_spec(parsed->Ok_0@);
        law_validation_keeps_clean(s@);
    }
}

} // verus!
