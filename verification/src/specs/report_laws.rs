//! What a check of a spec keeps, takes out and reports.
use crate::specs::model::{
    ArgView, CompletionSpecView, EntryView, GeneratorView, ObjectView, OptionView, SubcommandView,
};
use crate::specs::validate;
use crate::text;
use vstd::prelude::*;
use vstd::string::*;

verus! {

// ---------------------------------------------------------------------------
// Generators
// ---------------------------------------------------------------------------
proof fn lemma_filter_apart<T>(a: Seq<T>, x: T, b: Seq<T>, p: spec_fn(T) -> bool)
    ensures
        (a + seq![x] + b).filter(p) == a.filter(p) + (if p(x) {
            seq![x]
        } else {
            Seq::empty()
        }) + b.filter(p),
    decreases b.len(),
{
    reveal(Seq::filter);
    let all = a + seq![x] + b;
    if b.len() == 0 {
        assert(all =~= a.push(x));
        assert(all.drop_last() =~= a);
        assert(all.filter(p) =~= a.filter(p) + (if p(x) {
            seq![x]
        } else {
            Seq::empty()
        }) + b.filter(p));
    } else {
        lemma_filter_apart(a, x, b.drop_last(), p);
        assert(all.drop_last() =~= a + seq![x] + b.drop_last());
        assert(all.last() == b.last());
        assert(all.filter(p) =~= a.filter(p) + (if p(x) {
            seq![x]
        } else {
            Seq::empty()
        }) + b.filter(p));
    }
}

proof fn lemma_pipeline_apart(a: Seq<GeneratorView>, g: GeneratorView, b: Seq<GeneratorView>, name: Seq<char>)
    ensures
        validate::pipeline_warnings(a + seq![g] + b, name) == validate::pipeline_warnings(a, name)
            + (if validate::runnable(g) {
            Seq::empty()
        } else {
            seq![validate::pipeline_warning(name, g.pipeline_error->Some_0)]
        }) + validate::pipeline_warnings(b, name),
    decreases b.len(),
{
    let all = a + seq![g] + b;
    let one = if validate::runnable(g) {
        Seq::empty()
    } else {
        seq![validate::pipeline_warning(name, g.pipeline_error->Some_0)]
    };
    if b.len() == 0 {
        assert(all =~= a.push(g));
        assert(all.drop_last() =~= a);
    } else {
        lemma_pipeline_apart(a, g, b.drop_last(), name);
        assert(all.drop_last() =~= a + seq![g] + b.drop_last());
        assert(all.last() == b.last());
    }
    assert(validate::pipeline_warnings(all, name) =~= validate::pipeline_warnings(a, name) + one
        + validate::pipeline_warnings(b, name));
}

/// A generator without transforms, or with transforms that the runner takes,
/// stays where it is and is not reported. One with transforms that the runner
/// refuses goes, and is reported with the reason.
pub proof fn law_generator_checked(
    arg: ArgView,
    a: Seq<GeneratorView>,
    g: GeneratorView,
    b: Seq<GeneratorView>,
    name: Seq<char>,
)
    requires
        arg.generators == a + seq![g] + b,
    ensures
        g.transforms.len() == 0 || g.pipeline_error is None ==> validate::checked_arg(
            arg,
        ).generators == validate::checked_arg((ArgView { generators: a, ..arg })).generators + seq![
            g,
        ] + validate::checked_arg((ArgView { generators: b, ..arg })).generators
            && validate::pipeline_warnings(arg.generators, name) == validate::pipeline_warnings(
            a,
            name,
        ) + validate::pipeline_warnings(b, name),
        g.transforms.len() > 0 ==> (g.pipeline_error matches Some(e) ==> validate::checked_arg(
            arg,
        ).generators == validate::checked_arg((ArgView { generators: a, ..arg })).generators
            + validate::checked_arg((ArgView { generators: b, ..arg })).generators
            && validate::pipeline_warnings(arg.generators, name) == validate::pipeline_warnings(
            a,
            name,
        ) + seq!["generator in "@ + name + " has invalid transform pipeline: "@ + e]
            + validate::pipeline_warnings(b, name)),
{
    let p = |g: GeneratorView| validate::runnable(g);
    lemma_filter_apart(a, g, b, p);
    lemma_pipeline_apart(a, g, b, name);
    if validate::runnable(g) {
        assert(validate::pipeline_warnings(a, name) + Seq::<Seq<char>>::empty()
            =~= validate::pipeline_warnings(a, name));
    } else {
        assert(a.filter(p) + Seq::<GeneratorView>::empty() =~= a.filter(p));
    }
}

// ---------------------------------------------------------------------------
// Listed values
// ---------------------------------------------------------------------------
/// A bare text can be shown unless it is blank. An object can be shown unless
/// it is hidden, has no name or has a blank one.
pub proof fn law_presentable(s: Seq<char>, o: ObjectView)
    ensures
        validate::presentable(EntryView::Plain(s)) <==> !text::is_blank(s),
        validate::presentable(EntryView::Object(o)) <==> !o.hidden && o.name.len() > 0 && forall|
            j: int,
        |
            0 <= j < o.name.len() ==> !text::is_blank(#[trigger] o.name[j]),
        validate::nameless(EntryView::Plain(s)) <==> text::is_blank(s),
        validate::nameless(EntryView::Object(o)) <==> o.name.len() == 0 || exists|j: int|
            0 <= j < o.name.len() && text::is_blank(#[trigger] o.name[j]),
{
}

proof fn lemma_nameless_apart(a: Seq<EntryView>, e: EntryView, b: Seq<EntryView>, name: Seq<char>)
    ensures
        validate::nameless_warnings(a + seq![e] + b, name) == validate::nameless_warnings(a, name)
            + (if validate::nameless(e) {
            seq![validate::nameless_warning(name)]
        } else {
            Seq::empty()
        }) + validate::nameless_warnings(b, name),
    decreases b.len(),
{
    let all = a + seq![e] + b;
    if b.len() == 0 {
        assert(all =~= a.push(e));
        assert(all.drop_last() =~= a);
    } else {
        lemma_nameless_apart(a, e, b.drop_last(), name);
        assert(all.drop_last() =~= a + seq![e] + b.drop_last());
        assert(all.last() == b.last());
    }
    assert(validate::nameless_warnings(all, name) =~= validate::nameless_warnings(a, name) + (
    if validate::nameless(e) {
        seq![validate::nameless_warning(name)]
    } else {
        Seq::empty()
    }) + validate::nameless_warnings(b, name));
}

/// A value that can be shown stays where it is; one that cannot goes. One
/// without a usable name is reported, a hidden one with names is not.
pub proof fn law_value_checked(
    arg: ArgView,
    a: Seq<EntryView>,
    e: EntryView,
    b: Seq<EntryView>,
    name: Seq<char>,
)
    requires
        arg.suggestions == a + seq![e] + b,
    ensures
        validate::presentable(e) ==> validate::checked_arg(arg).suggestions
            == validate::checked_arg((ArgView { suggestions: a, ..arg })).suggestions + seq![e]
            + validate::checked_arg((ArgView { suggestions: b, ..arg })).suggestions,
        !validate::presentable(e) ==> validate::checked_arg(arg).suggestions
            == validate::checked_arg((ArgView { suggestions: a, ..arg })).suggestions
            + validate::checked_arg((ArgView { suggestions: b, ..arg })).suggestions,
        validate::nameless(e) ==> validate::nameless_warnings(arg.suggestions, name)
            == validate::nameless_warnings(a, name) + seq![
            "suggestion in "@ + name + " has empty name; dropping"@,
        ] + validate::nameless_warnings(b, name),
        !validate::nameless(e) ==> validate::nameless_warnings(arg.suggestions, name)
            == validate::nameless_warnings(a, name) + validate::nameless_warnings(b, name),
{
    let p = |e: EntryView| validate::presentable(e);
    lemma_filter_apart(a, e, b, p);
    lemma_nameless_apart(a, e, b, name);
    if !validate::presentable(e) {
        assert(a.filter(p) + Seq::<EntryView>::empty() =~= a.filter(p));
    }
    if !validate::nameless(e) {
        assert(validate::nameless_warnings(a, name) + Seq::<Seq<char>>::empty()
            =~= validate::nameless_warnings(a, name));
    }
}

proof fn lemma_types_apart(a: Seq<EntryView>, b: Seq<EntryView>, name: Seq<char>)
    ensures
        validate::type_warnings(a + b, name) == validate::type_warnings(a, name)
            + validate::type_warnings(b, name),
    decreases b.len(),
{
    let all = a + b;
    if b.len() == 0 {
        assert(all =~= a);
        assert(validate::type_warnings(a, name) + validate::type_warnings(b, name)
            =~= validate::type_warnings(a, name));
    } else {
        lemma_types_apart(a, b.drop_last(), name);
        assert(all.drop_last() =~= a + b.drop_last());
        assert(all.last() == b.last());
        assert(validate::type_warnings(all, name) =~= validate::type_warnings(a, name)
            + validate::type_warnings(b, name));
    }
}

/// A value is reported for its `type` exactly if it has one that means
/// nothing; values are reported one by one, in order.
pub proof fn law_type_reported(
    a: Seq<EntryView>,
    o: ObjectView,
    s: Seq<char>,
    b: Seq<EntryView>,
    name: Seq<char>,
)
    ensures
        validate::type_warnings(a + seq![EntryView::Object(o)] + b, name)
            == validate::type_warnings(a, name) + (match o.kind {
            Some(k) => if k == "subcommand"@ || k == "option"@ || k == "file"@ || k == "folder"@
                || k == "arg"@ || k == "special"@ || k == "shortcut"@ || k == "mixin"@ || k
                == "auto-execute"@ {
                Seq::empty()
            } else {
                seq![
                    "suggestion in "@ + name + " has unknown `type` \""@ + k
                        + "\"; falling back to EnumValue"@,
                ]
            },
            None => Seq::empty(),
        }) + validate::type_warnings(b, name),
        validate::type_warnings(a + seq![EntryView::Plain(s)] + b, name)
            == validate::type_warnings(a, name) + validate::type_warnings(b, name),
{
    let e = EntryView::Object(o);
    let f = EntryView::Plain(s);
    lemma_types_apart(a + seq![e], b, name);
    lemma_types_apart(a, seq![e], name);
    lemma_types_apart(a + seq![f], b, name);
    lemma_types_apart(a, seq![f], name);
    assert(seq![e].drop_last() =~= Seq::empty());
    assert(seq![f].drop_last() =~= Seq::empty());
    assert(validate::type_warnings(seq![e].drop_last(), name) =~= Seq::empty());
    assert(validate::type_warnings(seq![f], name) =~= Seq::empty());
    assert(validate::type_warnings(a, name) + Seq::<Seq<char>>::empty() =~= validate::type_warnings(
        a,
        name,
    ));
    if let Some(k) = o.kind {
        if !validate::known_type(k) {
            assert(Seq::<Seq<char>>::empty().push(validate::type_warning(name, k)) =~= seq![
                validate::type_warning(name, k),
            ]);
        }
    }
}

/// Checking an argument changes nothing but its generators and listed values.
pub proof fn law_argument_keeps(a: ArgView)
    ensures
        validate::checked_arg(a).name == a.name,
        validate::checked_arg(a).description == a.description,
        validate::checked_arg(a).template == a.template,
        validate::checked_arg(a).is_optional == a.is_optional,
        validate::checked_arg(a).is_variadic == a.is_variadic,
{
}

/// Of an argument the refused generators are reported first, then the values
/// without a usable name, then the unknown types of the values that stay.
pub proof fn law_argument_report(a: ArgView, name: Seq<char>)
    ensures
        a.suggestions.len() == 0 ==> validate::arg_warnings(a, name) == validate::pipeline_warnings(
            a.generators,
            name,
        ),
        a.generators.len() == 0 ==> validate::arg_warnings(a, name) == validate::nameless_warnings(
            a.suggestions,
            name,
        ) + validate::type_warnings(validate::checked_arg(a).suggestions, name),
        validate::pipeline_warnings(a.generators, name).is_prefix_of(
            validate::arg_warnings(a, name),
        ),
{
    reveal(Seq::filter);
    let p = |e: EntryView| validate::presentable(e);
    if a.suggestions.len() == 0 {
        assert(a.suggestions =~= Seq::empty());
        assert(a.suggestions.filter(p) =~= Seq::empty());
        assert(validate::arg_warnings(a, name) =~= validate::pipeline_warnings(a.generators, name));
    }
    if a.generators.len() == 0 {
        assert(validate::arg_warnings(a, name) =~= validate::nameless_warnings(a.suggestions, name)
            + validate::type_warnings(validate::checked_arg(a).suggestions, name));
    }
    assert(validate::pipeline_warnings(a.generators, name) =~= validate::arg_warnings(
        a,
        name,
    ).subrange(0, validate::pipeline_warnings(a.generators, name).len() as int));
}

// ---------------------------------------------------------------------------
// The whole spec
// ---------------------------------------------------------------------------
/// Every argument of an option is checked, the first as well as the others,
/// and nothing else of the option changes.
pub proof fn law_option_checked(o: OptionView, i: int, name: Seq<char>)
    ensures
        validate::checked_option(o).name == o.name,
        validate::checked_option(o).description == o.description,
        validate::checked_option(o).priority == o.priority,
        o.args matches Some(a) ==> validate::checked_option(o).args == Some(
            validate::checked_arg(a),
        ),
        o.args is None ==> validate::checked_option(o).args is None,
        validate::checked_option(o).extra_args.len() == o.extra_args.len(),
        0 <= i < o.extra_args.len() ==> validate::checked_option(o).extra_args[i]
            == validate::checked_arg(o.extra_args[i]),
        o.args is None ==> validate::option_warnings(o, name) == validate::args_warnings(
            o.extra_args,
            name,
        ),
        o.extra_args.len() == 0 ==> (o.args matches Some(a) ==> validate::option_warnings(o, name)
            == validate::arg_warnings(a, name)),
{
    if o.args is None {
        assert(validate::option_warnings(o, name) =~= validate::args_warnings(o.extra_args, name));
    }
    if o.extra_args.len() == 0 {
        if let Some(a) = o.args {
            assert(validate::option_warnings(o, name) =~= validate::arg_warnings(a, name));
        }
    }
}

/// Every argument, option and subcommand of a spec is still there after the
/// check, in its place and checked.
pub proof fn law_spec_keeps(s: CompletionSpecView, i: int)
    ensures
        validate::checked_spec(s).name == s.name,
        validate::checked_spec(s).description == s.description,
        validate::checked_spec(s).args.len() == s.args.len(),
        0 <= i < s.args.len() ==> validate::checked_spec(s).args[i] == validate::checked_arg(
            s.args[i],
        ),
        validate::checked_spec(s).options.len() == s.options.len(),
        0 <= i < s.options.len() ==> validate::checked_spec(s).options[i]
            == validate::checked_option(s.options[i]),
{
}

proof fn lemma_args_apart(a: Seq<ArgView>, b: Seq<ArgView>, name: Seq<char>)
    ensures
        validate::args_warnings(a + b, name) == validate::args_warnings(a, name)
            + validate::args_warnings(b, name),
    decreases b.len(),
{
    if b.len() == 0 {
        assert(a + b =~= a);
        assert(validate::args_warnings(a, name) + validate::args_warnings(b, name)
            =~= validate::args_warnings(a, name));
    } else {
        lemma_args_apart(a, b.drop_last(), name);
        assert((a + b).drop_last() =~= a + b.drop_last());
        assert((a + b).last() == b.last());
        assert(validate::args_warnings(a + b, name) =~= validate::args_warnings(a, name)
            + validate::args_warnings(b, name));
    }
}

proof fn lemma_options_apart(a: Seq<OptionView>, b: Seq<OptionView>, name: Seq<char>)
    ensures
        validate::options_warnings(a + b, name) == validate::options_warnings(a, name)
            + validate::options_warnings(b, name),
    decreases b.len(),
{
    if b.len() == 0 {
        assert(a + b =~= a);
        assert(validate::options_warnings(a, name) + validate::options_warnings(b, name)
            =~= validate::options_warnings(a, name));
    } else {
        lemma_options_apart(a, b.drop_last(), name);
        assert((a + b).drop_last() =~= a + b.drop_last());
        assert((a + b).last() == b.last());
        assert(validate::options_warnings(a + b, name) =~= validate::options_warnings(a, name)
            + validate::options_warnings(b, name));
    }
}

/// Arguments and options are reported one by one, in order, and arguments
/// before options, both at the top of a spec and in a subcommand.
pub proof fn law_reported_in_order(
    s: CompletionSpecView,
    t: SubcommandView,
    a: ArgView,
    v: Seq<ArgView>,
    o: OptionView,
    w: Seq<OptionView>,
    name: Seq<char>,
)
    ensures
        validate::args_warnings(seq![a] + v, name) == validate::arg_warnings(a, name)
            + validate::args_warnings(v, name),
        validate::options_warnings(seq![o] + w, name) == validate::option_warnings(o, name)
            + validate::options_warnings(w, name),
        s.subcommands.len() == 0 ==> validate::spec_warnings(s) == validate::args_warnings(
            s.args,
            s.name,
        ) + validate::options_warnings(s.options, s.name),
        validate::node_warnings(t, name) == validate::args_warnings(t.args, name)
            + validate::options_warnings(t.options, name),
{
    lemma_args_apart(seq![a], v, name);
    lemma_options_apart(seq![o], w, name);
    assert(seq![a].drop_last() =~= Seq::empty());
    assert(validate::args_warnings(seq![a].drop_last(), name) =~= Seq::empty());
    assert(validate::args_warnings(seq![a], name) =~= validate::arg_warnings(a, name));
    assert(seq![o].drop_last() =~= Seq::empty());
    assert(validate::options_warnings(seq![o].drop_last(), name) =~= Seq::empty());
    assert(validate::options_warnings(seq![o], name) =~= validate::option_warnings(o, name));
    if s.subcommands.len() == 0 {
        assert(validate::spec_warnings(s) =~= validate::args_warnings(s.args, s.name)
            + validate::options_warnings(s.options, s.name));
    }
}

/// Every line about a subcommand, at whatever depth, is in the report of the
/// spec.
pub proof fn law_every_subcommand_is_reported(
    a: Seq<SubcommandView>,
    t: SubcommandView,
    b: Seq<SubcommandView>,
    name: Seq<char>,
)
    ensures
        validate::forest_warnings(a + seq![t] + b, name) == validate::forest_warnings(b, name)
            + validate::node_warnings(t, name) + validate::forest_warnings(t.subcommands, name)
            + validate::forest_warnings(a, name),
    decreases b.len(),
{
    let all = a + seq![t] + b;
    let n = all.len();
    if b.len() == 0 {
        assert(all =~= a.push(t));
        assert(all[n - 1] == t);
        assert(all.drop_last() =~= a);
    } else {
        law_every_subcommand_is_reported(a, t, b.drop_last(), name);
        assert(all.drop_last() =~= a + seq![t] + b.drop_last());
        assert(all[n - 1] == b[b.len() - 1]);
    }
    assert(validate::forest_warnings(all, name) =~= validate::forest_warnings(b, name)
        + validate::node_warnings(t, name) + validate::forest_warnings(t.subcommands, name)
        + validate::forest_warnings(a, name));
}

/// What is said about a spec is what is said about it without its subcommands,
/// then what is said about them.
pub proof fn law_spec_reported(s: CompletionSpecView)
    ensures
        validate::spec_warnings(s) == validate::spec_warnings(
            (CompletionSpecView { subcommands: Seq::empty(), ..s }),
        ) + validate::forest_warnings(s.subcommands, s.name),
        validate::spec_warnings((CompletionSpecView { options: Seq::empty(), ..s }))
            + validate::spec_warnings(
            (CompletionSpecView { args: Seq::empty(), subcommands: Seq::empty(), ..s }),
        ) == validate::args_warnings(s.args, s.name) + validate::forest_warnings(
            s.subcommands,
            s.name,
        ) + validate::options_warnings(s.options, s.name),
{
    assert(validate::spec_warnings((CompletionSpecView { subcommands: Seq::empty(), ..s }))
        =~= validate::args_warnings(s.args, s.name) + validate::options_warnings(
        s.options,
        s.name,
    ));
    assert(validate::spec_warnings((CompletionSpecView { options: Seq::empty(), ..s }))
        =~= validate::args_warnings(s.args, s.name) + validate::forest_warnings(
        s.subcommands,
        s.name,
    ));
    assert(validate::spec_warnings(
        (CompletionSpecView { args: Seq::empty(), subcommands: Seq::empty(), ..s }),
    ) =~= validate::options_warnings(s.options, s.name));
}

} // verus!
