//! Which texts and vectors of a spec count, field by field.
use crate::encoding;
use crate::specs::heap;
use crate::specs::heap::{VecShape, VecUse};
use crate::specs::model::{
    ArgSpec, ArgView, CompletionSpecView, EntryView, GeneratorSpec, GeneratorView, JsRuntimeView,
    ObjectView, OptionSpec, OptionView, SubcommandSpec, SubcommandView, SuggestionEntry, Transform,
    TransformView,
};
use vstd::prelude::*;

verus! {

// ---------------------------------------------------------------------------
// Texts
// ---------------------------------------------------------------------------
/// A text counts by its bytes: each character for one to four, by its range.
pub proof fn law_text_bytes(s: Seq<char>, c: char)
    ensures
        heap::text_len(Seq::empty()) == 0,
        c <= '\u{7f}' ==> heap::text_len(s.push(c)) == heap::text_len(s) + 1,
        '\u{80}' <= c <= '\u{7ff}' ==> heap::text_len(s.push(c)) == heap::text_len(s) + 2,
        '\u{800}' <= c <= '\u{ffff}' ==> heap::text_len(s.push(c)) == heap::text_len(s) + 3,
        c >= '\u{10000}' ==> heap::text_len(s.push(c)) == heap::text_len(s) + 4,
{
    encoding::lemma_push(s, c);
}

/// Every text of a list counts.
pub proof fn law_text_list(v: Seq<Seq<char>>, t: Seq<char>)
    ensures
        heap::texts_len(Seq::empty()) == 0,
        heap::texts_len(v.push(t)) == heap::texts_len(v) + heap::text_len(t),
{
    assert(v.push(t).drop_last() =~= v);
}

/// Of a transform the delimiter, the marks of an error, the suffix and the
/// separator count; patterns and paths do not.
pub proof fn law_transform_texts(a: Seq<char>, b: Seq<char>, n: usize)
    ensures
        heap::transform_len(TransformView::SplitOn { delimiter: a }) == heap::text_len(a),
        heap::transform_len(TransformView::ErrorGuard { starts_with: Some(a), contains: Some(b) })
            == heap::text_len(a) + heap::text_len(b),
        heap::transform_len(TransformView::ErrorGuard { starts_with: Some(a), contains: None })
            == heap::text_len(a),
        heap::transform_len(TransformView::ErrorGuard { starts_with: None, contains: Some(b) })
            == heap::text_len(b),
        heap::transform_len(TransformView::Suffix { value: a }) == heap::text_len(a),
        heap::transform_len(TransformView::JsonExtractArray { path: a, split_on: Some(b) })
            == heap::text_len(b),
        heap::transform_len(TransformView::JsonExtractArray { path: a, split_on: None }) == 0,
        heap::transform_len(TransformView::RegexExtract { pattern: a }) == 0,
        heap::transform_len(TransformView::JsonExtract { path: a }) == 0,
        heap::transform_len(TransformView::Skip { count: n }) == 0,
        heap::transform_len(TransformView::Take { count: n }) == 0,
        heap::transform_len(TransformView::ColumnExtract { column: n }) == 0,
{
}

/// Every text of a generator counts: its type, its script and its template
/// word by word, its JavaScript, its file template and its transforms. What
/// is said about its checks and its release does not.
pub proof fn law_generator_texts(
    g: GeneratorView,
    t: Seq<char>,
    v: Seq<Seq<char>>,
    rt: JsRuntimeView,
    x: TransformView,
)
    ensures
        heap::generator_len((GeneratorView { generator_type: Some(t), ..g })) == heap::generator_len(
            (GeneratorView { generator_type: None, ..g }),
        ) + heap::text_len(t),
        heap::generator_len((GeneratorView { js_source: Some(t), ..g })) == heap::generator_len(
            (GeneratorView { js_source: None, ..g }),
        ) + heap::text_len(t),
        heap::generator_len((GeneratorView { template: Some(t), ..g })) == heap::generator_len(
            (GeneratorView { template: None, ..g }),
        ) + heap::text_len(t),
        heap::generator_len((GeneratorView { js_runtime: Some(rt), ..g })) == heap::generator_len(
            (GeneratorView { js_runtime: None, ..g }),
        ) + heap::text_len(rt.source),
        heap::generator_len((GeneratorView { script: Some(v.push(t)), ..g }))
            == heap::generator_len((GeneratorView { script: Some(v), ..g })) + heap::text_len(t),
        heap::generator_len((GeneratorView { script_template: Some(v.push(t)), ..g }))
            == heap::generator_len((GeneratorView { script_template: Some(v), ..g }))
            + heap::text_len(t),
        heap::generator_len((GeneratorView { script: Some(Seq::empty()), ..g }))
            == heap::generator_len((GeneratorView { script: None, ..g })),
        heap::generator_len((GeneratorView { script_template: Some(Seq::empty()), ..g }))
            == heap::generator_len((GeneratorView { script_template: None, ..g })),
        heap::generator_len((GeneratorView { transforms: g.transforms.push(x), ..g }))
            == heap::generator_len(g) + heap::transform_len(x),
        heap::generator_len((GeneratorView { pipeline_error: Some(t), corrected_in: Some(t), ..g }))
            == heap::generator_len(g),
        heap::generator_len(
            (GeneratorView {
                generator_type: None,
                script: None,
                script_template: None,
                transforms: Seq::empty(),
                js_source: None,
                js_runtime: None,
                template: None,
                ..g
            }),
        ) == 0,
{
    assert(v.push(t).drop_last() =~= v);
    assert(g.transforms.push(x).drop_last() =~= g.transforms);
}

/// Of a listed value its names, its description and its type count.
pub proof fn law_value_texts(s: Seq<char>, o: ObjectView)
    ensures
        heap::entry_len(EntryView::Plain(s)) == heap::text_len(s),
        heap::entry_len(EntryView::Object((ObjectView { name: o.name.push(s), ..o })))
            == heap::entry_len(EntryView::Object(o)) + heap::text_len(s),
        heap::entry_len(EntryView::Object((ObjectView { description: Some(s), ..o })))
            == heap::entry_len(EntryView::Object((ObjectView { description: None, ..o })))
            + heap::text_len(s),
        heap::entry_len(EntryView::Object((ObjectView { kind: Some(s), ..o }))) == heap::entry_len(
            EntryView::Object((ObjectView { kind: None, ..o })),
        ) + heap::text_len(s),
        heap::entry_len(
            EntryView::Object(
                (ObjectView { name: Seq::empty(), description: None, kind: None, ..o }),
            ),
        ) == 0,
{
    assert(o.name.push(s).drop_last() =~= o.name);
}

/// Of an argument its name, description and template count, and all its
/// generators and listed values.
pub proof fn law_argument_texts(a: ArgView, t: Seq<char>, g: GeneratorView, e: EntryView, b: bool)
    ensures
        heap::arg_len((ArgView { name: Some(t), ..a })) == heap::arg_len(
            (ArgView { name: None, ..a }),
        ) + heap::text_len(t),
        heap::arg_len((ArgView { description: Some(t), ..a })) == heap::arg_len(
            (ArgView { description: None, ..a }),
        ) + heap::text_len(t),
        heap::arg_len((ArgView { template: Some(t), ..a })) == heap::arg_len(
            (ArgView { template: None, ..a }),
        ) + heap::text_len(t),
        heap::arg_len((ArgView { generators: a.generators.push(g), ..a })) == heap::arg_len(a)
            + heap::generator_len(g),
        heap::arg_len((ArgView { suggestions: a.suggestions.push(e), ..a })) == heap::arg_len(a)
            + heap::entry_len(e),
        heap::arg_len((ArgView { is_optional: b, is_variadic: b, ..a })) == heap::arg_len(a),
        heap::arg_len(
            (ArgView {
                name: None,
                description: None,
                template: None,
                generators: Seq::empty(),
                suggestions: Seq::empty(),
                ..a
            }),
        ) == 0,
{
    assert(a.generators.push(g).drop_last() =~= a.generators);
    assert(a.suggestions.push(e).drop_last() =~= a.suggestions);
}

/// Of an option its names and its description count, and all its arguments.
pub proof fn law_option_texts(o: OptionView, t: Seq<char>, a: ArgView)
    ensures
        heap::option_len((OptionView { name: o.name.push(t), ..o })) == heap::option_len(o)
            + heap::text_len(t),
        heap::option_len((OptionView { description: Some(t), ..o })) == heap::option_len(
            (OptionView { description: None, ..o }),
        ) + heap::text_len(t),
        heap::option_len((OptionView { args: Some(a), ..o })) == heap::option_len(
            (OptionView { args: None, ..o }),
        ) + heap::arg_len(a),
        heap::option_len((OptionView { extra_args: o.extra_args.push(a), ..o }))
            == heap::option_len(o) + heap::arg_len(a),
        heap::option_len(
            (OptionView {
                name: Seq::empty(),
                description: None,
                args: None,
                extra_args: Seq::empty(),
                ..o
            }),
        ) == 0,
{
    assert(o.name.push(t).drop_last() =~= o.name);
    assert(o.extra_args.push(a).drop_last() =~= o.extra_args);
}

/// Of a subcommand its name and description count, and all its arguments and
/// options.
pub proof fn law_node_texts(s: SubcommandView, t: Seq<char>, a: ArgView, o: OptionView)
    ensures
        heap::node_len((SubcommandView { description: Some(t), ..s })) == heap::node_len(
            (SubcommandView { description: None, ..s }),
        ) + heap::text_len(t),
        heap::node_len((SubcommandView { args: s.args.push(a), ..s })) == heap::node_len(s)
            + heap::arg_len(a),
        heap::node_len((SubcommandView { options: s.options.push(o), ..s })) == heap::node_len(s)
            + heap::option_len(o),
        heap::node_len(
            (SubcommandView {
                name: t,
                description: None,
                args: Seq::empty(),
                options: Seq::empty(),
                ..s
            }),
        ) == heap::text_len(t),
{
    assert(s.args.push(a).drop_last() =~= s.args);
    assert(s.options.push(o).drop_last() =~= s.options);
}

/// Of a spec its name and description count, all its arguments and options,
/// and all its subcommands with what is below them.
pub proof fn law_spec_texts(
    s: CompletionSpecView,
    t: Seq<char>,
    a: ArgView,
    o: OptionView,
    n: SubcommandView,
)
    ensures
        heap::spec_len((CompletionSpecView { description: Some(t), ..s })) == heap::spec_len(
            (CompletionSpecView { description: None, ..s }),
        ) + heap::text_len(t),
        heap::spec_len((CompletionSpecView { args: s.args.push(a), ..s })) == heap::spec_len(s)
            + heap::arg_len(a),
        heap::spec_len((CompletionSpecView { options: s.options.push(o), ..s })) == heap::spec_len(
            s,
        ) + heap::option_len(o),
        heap::spec_len((CompletionSpecView { subcommands: s.subcommands.push(n), ..s }))
            == heap::spec_len(s) + heap::node_len(n) + heap::forest_len(n.subcommands),
        heap::spec_len(
            (CompletionSpecView {
                name: t,
                description: None,
                args: Seq::empty(),
                options: Seq::empty(),
                subcommands: Seq::empty(),
            }),
        ) == heap::text_len(t),
{
    assert(s.args.push(a).drop_last() =~= s.args);
    assert(s.options.push(o).drop_last() =~= s.options);
    let ts = s.subcommands.push(n);
    assert(ts.drop_last() =~= s.subcommands);
    assert(ts[ts.len() - 1] == n);
}

// ---------------------------------------------------------------------------
// Vectors
// ---------------------------------------------------------------------------
/// A vector of strings of this length.
pub open spec fn strings(n: nat) -> VecShape {
    VecShape { len: n, size: vstd::layout::size_of::<String>() }
}

/// Of a generator its transforms are a vector, and its script and its template
/// where they are there. Of a listed value its names are one, and a bare text
/// has none.
pub proof fn law_small_vectors(
    g: GeneratorView,
    v: Seq<Seq<char>>,
    w: Seq<Seq<char>>,
    o: ObjectView,
    s: Seq<char>,
)
    ensures
        ({
            let t = VecShape {
                len: g.transforms.len(),
                size: vstd::layout::size_of::<Transform>(),
            };
            &&& heap::generator_shapes((GeneratorView { script: None, script_template: None, ..g }))
                == seq![t]
            &&& heap::generator_shapes(
                (GeneratorView { script: Some(v), script_template: None, ..g }),
            ) == seq![strings(v.len()), t]
            &&& heap::generator_shapes(
                (GeneratorView { script: None, script_template: Some(w), ..g }),
            ) == seq![strings(w.len()), t]
            &&& heap::generator_shapes(
                (GeneratorView { script: Some(v), script_template: Some(w), ..g }),
            ) == seq![strings(v.len()), strings(w.len()), t]
        }),
        heap::entry_shapes(EntryView::Plain(s)).len() == 0,
        heap::entry_shapes(EntryView::Object(o)) == seq![strings(o.name.len())],
{
    let t = VecShape { len: g.transforms.len(), size: vstd::layout::size_of::<Transform>() };
    assert(heap::generator_shapes((GeneratorView { script: None, script_template: None, ..g }))
        =~= seq![t]);
    assert(heap::generator_shapes((GeneratorView { script: Some(v), script_template: None, ..g }))
        =~= seq![strings(v.len()), t]);
    assert(heap::generator_shapes((GeneratorView { script: None, script_template: Some(w), ..g }))
        =~= seq![strings(w.len()), t]);
    assert(heap::generator_shapes(
        (GeneratorView { script: Some(v), script_template: Some(w), ..g }),
    ) =~= seq![strings(v.len()), strings(w.len()), t]);
}

/// Of an argument its generators and its listed values are vectors, and those
/// of each generator and value follow.
pub proof fn law_argument_vectors(a: ArgView, g: GeneratorView, e: EntryView)
    ensures
        heap::arg_shapes(
            (ArgView { generators: Seq::empty(), suggestions: Seq::empty(), ..a }),
        ) == seq![
            (VecShape { len: 0, size: vstd::layout::size_of::<GeneratorSpec>() }),
            (VecShape { len: 0, size: vstd::layout::size_of::<SuggestionEntry>() }),
        ],
        heap::arg_shapes((ArgView { suggestions: a.suggestions.push(e), ..a })).len()
            == heap::arg_shapes(a).len() + heap::entry_shapes(e).len(),
        heap::arg_shapes((ArgView { generators: a.generators.push(g), ..a })).len()
            == heap::arg_shapes(a).len() + heap::generator_shapes(g).len(),
        heap::arg_shapes(a)[0] == (VecShape {
            len: a.generators.len(),
            size: vstd::layout::size_of::<GeneratorSpec>(),
        }),
        heap::arg_shapes(a)[1] == (VecShape {
            len: a.suggestions.len(),
            size: vstd::layout::size_of::<SuggestionEntry>(),
        }),
        heap::generators_shapes(a.generators.push(g)) == heap::generators_shapes(a.generators)
            + heap::generator_shapes(g),
        heap::entries_shapes(a.suggestions.push(e)) == heap::entries_shapes(a.suggestions)
            + heap::entry_shapes(e),
{
    assert(a.generators.push(g).drop_last() =~= a.generators);
    assert(a.suggestions.push(e).drop_last() =~= a.suggestions);
    assert(heap::arg_shapes(
        (ArgView { generators: Seq::empty(), suggestions: Seq::empty(), ..a }),
    ) =~= seq![
        (VecShape { len: 0, size: vstd::layout::size_of::<GeneratorSpec>() }),
        (VecShape { len: 0, size: vstd::layout::size_of::<SuggestionEntry>() }),
    ]);
}

/// Of a list of arguments or options the list itself is a vector, and those of
/// each item follow. Of an option its names are one, and its first argument
/// and the list of the others follow.
pub proof fn law_list_vectors(v: Seq<ArgView>, a: ArgView, w: Seq<OptionView>, o: OptionView)
    ensures
        heap::args_shapes(v)[0] == (VecShape {
            len: v.len(),
            size: vstd::layout::size_of::<ArgSpec>(),
        }),
        heap::args_shapes(v.push(a)).skip(1) == heap::args_shapes(v).skip(1) + heap::arg_shapes(a),
        heap::args_shapes(Seq::empty()).len() == 1,
        heap::options_shapes(w)[0] == (VecShape {
            len: w.len(),
            size: vstd::layout::size_of::<OptionSpec>(),
        }),
        heap::options_shapes(w.push(o)).skip(1) == heap::options_shapes(w).skip(1)
            + heap::option_shapes(o),
        heap::options_shapes(Seq::empty()).len() == 1,
        o.args matches Some(x) ==> heap::option_shapes(o) == seq![strings(o.name.len())]
            + heap::arg_shapes(x) + heap::args_shapes(o.extra_args),
        o.args is None ==> heap::option_shapes(o) == seq![strings(o.name.len())]
            + heap::args_shapes(o.extra_args),
{
    assert(v.push(a).drop_last() =~= v);
    assert(w.push(o).drop_last() =~= w);
    assert(heap::args_shapes(v.push(a)).skip(1) =~= heap::args_shapes(v).skip(1)
        + heap::arg_shapes(a));
    assert(heap::options_shapes(w.push(o)).skip(1) =~= heap::options_shapes(w).skip(1)
        + heap::option_shapes(o));
    if o.args is None {
        assert(heap::option_shapes(o) =~= seq![strings(o.name.len())] + heap::args_shapes(
            o.extra_args,
        ));
    }
}

/// Of a spec, and of each subcommand at every depth, the lists of arguments,
/// options and subcommands are vectors.
pub proof fn law_tree_vectors(s: CompletionSpecView, ts: Seq<SubcommandView>, t: SubcommandView)
    ensures
        s.subcommands.len() == 0 ==> heap::spec_shapes(s) == heap::args_shapes(s.args)
            + heap::options_shapes(s.options) + seq![
            (VecShape { len: 0, size: vstd::layout::size_of::<SubcommandSpec>() }),
        ],
        heap::forest_shapes(ts.push(t)) == heap::args_shapes(t.args) + heap::options_shapes(
            t.options,
        ) + seq![
            (VecShape {
                len: t.subcommands.len(),
                size: vstd::layout::size_of::<SubcommandSpec>(),
            }),
        ] + heap::forest_shapes(t.subcommands) + heap::forest_shapes(ts),
        heap::spec_shapes((CompletionSpecView { subcommands: ts.push(t), ..s })).len()
            == heap::spec_shapes((CompletionSpecView { subcommands: ts, ..s })).len()
            + heap::node_shapes(t.args, t.options, t.subcommands).len() + heap::forest_shapes(
            t.subcommands,
        ).len(),
{
    let all = ts.push(t);
    assert(all.drop_last() =~= ts);
    assert(all[all.len() - 1] == t);
    if s.subcommands.len() == 0 {
        assert(heap::spec_shapes(s) =~= heap::args_shapes(s.args) + heap::options_shapes(s.options)
            + seq![(VecShape { len: 0, size: vstd::layout::size_of::<SubcommandSpec>() })]);
    }
}

// ---------------------------------------------------------------------------
// Sums
// ---------------------------------------------------------------------------
/// Every vector counts by its capacity times the size of its elements, and a
/// sum that does not fit is the greatest that does.
pub proof fn law_room(a: Seq<VecUse>, u: VecUse, b: Seq<VecUse>, n: nat)
    ensures
        heap::room(a + seq![u] + b) == heap::room(a) + (u.capacity as nat) * (u.size as nat)
            + heap::room(b),
        heap::room(Seq::empty()) == 0,
        n <= usize::MAX ==> heap::capped(n) == n,
        n > usize::MAX ==> heap::capped(n) == usize::MAX,
    decreases b.len(),
{
    let all = a + seq![u] + b;
    if b.len() == 0 {
        assert(all =~= a.push(u));
        assert(all.drop_last() =~= a);
    } else {
        law_room(a, u, b.drop_last(), n);
        assert(all.drop_last() =~= a + seq![u] + b.drop_last());
        assert(all.last() == b.last());
    }
}

} // verus!
