//! Load-time checks: generators that cannot run and listed values that cannot
//! be shown are taken out of a spec.
use crate::specs::model;
use crate::specs::model::{
    ArgSpec, ArgView, CompletionSpec, CompletionSpecView, EntryView, GeneratorSpec, GeneratorView,
    OptionSpec, OptionView, SubcommandSpec, SubcommandView, SuggestionEntry,
};
use crate::specs::tree;
use crate::text;
use vstd::prelude::*;
use vstd::string::*;

verus! {

// ---------------------------------------------------------------------------
// Listed values
// ---------------------------------------------------------------------------
/// Whether an entry lacks a usable name: no name at all, or a blank one among
/// its names.
pub open spec fn nameless(e: EntryView) -> bool {
    match e {
        EntryView::Plain(s) => text::is_blank(s),
        EntryView::Object(o) => o.name.len() == 0 || exists|i: int|
            0 <= i < o.name.len() && text::is_blank(#[trigger] o.name[i]),
    }
}

/// Whether the spec asks for the entry not to be shown.
pub open spec fn hidden(e: EntryView) -> bool {
    e matches EntryView::Object(o) && o.hidden
}

/// Whether an entry can be shown.
pub open spec fn presentable(e: EntryView) -> bool {
    !nameless(e) && !hidden(e)
}

impl SuggestionEntry {
    /// Whether the entry lacks a usable name.
    pub fn is_empty_name(&self) -> (r: bool)
        ensures
            r == nameless(self@),
    {
        match self {
            SuggestionEntry::Plain(s) => text::blank(s),
            SuggestionEntry::Object(o) => {
                if o.name.len() == 0 {
                    return true;
                }
                let ghost names = text::views(o.name@);
                let mut i: usize = 0;
                while i < o.name.len()
                    invariant
                        i <= o.name.len(),
                        names == text::views(o.name@),
                        self@ == EntryView::Object(o@),
                        forall|j: int| 0 <= j < i ==> !text::is_blank(#[trigger] names[j]),
                    decreases o.name.len() - i,
                {
                    assert(names[i as int] == o.name@[i as int]@);
                    if text::blank(&o.name[i]) {
                        assert(text::is_blank(names[i as int]));
                        return true;
                    }
                    i += 1;
                }
                false
            },
        }
    }

    /// Whether the spec asks for the entry not to be shown.
    pub fn is_hidden(&self) -> (r: bool)
        ensures
            r == hidden(self@),
    {
        match self {
            SuggestionEntry::Plain(_) => false,
            SuggestionEntry::Object(o) => o.hidden,
        }
    }
}

/// The `type` strings of listed values that mean something.
pub open spec fn known_type(s: Seq<char>) -> bool {
    ||| s == "subcommand"@
    ||| s == "option"@
    ||| s == "file"@
    ||| s == "folder"@
    ||| s == "arg"@
    ||| s == "special"@
    ||| s == "shortcut"@
    ||| s == "mixin"@
    ||| s == "auto-execute"@
}

/// Whether a listed value's `type` string means something.
pub fn is_known_suggestion_type(s: &str) -> (r: bool)
    ensures
        r == known_type(s@),
{
    text::same(s, "subcommand") || text::same(s, "option") || text::same(s, "file") || text::same(
        s,
        "folder",
    ) || text::same(s, "arg") || text::same(s, "special") || text::same(s, "shortcut")
        || text::same(s, "mixin") || text::same(s, "auto-execute")
}

// ---------------------------------------------------------------------------
// One argument
// ---------------------------------------------------------------------------
/// Whether a generator's transforms are accepted, or there are none.
pub open spec fn runnable(g: GeneratorView) -> bool {
    g.transforms.len() == 0 || g.pipeline_error is None
}

pub open spec fn pipeline_warning(spec_name: Seq<char>, e: Seq<char>) -> Seq<char> {
    "generator in "@ + spec_name + " has invalid transform pipeline: "@ + e
}

pub open spec fn nameless_warning(spec_name: Seq<char>) -> Seq<char> {
    "suggestion in "@ + spec_name + " has empty name; dropping"@
}

pub open spec fn type_warning(spec_name: Seq<char>, kind: Seq<char>) -> Seq<char> {
    "suggestion in "@ + spec_name + " has unknown `type` \""@ + kind
        + "\"; falling back to EnumValue"@
}

/// A line for each generator that is taken out.
pub open spec fn pipeline_warnings(gs: Seq<GeneratorView>, name: Seq<char>) -> Seq<Seq<char>>
    decreases gs.len(),
{
    if gs.len() == 0 {
        Seq::empty()
    } else {
        let rest = pipeline_warnings(gs.drop_last(), name);
        if runnable(gs.last()) {
            rest
        } else {
            rest.push(pipeline_warning(name, gs.last().pipeline_error->Some_0))
        }
    }
}

/// A line for each entry without a usable name.
pub open spec fn nameless_warnings(es: Seq<EntryView>, name: Seq<char>) -> Seq<Seq<char>>
    decreases es.len(),
{
    if es.len() == 0 {
        Seq::empty()
    } else {
        let rest = nameless_warnings(es.drop_last(), name);
        if nameless(es.last()) {
            rest.push(nameless_warning(name))
        } else {
            rest
        }
    }
}

/// A line for each entry whose `type` means nothing.
pub open spec fn type_warnings(es: Seq<EntryView>, name: Seq<char>) -> Seq<Seq<char>>
    decreases es.len(),
{
    if es.len() == 0 {
        Seq::empty()
    } else {
        let rest = type_warnings(es.drop_last(), name);
        match es.last() {
            EntryView::Object(o) => match o.kind {
                Some(k) => if known_type(k) {
                    rest
                } else {
                    rest.push(type_warning(name, k))
                },
                None => rest,
            },
            EntryView::Plain(_) => rest,
        }
    }
}

/// The argument without what cannot run or be shown.
pub open spec fn checked_arg(a: ArgView) -> ArgView {
    ArgView {
        generators: a.generators.filter(|g: GeneratorView| runnable(g)),
        suggestions: a.suggestions.filter(|e: EntryView| presentable(e)),
        ..a
    }
}

/// What is reported about one argument: generators taken out, values without
/// a name, and then the unknown types of the values that stay.
pub open spec fn arg_warnings(a: ArgView, name: Seq<char>) -> Seq<Seq<char>> {
    pipeline_warnings(a.generators, name) + nameless_warnings(a.suggestions, name) + type_warnings(
        checked_arg(a).suggestions,
        name,
    )
}

/// Drops the generators whose transforms are refused.
fn keep_runnable(generators: Vec<GeneratorSpec>, spec_name: &str, warnings: &mut Vec<String>) -> (r:
    Vec<GeneratorSpec>)
    ensures
        r@.map_values(|g: GeneratorSpec| g@) == generators@.map_values(
            |g: GeneratorSpec| g@,
        ).filter(|g: GeneratorView| runnable(g)),
        text::views(final(warnings)@) == text::views(old(warnings)@) + pipeline_warnings(
            generators@.map_values(|g: GeneratorSpec| g@),
            spec_name@,
        ),
{
    let ghost items = generators@;
    let ghost all = generators@.map_values(|g: GeneratorSpec| g@);
    let ghost w0 = text::views(warnings@);
    let mut rest = generators;
    let mut kept: Vec<GeneratorSpec> = Vec::new();
    let ghost mut n: int = 0;
    proof {
        reveal(Seq::filter);
        assert(all.take(0) =~= Seq::empty());
        assert(items.skip(0) =~= items);
        assert(kept@.map_values(|g: GeneratorSpec| g@) =~= Seq::empty());
        assert(w0 + pipeline_warnings(all.take(0), spec_name@) =~= w0);
    }
    while rest.len() > 0
        invariant
            0 <= n <= items.len(),
            all == items.map_values(|g: GeneratorSpec| g@),
            rest@ == items.skip(n),
            kept@.map_values(|g: GeneratorSpec| g@) == all.take(n).filter(
                |g: GeneratorView| runnable(g),
            ),
            text::views(warnings@) == w0 + pipeline_warnings(all.take(n), spec_name@),
        decreases rest.len(),
    {
        let g = rest.remove(0);
        let ghost kept_before = kept@;
        let ghost warnings_before = warnings@;
        proof {
            reveal(Seq::filter);
            assert(g == items[n]);
            assert(g@.transforms.len() == g.transforms.len());
            assert(all.take(n + 1).drop_last() =~= all.take(n));
            assert(all.take(n + 1).last() == g@);
            assert(rest@ =~= items.skip(n + 1));
            n = n + 1;
        }
        if g.transforms.len() == 0 {
            kept.push(g);
            assert(kept@.map_values(|g: GeneratorSpec| g@) =~= kept_before.map_values(
                |g: GeneratorSpec| g@,
            ).push(g@));
        } else {
            match &g.pipeline_error {
                None => {
                    kept.push(g);
                    assert(kept@.map_values(|g: GeneratorSpec| g@) =~= kept_before.map_values(
                        |g: GeneratorSpec| g@,
                    ).push(g@));
                },
                Some(e) => {
                    let mut line = "generator in ".to_owned();
                    line.append(spec_name);
                    line.append(" has invalid transform pipeline: ");
                    line.append(e);
                    warnings.push(line);
                    proof {
                        assert(text::views(warnings@) =~= text::views(warnings_before).push(line@));
                        assert(text::views(warnings@) =~= w0 + pipeline_warnings(
                            all.take(n),
                            spec_name@,
                        ));
                    }
                },
            }
        }
    }
    assert(all.take(all.len() as int) =~= all);
    kept
}

/// Drops the entries that cannot be shown.
fn keep_presentable(
    suggestions: Vec<SuggestionEntry>,
    spec_name: &str,
    warnings: &mut Vec<String>,
) -> (r: Vec<SuggestionEntry>)
    ensures
        r@.map_values(|e: SuggestionEntry| e@) == suggestions@.map_values(
            |e: SuggestionEntry| e@,
        ).filter(|e: EntryView| presentable(e)),
        text::views(final(warnings)@) == text::views(old(warnings)@) + nameless_warnings(
            suggestions@.map_values(|e: SuggestionEntry| e@),
            spec_name@,
        ),
{
    let ghost items = suggestions@;
    let ghost all = suggestions@.map_values(|e: SuggestionEntry| e@);
    let ghost w0 = text::views(warnings@);
    let mut rest = suggestions;
    let mut kept: Vec<SuggestionEntry> = Vec::new();
    let ghost mut n: int = 0;
    proof {
        reveal(Seq::filter);
        assert(all.take(0) =~= Seq::empty());
        assert(items.skip(0) =~= items);
        assert(kept@.map_values(|e: SuggestionEntry| e@) =~= Seq::empty());
        assert(w0 + nameless_warnings(all.take(0), spec_name@) =~= w0);
    }
    while rest.len() > 0
        invariant
            0 <= n <= items.len(),
            all == items.map_values(|e: SuggestionEntry| e@),
            rest@ == items.skip(n),
            kept@.map_values(|e: SuggestionEntry| e@) == all.take(n).filter(
                |e: EntryView| presentable(e),
            ),
            text::views(warnings@) == w0 + nameless_warnings(all.take(n), spec_name@),
        decreases rest.len(),
    {
        let e = rest.remove(0);
        let ghost kept_before = kept@;
        let ghost warnings_before = warnings@;
        proof {
            reveal(Seq::filter);
            assert(e == items[n]);
            assert(all.take(n + 1).drop_last() =~= all.take(n));
            assert(all.take(n + 1).last() == e@);
            assert(rest@ =~= items.skip(n + 1));
            n = n + 1;
        }
        if e.is_empty_name() {
            let mut line = "suggestion in ".to_owned();
            line.append(spec_name);
            line.append(" has empty name; dropping");
            warnings.push(line);
            proof {
                assert(text::views(warnings@) =~= text::views(warnings_before).push(line@));
                assert(text::views(warnings@) =~= w0 + nameless_warnings(all.take(n), spec_name@));
            }
        } else if !e.is_hidden() {
            kept.push(e);
            assert(kept@.map_values(|e: SuggestionEntry| e@) =~= kept_before.map_values(
                |e: SuggestionEntry| e@,
            ).push(e@));
        }
    }
    assert(all.take(all.len() as int) =~= all);
    kept
}

/// Reports the entries whose `type` means nothing.
fn warn_types(suggestions: &Vec<SuggestionEntry>, spec_name: &str, warnings: &mut Vec<String>)
    ensures
        text::views(final(warnings)@) == text::views(old(warnings)@) + type_warnings(
            suggestions@.map_values(|e: SuggestionEntry| e@),
            spec_name@,
        ),
{
    let ghost all = suggestions@.map_values(|e: SuggestionEntry| e@);
    let ghost w0 = text::views(warnings@);
    let mut i: usize = 0;
    proof {
        assert(all.take(0) =~= Seq::empty());
        assert(w0 + type_warnings(all.take(0), spec_name@) =~= w0);
    }
    while i < suggestions.len()
        invariant
            i <= suggestions.len(),
            all == suggestions@.map_values(|e: SuggestionEntry| e@),
            text::views(warnings@) == w0 + type_warnings(all.take(i as int), spec_name@),
        decreases suggestions.len() - i,
    {
        let ghost warnings_before = warnings@;
        let e = &suggestions[i];
        proof {
            assert(all.take(i + 1).drop_last() =~= all.take(i as int));
            assert(all.take(i + 1).last() == e@);
        }
        if let SuggestionEntry::Object(o) = e {
            if let Some(k) = &o.kind {
                if !is_known_suggestion_type(k) {
                    let mut line = "suggestion in ".to_owned();
                    line.append(spec_name);
                    line.append(" has unknown `type` \"");
                    line.append(k);
                    line.append("\"; falling back to EnumValue");
                    warnings.push(line);
                    proof {
                        assert(text::views(warnings@) =~= text::views(warnings_before).push(line@));
                        assert(text::views(warnings@) =~= w0 + type_warnings(
                            all.take(i + 1),
                            spec_name@,
                        ));
                    }
                }
            }
        }
        i += 1;
    }
    assert(all.take(all.len() as int) =~= all);
}

/// Takes out of one argument what cannot run or be shown, and reports it.
pub fn validate_arg_generators(a: &mut ArgSpec, spec_name: &str, warnings: &mut Vec<String>)
    ensures
        final(a)@ == checked_arg(old(a)@),
        text::views(final(warnings)@) == text::views(old(warnings)@) + arg_warnings(
            old(a)@,
            spec_name@,
        ),
{
    let ghost before = a@;
    let ghost w0 = text::views(warnings@);
    let mut generators: Vec<GeneratorSpec> = Vec::new();
    std::mem::swap(&mut generators, &mut a.generators);
    a.generators = keep_runnable(generators, spec_name, warnings);
    let mut suggestions: Vec<SuggestionEntry> = Vec::new();
    std::mem::swap(&mut suggestions, &mut a.suggestions);
    a.suggestions = keep_presentable(suggestions, spec_name, warnings);
    warn_types(&a.suggestions, spec_name, warnings);
    assert(text::views(warnings@) =~= w0 + arg_warnings(before, spec_name@));
}

// ---------------------------------------------------------------------------
// The whole spec
// ---------------------------------------------------------------------------
pub open spec fn checked_args(v: Seq<ArgView>) -> Seq<ArgView> {
    v.map_values(|a: ArgView| checked_arg(a))
}

pub open spec fn args_warnings(v: Seq<ArgView>, name: Seq<char>) -> Seq<Seq<char>>
    decreases v.len(),
{
    if v.len() == 0 {
        Seq::empty()
    } else {
        args_warnings(v.drop_last(), name) + arg_warnings(v.last(), name)
    }
}

pub open spec fn checked_option(o: OptionView) -> OptionView {
    OptionView {
        args: match o.args {
            Some(a) => Some(checked_arg(a)),
            None => None,
        },
        extra_args: checked_args(o.extra_args),
        ..o
    }
}

pub open spec fn option_warnings(o: OptionView, name: Seq<char>) -> Seq<Seq<char>> {
    (match o.args {
        Some(a) => arg_warnings(a, name),
        None => Seq::empty(),
    }) + args_warnings(o.extra_args, name)
}

pub open spec fn checked_options(v: Seq<OptionView>) -> Seq<OptionView> {
    v.map_values(|o: OptionView| checked_option(o))
}

pub open spec fn options_warnings(v: Seq<OptionView>, name: Seq<char>) -> Seq<Seq<char>>
    decreases v.len(),
{
    if v.len() == 0 {
        Seq::empty()
    } else {
        options_warnings(v.drop_last(), name) + option_warnings(v.last(), name)
    }
}

/// One subcommand, not looking at those below it.
pub open spec fn checked_node(t: SubcommandView) -> SubcommandView {
    SubcommandView { options: checked_options(t.options), args: checked_args(t.args), ..t }
}

pub open spec fn node_warnings(t: SubcommandView, name: Seq<char>) -> Seq<Seq<char>> {
    args_warnings(t.args, name) + options_warnings(t.options, name)
}

/// What is reported about subcommands: the last one first, and each before
/// those below it.
pub open spec fn forest_warnings(ts: Seq<SubcommandView>, name: Seq<char>) -> Seq<Seq<char>>
    decreases ts,
{
    if ts.len() == 0 {
        Seq::empty()
    } else {
        let t = ts[ts.len() - 1];
        node_warnings(t, name) + forest_warnings(t.subcommands, name) + forest_warnings(
            ts.drop_last(),
            name,
        )
    }
}

/// The spec without what cannot run or be shown, at every depth.
pub open spec fn checked_spec(s: CompletionSpecView) -> CompletionSpecView {
    CompletionSpecView {
        subcommands: tree::map_forest(|t: SubcommandView| checked_node(t), s.subcommands),
        options: checked_options(s.options),
        args: checked_args(s.args),
        ..s
    }
}

/// What is reported about a spec.
pub open spec fn spec_warnings(s: CompletionSpecView) -> Seq<Seq<char>> {
    args_warnings(s.args, s.name) + options_warnings(s.options, s.name) + forest_warnings(
        s.subcommands,
        s.name,
    )
}

proof fn lemma_forest_warnings(
    a: Seq<SubcommandView>,
    b: Seq<SubcommandView>,
    name: Seq<char>,
)
    ensures
        forest_warnings(a + b, name) == forest_warnings(b, name) + forest_warnings(a, name),
    decreases b.len(),
{
    if b.len() == 0 {
        assert(a + b =~= a);
        assert(forest_warnings(b, name) + forest_warnings(a, name) =~= forest_warnings(a, name));
    } else {
        let t = b[b.len() - 1];
        lemma_forest_warnings(a, b.drop_last(), name);
        assert((a + b).drop_last() =~= a + b.drop_last());
        assert((a + b)[(a + b).len() - 1] == t);
        assert(forest_warnings(a + b, name) =~= forest_warnings(b, name) + forest_warnings(
            a,
            name,
        ));
    }
}

/// Checks a list of arguments.
pub fn validate_args_generators(v: &mut Vec<ArgSpec>, spec_name: &str, warnings: &mut Vec<String>)
    ensures
        model::arg_views(final(v)@) == checked_args(model::arg_views(old(v)@)),
        text::views(final(warnings)@) == text::views(old(warnings)@) + args_warnings(
            model::arg_views(old(v)@),
            spec_name@,
        ),
{
    let ghost before = v@;
    let ghost all = model::arg_views(v@);
    let ghost w0 = text::views(warnings@);
    let mut i: usize = 0;
    proof {
        assert(all.take(0) =~= Seq::empty());
        assert(w0 + args_warnings(all.take(0), spec_name@) =~= w0);
    }
    while i < v.len()
        invariant
            i <= v.len(),
            v.len() == before.len(),
            all == model::arg_views(before),
            forall|j: int| 0 <= j < i ==> (#[trigger] v@[j])@ == checked_arg(before[j]@),
            forall|j: int| i <= j < v.len() ==> #[trigger] v@[j] == before[j],
            text::views(warnings@) == w0 + args_warnings(all.take(i as int), spec_name@),
        decreases v.len() - i,
    {
        proof {
            assert(all.take(i + 1).drop_last() =~= all.take(i as int));
            assert(all.take(i + 1).last() == v@[i as int]@);
        }
        validate_arg_generators(&mut v[i], spec_name, warnings);
        i += 1;
        assert(text::views(warnings@) =~= w0 + args_warnings(all.take(i as int), spec_name@));
    }
    assert(all.take(all.len() as int) =~= all);
    assert(model::arg_views(v@) =~= checked_args(all));
}

fn validate_option_generators(o: &mut OptionSpec, spec_name: &str, warnings: &mut Vec<String>)
    ensures
        final(o)@ == checked_option(old(o)@),
        text::views(final(warnings)@) == text::views(old(warnings)@) + option_warnings(
            old(o)@,
            spec_name@,
        ),
{
    let ghost before = o@;
    let ghost w0 = text::views(warnings@);
    if let Some(a) = &mut o.args {
        validate_arg_generators(a, spec_name, warnings);
    }
    validate_args_generators(&mut o.extra_args, spec_name, warnings);
    assert(text::views(warnings@) =~= w0 + option_warnings(before, spec_name@));
}

fn validate_options_generators(
    v: &mut Vec<OptionSpec>,
    spec_name: &str,
    warnings: &mut Vec<String>,
)
    ensures
        model::option_views(final(v)@) == checked_options(model::option_views(old(v)@)),
        text::views(final(warnings)@) == text::views(old(warnings)@) + options_warnings(
            model::option_views(old(v)@),
            spec_name@,
        ),
{
    let ghost before = v@;
    let ghost all = model::option_views(v@);
    let ghost w0 = text::views(warnings@);
    let mut i: usize = 0;
    proof {
        assert(all.take(0) =~= Seq::empty());
        assert(w0 + options_warnings(all.take(0), spec_name@) =~= w0);
    }
    while i < v.len()
        invariant
            i <= v.len(),
            v.len() == before.len(),
            all == model::option_views(before),
            forall|j: int| 0 <= j < i ==> (#[trigger] v@[j])@ == checked_option(before[j]@),
            forall|j: int| i <= j < v.len() ==> #[trigger] v@[j] == before[j],
            text::views(warnings@) == w0 + options_warnings(all.take(i as int), spec_name@),
        decreases v.len() - i,
    {
        proof {
            assert(all.take(i + 1).drop_last() =~= all.take(i as int));
            assert(all.take(i + 1).last() == v@[i as int]@);
        }
        validate_option_generators(&mut v[i], spec_name, warnings);
        i += 1;
        assert(text::views(warnings@) =~= w0 + options_warnings(all.take(i as int), spec_name@));
    }
    assert(all.take(all.len() as int) =~= all);
    assert(model::option_views(v@) =~= checked_options(all));
}

fn validate_node(t: &mut SubcommandSpec, spec_name: &str, warnings: &mut Vec<String>)
    ensures
        final(t)@ == checked_node(old(t)@),
        text::views(final(warnings)@) == text::views(old(warnings)@) + node_warnings(
            old(t)@,
            spec_name@,
        ),
{
    let ghost before = *t;
    let ghost w0 = text::views(warnings@);
    validate_args_generators(&mut t.args, spec_name, warnings);
    validate_options_generators(&mut t.options, spec_name, warnings);
    proof {
        model::lemma_sub_view(before);
        model::lemma_sub_view(*t);
        assert(text::views(warnings@) =~= w0 + node_warnings(before@, spec_name@));
    }
}

/// Takes out of a spec what cannot run or be shown, and returns a line for
/// each generator and unusable value that went, and for each unknown type.
pub fn validate_spec_generators(spec: &mut CompletionSpec) -> (r: Vec<String>)
    ensures
        final(spec)@ == checked_spec(old(spec)@),
        text::views(r@) == spec_warnings(old(spec)@),
{
    let ghost s0 = spec@;
    let spec_name = spec.name.clone();
    let mut warnings: Vec<String> = Vec::new();
    validate_args_generators(&mut spec.args, &spec_name, &mut warnings);
    validate_options_generators(&mut spec.options, &spec_name, &mut warnings);
    let ghost f = |t: SubcommandView| checked_node(t);
    let ghost name = spec_name@;
    let mut subs: Vec<SubcommandSpec> = Vec::new();
    std::mem::swap(&mut subs, &mut spec.subcommands);
    let (mut nodes, Ghost(states)) = tree::detach(subs);
    let ghost before = nodes@;
    let ghost w0 = text::views(warnings@);
    let mut i: usize = 0;
    while i < nodes.len()
        invariant
            i <= nodes.len(),
            nodes.len() == before.len(),
            name == spec_name@,
            f == (|t: SubcommandView| checked_node(t)),
            tree::unrolled(states, before),
            forall|j: int|
                0 <= j < i ==> (#[trigger] nodes@[j]).node@ == f(before[j].node@)
                    && nodes@[j].children == before[j].children,
            forall|j: int| i <= j < nodes.len() ==> #[trigger] nodes@[j] == before[j],
            text::views(warnings@) + forest_warnings(states[i as int], name) == w0
                + forest_warnings(states[0], name),
        decreases nodes.len() - i,
    {
        let ghost w1 = text::views(warnings@);
        proof {
            assert(tree::unrolled_at(states, before, i as int));
            let s = states[i as int];
            let t = s[s.len() - 1];
            lemma_forest_warnings(s.drop_last(), t.subcommands, name);
            assert(forest_warnings(s, name) =~= node_warnings(tree::bare(t), name)
                + forest_warnings(states[i + 1], name));
        }
        validate_node(&mut nodes[i].node, &spec_name, &mut warnings);
        i += 1;
        assert(text::views(warnings@) + forest_warnings(states[i as int], name) =~= w1
            + forest_warnings(states[i - 1], name));
    }
    spec.subcommands = tree::attach(nodes, Ghost(states), Ghost(before), Ghost(f));
    proof {
        assert(text::views(warnings@) + forest_warnings(states[i as int], name) =~= text::views(
            warnings@,
        ));
        assert(text::views(warnings@) =~= spec_warnings(s0));
    }
    warnings
}

// ---------------------------------------------------------------------------
// Laws
// ---------------------------------------------------------------------------
/// After the check an argument holds only generators that can run and values
/// that can be shown, and checking it again changes nothing.
pub proof fn law_checked_arg(a: ArgView)
    ensures
        forall|i: int|
            0 <= i < checked_arg(a).generators.len() ==> runnable(
                #[trigger] checked_arg(a).generators[i],
            ),
        forall|i: int|
            0 <= i < checked_arg(a).suggestions.len() ==> presentable(
                #[trigger] checked_arg(a).suggestions[i],
            ),
        checked_arg(checked_arg(a)) == checked_arg(a),
{
    let g = |g: GeneratorView| runnable(g);
    let p = |e: EntryView| presentable(e);
    lemma_filtered(a.generators, g);
    lemma_filtered(a.suggestions, p);
    lemma_filter_all(a.generators.filter(g), g);
    lemma_filter_all(a.suggestions.filter(p), p);
}

proof fn lemma_filtered<T>(s: Seq<T>, p: spec_fn(T) -> bool)
    ensures
        forall|i: int| 0 <= i < s.filter(p).len() ==> p(#[trigger] s.filter(p)[i]),
    decreases s.len(),
{
    reveal(Seq::filter);
    if s.len() > 0 {
        lemma_filtered(s.drop_last(), p);
    }
}

/// A filter that everything passes keeps everything.
pub proof fn lemma_filter_all<T>(s: Seq<T>, p: spec_fn(T) -> bool)
    requires
        forall|i: int| 0 <= i < s.len() ==> p(#[trigger] s[i]),
    ensures
        s.filter(p) == s,
    decreases s.len(),
{
    reveal(Seq::filter);
    if s.len() > 0 {
        let d = s.drop_last();
        assert forall|i: int| 0 <= i < d.len() implies p(#[trigger] d[i]) by {
            assert(d[i] == s[i]);
        }
        lemma_filter_all(d, p);
        assert(s[s.len() - 1] == s.last());
        assert(d.push(s.last()) =~= s);
    }
}

} // verus!
