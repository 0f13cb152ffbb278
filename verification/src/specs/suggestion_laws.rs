//! What is suggested at a position of a spec, item by item.
use crate::providers::kind;
use crate::providers::kind::ProviderKind;
use crate::specs::model::{
    ArgView, EntryView, GeneratorView, JsRuntimeKind, ObjectView, OptionView, SubcommandView,
};
use crate::specs::resolve;
use crate::specs::resolve::{Collected, Position};
use crate::text;
use crate::types::{SuggestionKind, SuggestionSource, SuggestionView};
use vstd::prelude::*;
use vstd::string::*;

verus! {

// ---------------------------------------------------------------------------
// Subcommands and options
// ---------------------------------------------------------------------------
/// Every subcommand is suggested, in order, under its name and with its own
/// description and priority.
pub proof fn law_every_subcommand_is_suggested(subs: Seq<SubcommandView>, i: int)
    requires
        0 <= i < subs.len(),
    ensures
        resolve::subcommand_suggestions(subs).len() == subs.len(),
        ({
            let s = resolve::subcommand_suggestions(subs)[i];
            s.text == subs[i].name && s.description == subs[i].description && s.priority
                == subs[i].priority && s.kind == SuggestionKind::Subcommand && s.source
                == SuggestionSource::Spec
        }),
{
}

proof fn lemma_options(a: Seq<OptionView>, b: Seq<OptionView>)
    ensures
        resolve::option_suggestions(a + b) == resolve::option_suggestions(a)
            + resolve::option_suggestions(b),
    decreases b.len(),
{
    if b.len() == 0 {
        assert(a + b =~= a);
        assert(resolve::option_suggestions(a) + resolve::option_suggestions(b)
            =~= resolve::option_suggestions(a));
    } else {
        lemma_options(a, b.drop_last());
        assert((a + b).drop_last() =~= a + b.drop_last());
        assert((a + b).last() == b.last());
        assert(resolve::option_suggestions(a + b) =~= resolve::option_suggestions(a)
            + resolve::option_suggestions(b));
    }
}

/// Every option is suggested under each of its names, in order, with its own
/// description and priority, between the options before and behind it.
pub proof fn law_every_option_name_is_suggested(
    a: Seq<OptionView>,
    o: OptionView,
    b: Seq<OptionView>,
    k: int,
)
    requires
        0 <= k < o.name.len(),
    ensures
        resolve::option_suggestions(a + seq![o] + b).len() == resolve::option_suggestions(a).len()
            + o.name.len() + resolve::option_suggestions(b).len(),
        ({
            let s = resolve::option_suggestions(a + seq![o] + b)[resolve::option_suggestions(
                a,
            ).len() + k];
            s.text == o.name[k] && s.description == o.description && s.priority == o.priority
                && s.kind == SuggestionKind::Flag && s.source == SuggestionSource::Spec
        }),
        resolve::option_suggestions(Seq::empty()) == Seq::<SuggestionView>::empty(),
{
    lemma_options(a + seq![o], b);
    lemma_options(a, seq![o]);
    assert(seq![o].drop_last() =~= Seq::empty());
    assert(resolve::option_suggestions(seq![o].drop_last()) =~= Seq::empty());
    assert(resolve::option_suggestions(seq![o]) =~= resolve::names_of(o));
}

// ---------------------------------------------------------------------------
// Listed values
// ---------------------------------------------------------------------------
/// Values are suggested one by one, in order.
pub proof fn law_values_apart(a: Seq<EntryView>, e: EntryView, b: Seq<EntryView>)
    ensures
        resolve::static_suggestions(a + seq![e] + b) == resolve::static_suggestions(a)
            + resolve::static_suggestions(seq![e]) + resolve::static_suggestions(b),
        resolve::static_suggestions(Seq::empty()) == Seq::<SuggestionView>::empty(),
{
    lemma_values(a + seq![e], b);
    lemma_values(a, seq![e]);
}

proof fn lemma_values(a: Seq<EntryView>, b: Seq<EntryView>)
    ensures
        resolve::static_suggestions(a + b) == resolve::static_suggestions(a)
            + resolve::static_suggestions(b),
    decreases b.len(),
{
    if b.len() == 0 {
        assert(a + b =~= a);
        assert(resolve::static_suggestions(a) + resolve::static_suggestions(b)
            =~= resolve::static_suggestions(a));
    } else {
        lemma_values(a, b.drop_last());
        assert((a + b).drop_last() =~= a + b.drop_last());
        assert((a + b).last() == b.last());
        assert(resolve::static_suggestions(a + b) =~= resolve::static_suggestions(a)
            + resolve::static_suggestions(b));
    }
}

proof fn lemma_one_value(e: EntryView)
    ensures
        resolve::static_suggestions(seq![e]) == resolve::entry_suggestions(e),
{
    assert(seq![e].drop_last() =~= Seq::empty());
    assert(resolve::static_suggestions(seq![e].drop_last()) =~= Seq::empty());
    assert(resolve::static_suggestions(seq![e]) =~= resolve::entry_suggestions(e));
}

/// A value that is a bare text is suggested as it stands, unless it is blank.
pub proof fn law_plain_value(s: Seq<char>)
    ensures
        text::is_blank(s) ==> resolve::static_suggestions(seq![EntryView::Plain(s)]).len() == 0,
        !text::is_blank(s) ==> resolve::static_suggestions(seq![EntryView::Plain(s)]) == seq![
            (SuggestionView {
                text: s,
                description: None,
                kind: SuggestionKind::EnumValue,
                source: SuggestionSource::Spec,
                priority: None,
            }),
        ],
{
    lemma_one_value(EntryView::Plain(s));
}

/// A value that is an object is suggested under each of its names, with its
/// own description and priority. A hidden one, one without a name and one with
/// a blank name are not suggested at all.
pub proof fn law_object_value(o: ObjectView, k: int)
    ensures
        o.hidden ==> resolve::static_suggestions(seq![EntryView::Object(o)]).len() == 0,
        o.name.len() == 0 ==> resolve::static_suggestions(seq![EntryView::Object(o)]).len() == 0,
        0 <= k < o.name.len() && text::is_blank(o.name[k]) ==> resolve::static_suggestions(
            seq![EntryView::Object(o)],
        ).len() == 0,
        !o.hidden && 0 <= k < o.name.len() && (forall|j: int|
            0 <= j < o.name.len() ==> !text::is_blank(#[trigger] o.name[j])) ==> ({
            let r = resolve::static_suggestions(seq![EntryView::Object(o)]);
            r.len() == o.name.len() && r[k].text == o.name[k] && r[k].description == o.description
                && r[k].priority == o.priority && r[k].source == SuggestionSource::Spec
                && r[k].kind == resolve::kind_of_type(o.kind)
        }),
{
    lemma_one_value(EntryView::Object(o));
}

/// The four `type` strings that name a kind give that kind. Any other, and
/// none at all, gives a value of a list.
pub proof fn law_kind_of_type(t: Seq<char>)
    ensures
        resolve::kind_of_type(Some("subcommand"@)) == SuggestionKind::Subcommand,
        resolve::kind_of_type(Some("option"@)) == SuggestionKind::Flag,
        resolve::kind_of_type(Some("file"@)) == SuggestionKind::FilePath,
        resolve::kind_of_type(Some("folder"@)) == SuggestionKind::Directory,
        resolve::kind_of_type(None) == SuggestionKind::EnumValue,
        t != "subcommand"@ && t != "option"@ && t != "file"@ && t != "folder"@
            ==> resolve::kind_of_type(Some(t)) == SuggestionKind::EnumValue,
{
    reveal_strlit("subcommand");
    reveal_strlit("option");
    reveal_strlit("file");
    reveal_strlit("folder");
    assert("subcommand"@.len() == 10);
    assert("option"@.len() == 6);
    assert("file"@.len() == 4);
    assert("folder"@.len() == 6);
    assert("folder"@[0] == 'f');
    assert("option"@[0] == 'o');
}

// ---------------------------------------------------------------------------
// Generators
// ---------------------------------------------------------------------------
/// A generator that needs JavaScript which cannot be run counts for nothing.
pub proof fn law_unsupported_generator(c: Collected, g: GeneratorView)
    requires
        g.requires_js,
    ensures
        g.js_runtime is None ==> resolve::with_generator(c, g) == c,
        g.js_runtime matches Some(rt) ==> rt.kind == JsRuntimeKind::PostProcess && g.script is None
            && g.script_template is None ==> resolve::with_generator(c, g) == c,
        g.js_runtime matches Some(rt) ==> rt.kind != JsRuntimeKind::PostProcess && (
        !rt.self_contained || text::is_blank(rt.source)) ==> resolve::with_generator(c, g) == c,
{
}

/// Whether a generator can be run as far as JavaScript goes: it needs none, or
/// has a body that works on the output of a script, or on its own.
pub open spec fn can_run(g: GeneratorView) -> bool {
    ||| !g.requires_js
    ||| g.js_runtime matches Some(rt) && rt.kind == JsRuntimeKind::PostProcess && (g.script is Some
        || g.script_template is Some)
    ||| g.js_runtime matches Some(rt) && rt.kind != JsRuntimeKind::PostProcess && rt.self_contained
        && !text::is_blank(rt.source)
}

/// A generator of a provider's type asks that provider and nothing else.
pub proof fn law_provider_generator(c: Collected, g: GeneratorView, k: ProviderKind)
    requires
        can_run(g),
        g.generator_type == Some(kind::type_text(k)),
    ensures
        resolve::with_generator(c, g).provider == c.provider.push(k),
        resolve::with_generator(c, g).native == c.native,
        resolve::with_generator(c, g).script == c.script,
        resolve::with_generator(c, g).statics == c.statics,
{
    kind::law_kind_round_trip(k, kind::type_text(k));
}

/// A generator of any other type is noted under that type. Its script runs as
/// well, unless the type is one that is served without a provider.
pub proof fn law_typed_generator(c: Collected, g: GeneratorView, t: Seq<char>)
    requires
        can_run(g),
        g.generator_type == Some(t),
        forall|k: ProviderKind| #[trigger] kind::type_text(k) != t,
    ensures
        resolve::with_generator(c, g).native == c.native.push(t),
        resolve::with_generator(c, g).provider == c.provider,
        resolve::with_generator(c, g).statics == c.statics,
        t == "git_branches"@ || t == "git_tags"@ || t == "git_remotes"@ || t == "git_files"@ || t
            == "filepaths"@ || t == "folders"@ ==> resolve::with_generator(c, g).script == c.script,
        t != "git_branches"@ && t != "git_tags"@ && t != "git_remotes"@ && t != "git_files"@ && t
            != "filepaths"@ && t != "folders"@ && (g.script is Some || g.script_template is Some)
            ==> resolve::with_generator(c, g).script == c.script.push(g),
        t != "git_branches"@ && t != "git_tags"@ && t != "git_remotes"@ && t != "git_files"@ && t
            != "filepaths"@ && t != "folders"@ && g.requires_js ==> resolve::with_generator(
            c,
            g,
        ).script == c.script.push(g),
{
    assert(kind::kind_named(t) is None) by {
        if let Some(k) = kind::kind_named(t) {
            kind::law_kind_round_trip(k, t);
        }
    }
}

/// A generator without a type runs, if it has anything to run.
pub proof fn law_untyped_generator(c: Collected, g: GeneratorView)
    requires
        can_run(g),
        g.generator_type is None,
    ensures
        resolve::with_generator(c, g).provider == c.provider,
        resolve::with_generator(c, g).native == c.native,
        resolve::with_generator(c, g).statics == c.statics,
        g.script is Some || g.script_template is Some || g.requires_js ==> resolve::with_generator(
            c,
            g,
        ).script == c.script.push(g),
        g.script is None && g.script_template is None && !g.requires_js ==> resolve::with_generator(
            c,
            g,
        ).script == c.script,
{
}

/// A template asks for paths or for folders, and no other template asks for
/// either. What was asked for before stays.
pub proof fn law_generator_template(c: Collected, g: GeneratorView)
    requires
        can_run(g),
    ensures
        resolve::with_generator(c, g).filepaths <==> c.filepaths || g.template == Some(
            "filepaths"@,
        ),
        resolve::with_generator(c, g).folders <==> c.folders || g.template == Some("folders"@),
{
}

/// Generators count one after another.
pub proof fn law_generators_apart(c: Collected, a: Seq<GeneratorView>, b: Seq<GeneratorView>)
    ensures
        resolve::with_generators(c, a + b) == resolve::with_generators(
            resolve::with_generators(c, a),
            b,
        ),
    decreases b.len(),
{
    if b.len() == 0 {
        assert(a + b =~= a);
    } else {
        law_generators_apart(c, a, b.drop_last());
        assert((a + b).drop_last() =~= a + b.drop_last());
        assert((a + b).last() == b.last());
    }
}

// ---------------------------------------------------------------------------
// Arguments
// ---------------------------------------------------------------------------
proof fn lemma_generators_statics(c: Collected, gs: Seq<GeneratorView>)
    ensures
        resolve::with_generators(c, gs).statics == c.statics,
    decreases gs.len(),
{
    if gs.len() > 0 {
        lemma_generators_statics(c, gs.drop_last());
    }
}

/// An argument adds its listed values behind those that are there, its
/// generators in order, and the wish of its template.
pub proof fn law_argument(c: Collected, a: ArgView)
    ensures
        resolve::with_arg(c, a).statics == c.statics + resolve::static_suggestions(a.suggestions),
        resolve::with_arg(c, a).provider == resolve::with_generators(c, a.generators).provider,
        resolve::with_arg(c, a).native == resolve::with_generators(c, a.generators).native,
        resolve::with_arg(c, a).script == resolve::with_generators(c, a.generators).script,
        a.template == Some("filepaths"@) ==> resolve::with_arg(c, a).filepaths,
        a.template == Some("folders"@) ==> resolve::with_arg(c, a).folders,
        a.template is None ==> resolve::with_arg(c, a).filepaths == resolve::with_generators(
            c,
            a.generators,
        ).filepaths && resolve::with_arg(c, a).folders == resolve::with_generators(
            c,
            a.generators,
        ).folders,
{
    lemma_generators_statics(c, a.generators);
}

/// Arguments count one after another.
pub proof fn law_arguments_apart(c: Collected, v: Seq<ArgView>, a: ArgView, w: Seq<ArgView>)
    ensures
        resolve::with_args(c, v + seq![a] + w) == resolve::with_args(
            resolve::with_arg(resolve::with_args(c, v), a),
            w,
        ),
    decreases w.len(),
{
    let all = v + seq![a] + w;
    if w.len() == 0 {
        assert(all =~= v.push(a));
        assert(all.drop_last() =~= v);
    } else {
        law_arguments_apart(c, v, a, w.drop_last());
        assert(all.drop_last() =~= v + seq![a] + w.drop_last());
        assert(all.last() == w.last());
    }
}

/// An option argument that says anything about its values has the word at the
/// cursor to itself: the positional arguments make no difference.
pub proof fn law_option_argument_alone(p: Position, q: Position, a: ArgView)
    requires
        a.generators.len() > 0 || a.suggestions.len() > 0 || a.template == Some("filepaths"@)
            || a.template == Some("folders"@),
    ensures
        resolve::collected(p, Some(a)) == resolve::collected(q, Some(a)),
        resolve::collected(p, Some(a)).statics == resolve::static_suggestions(a.suggestions),
        a.template == Some("filepaths"@) ==> resolve::collected(p, Some(a)).filepaths,
        a.template == Some("folders"@) ==> resolve::collected(p, Some(a)).folders,
{
    law_argument(resolve::nothing(), a);
    assert(Seq::<SuggestionView>::empty() + resolve::static_suggestions(a.suggestions)
        =~= resolve::static_suggestions(a.suggestions));
}

/// Without an option argument, or with one that says nothing, the positional
/// arguments have their say.
pub proof fn law_positional_arguments(p: Position, a: ArgView)
    requires
        a.generators.len() == 0,
        a.suggestions.len() == 0,
        a.template is None,
    ensures
        resolve::collected(p, Some(a)) == resolve::collected(p, None),
        p.args.len() == 0 ==> resolve::collected(p, None).statics.len() == 0 && resolve::collected(
            p,
            None,
        ).provider.len() == 0 && resolve::collected(p, None).native.len() == 0
            && resolve::collected(p, None).script.len() == 0 && !resolve::collected(
            p,
            None,
        ).filepaths && !resolve::collected(p, None).folders,
{
    assert(a.suggestions =~= Seq::empty());
    assert(a.generators =~= Seq::empty());
    assert(resolve::with_arg(resolve::nothing(), a) =~= resolve::nothing());
}

/// The listed values of every positional argument are suggested, in order.
pub proof fn law_positional_values(p: Position, v: Seq<ArgView>, a: ArgView, w: Seq<ArgView>)
    requires
        p.args == v + seq![a] + w,
    ensures
        exists|front: Seq<SuggestionView>, back: Seq<SuggestionView>|
            resolve::collected(p, None).statics == #[trigger] (front
                + resolve::static_suggestions(a.suggestions) + back),
{
    let c = resolve::nothing();
    law_arguments_apart(c, v, a, w);
    let mid = resolve::with_args(c, v);
    law_argument(mid, a);
    let d = resolve::with_arg(mid, a);
    let back = lemma_args_statics(d, w);
    assert(resolve::collected(p, None).statics =~= mid.statics + resolve::static_suggestions(
        a.suggestions,
    ) + back);
}

proof fn lemma_args_statics(c: Collected, v: Seq<ArgView>) -> (back: Seq<SuggestionView>)
    ensures
        resolve::with_args(c, v).statics == c.statics + back,
    decreases v.len(),
{
    if v.len() == 0 {
        assert(c.statics + Seq::<SuggestionView>::empty() =~= c.statics);
        Seq::empty()
    } else {
        let b = lemma_args_statics(c, v.drop_last());
        law_argument(resolve::with_args(c, v.drop_last()), v.last());
        let r = b + resolve::static_suggestions(v.last().suggestions);
        assert(resolve::with_args(c, v).statics =~= c.statics + r);
        r
    }
}

/// One positional argument more counts behind the others, beside an option
/// argument that says nothing too.
pub proof fn law_next_argument(p: Position, a: ArgView, b: ArgView)
    requires
        b.generators.len() == 0,
        b.suggestions.len() == 0,
        b.template != Some("filepaths"@),
        b.template != Some("folders"@),
    ensures
        resolve::collected((Position { args: p.args.push(a), ..p }), None) == resolve::with_arg(
            resolve::collected(p, None),
            a,
        ),
        resolve::collected((Position { args: p.args.push(a), ..p }), Some(b)) == resolve::with_arg(
            resolve::collected(p, None),
            a,
        ),
        resolve::collected(p, Some(b)) == resolve::collected(p, None),
{
    assert(p.args.push(a).drop_last() =~= p.args);
    assert(b.suggestions =~= Seq::empty());
    assert(b.generators =~= Seq::empty());
    assert(resolve::with_arg(resolve::nothing(), b) =~= resolve::nothing());
}

} // verus!
