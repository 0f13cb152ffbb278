//! What stands between a spec file and the rest of the program: a cap on its
//! nesting, and the removal of control characters.
use crate::specs::model;
use crate::specs::model::{
    ArgSpec, ArgView, CompletionSpec, CompletionSpecView, EntryView, ObjectView, OptionSpec,
    OptionView, SubcommandSpec, SubcommandView, SuggestionEntry, SuggestionObject,
};
use crate::specs::tree;
use crate::text;
use vstd::prelude::*;
use vstd::string::*;

verus! {

/// The deepest nesting that a spec file may have.
pub const MAX_SPEC_JSON_DEPTH: usize = 32;

// ---------------------------------------------------------------------------
// Nesting
// ---------------------------------------------------------------------------
/// Where a scan of JSON text stands.
pub struct Scan {
    /// How many brackets are open.
    pub depth: nat,
    pub in_string: bool,
    /// Whether the next character of the string is escaped.
    pub escape: bool,
}

pub open spec fn scan_step(st: Scan, c: char) -> Scan {
    if st.in_string {
        if st.escape {
            Scan { escape: false, ..st }
        } else if c == '\\' {
            Scan { escape: true, ..st }
        } else if c == '"' {
            Scan { in_string: false, ..st }
        } else {
            st
        }
    } else if c == '"' {
        Scan { in_string: true, ..st }
    } else if c == '{' || c == '[' {
        Scan { depth: st.depth + 1, ..st }
    } else if (c == '}' || c == ']') && st.depth > 0 {
        Scan { depth: (st.depth - 1) as nat, ..st }
    } else {
        st
    }
}

/// The scan after the first `n` characters.
pub open spec fn scan(s: Seq<char>, n: int) -> Scan
    decreases n,
{
    if n <= 0 {
        Scan { depth: 0, in_string: false, escape: false }
    } else {
        scan_step(scan(s, n - 1), s[n - 1])
    }
}

/// Whether more than `max` brackets are open at some point, those inside
/// strings not counted.
pub open spec fn too_deep(s: Seq<char>, max: nat) -> bool {
    exists|n: int| 0 <= n <= s.len() && (#[trigger] scan(s, n)).depth > max
}

/// The words for a spec that is nested too deeply.
pub open spec fn depth_message(max: nat) -> Seq<char> {
    "spec exceeds maximum JSON nesting depth of "@ + text::decimal(max)
        + "; this is almost certainly a malformed or malicious spec"@
}

/// Refuses text that nests brackets deeper than `max_depth`.
pub fn check_json_depth(src: &str, max_depth: usize) -> (r: Result<(), String>)
    ensures
        match r {
            Ok(_) => !too_deep(src@, max_depth as nat),
            Err(e) => too_deep(src@, max_depth as nat) && e@ == depth_message(max_depth as nat),
        },
{
    let x = text::chars_of(src);
    let mut depth: usize = 0;
    let mut in_string = false;
    let mut escape = false;
    let mut i: usize = 0;
    while i < x.len()
        invariant
            x@ == src@,
            i <= x.len(),
            depth <= i,
            depth <= max_depth,
            scan(src@, i as int) == (Scan { depth: depth as nat, in_string, escape }),
            forall|n: int| 0 <= n <= i ==> (#[trigger] scan(src@, n)).depth <= max_depth,
        decreases x.len() - i,
    {
        let c = x[i];
        let ghost st = scan(src@, i as int);
        assert(scan(src@, i + 1) == scan_step(st, c));
        if in_string {
            if escape {
                escape = false;
            } else if c == '\\' {
                escape = true;
            } else if c == '"' {
                in_string = false;
            }
        } else if c == '"' {
            in_string = true;
        } else if c == '{' || c == '[' {
            if depth >= max_depth {
                assert(scan(src@, i + 1).depth > max_depth);
                let mut e = "spec exceeds maximum JSON nesting depth of ".to_owned();
                e.append(&text::decimal_of(max_depth as u64));
                e.append("; this is almost certainly a malformed or malicious spec");
                return Err(e);
            }
            depth += 1;
        } else if c == '}' || c == ']' {
            depth = depth.saturating_sub(1);
        }
        i += 1;
    }
    Ok(())
}

// ---------------------------------------------------------------------------
// Control characters
// ---------------------------------------------------------------------------
/// The text without its control characters.
pub open spec fn clean(s: Seq<char>) -> Seq<char> {
    s.filter(|c: char| !text::is_control(c))
}

/// Whether a control character occurs.
pub open spec fn has_control(s: Seq<char>) -> bool {
    exists|i: int| 0 <= i < s.len() && text::is_control(#[trigger] s[i])
}

/// Cleaning leaves no control character, and a clean text as it is. Cleaning
/// twice is cleaning once.
pub proof fn law_clean(s: Seq<char>)
    ensures
        !has_control(clean(s)),
        !has_control(s) ==> clean(s) == s,
        clean(clean(s)) == clean(s),
    decreases s.len(),
{
    reveal(Seq::filter);
    lemma_clean(s);
    lemma_clean(clean(s));
}

proof fn lemma_clean(s: Seq<char>)
    ensures
        !has_control(clean(s)),
        !has_control(s) ==> clean(s) == s,
    decreases s.len(),
{
    reveal(Seq::filter);
    if s.len() > 0 {
        let d = s.drop_last();
        lemma_clean(d);
        assert(s[s.len() - 1] == s.last());
        if !has_control(s) {
            assert forall|i: int| 0 <= i < d.len() implies !text::is_control(#[trigger] d[i]) by {
                assert(d[i] == s[i]);
            }
            assert(!text::is_control(s.last()));
            assert(d.push(s.last()) =~= s);
        }
        assert forall|i: int| 0 <= i < clean(s).len() implies !text::is_control(
            #[trigger] clean(s)[i],
        ) by {
            if i < clean(d).len() {
                assert(clean(s)[i] == clean(d)[i]);
            }
        }
    }
}

/// The text without its control characters.
pub fn sanitize_text(s: &str) -> (r: String)
    ensures
        r@ == clean(s@),
{
    let x = text::chars_of(s);
    let mut out = String::new();
    let mut i: usize = 0;
    proof {
        reveal(Seq::filter);
        assert(s@.take(0) =~= Seq::empty());
    }
    while i < x.len()
        invariant
            x@ == s@,
            i <= x.len(),
            out@ == clean(s@.take(i as int)),
        decreases x.len() - i,
    {
        proof {
            reveal(Seq::filter);
            assert(s@.take(i + 1).drop_last() =~= s@.take(i as int));
        }
        if !text::char_is_control(x[i]) {
            out.push(x[i]);
        }
        i += 1;
    }
    assert(s@.take(s@.len() as int) =~= s@);
    out
}

/// Whether a control character occurs.
pub fn has_control_char(s: &str) -> (r: bool)
    ensures
        r == has_control(s@),
{
    let x = text::chars_of(s);
    let mut i: usize = 0;
    while i < x.len()
        invariant
            x@ == s@,
            i <= x.len(),
            forall|j: int| 0 <= j < i ==> !text::is_control(#[trigger] x@[j]),
        decreases x.len() - i,
    {
        if text::char_is_control(x[i]) {
            return true;
        }
        i += 1;
    }
    false
}

pub open spec fn clean_opt(o: Option<Seq<char>>) -> Option<Seq<char>> {
    match o {
        Some(s) => Some(clean(s)),
        None => None,
    }
}

pub open spec fn clean_all(v: Seq<Seq<char>>) -> Seq<Seq<char>> {
    v.map_values(|s: Seq<char>| clean(s))
}

pub open spec fn clean_object(o: ObjectView) -> ObjectView {
    ObjectView { name: clean_all(o.name), description: clean_opt(o.description), ..o }
}

pub open spec fn clean_entry(e: EntryView) -> EntryView {
    match e {
        EntryView::Plain(s) => EntryView::Plain(clean(s)),
        EntryView::Object(o) => EntryView::Object(clean_object(o)),
    }
}

pub open spec fn clean_arg(a: ArgView) -> ArgView {
    ArgView {
        name: clean_opt(a.name),
        description: clean_opt(a.description),
        suggestions: a.suggestions.map_values(|e: EntryView| clean_entry(e)),
        ..a
    }
}

pub open spec fn clean_args(v: Seq<ArgView>) -> Seq<ArgView> {
    v.map_values(|a: ArgView| clean_arg(a))
}

pub open spec fn clean_option(o: OptionView) -> OptionView {
    OptionView {
        name: clean_all(o.name),
        description: clean_opt(o.description),
        args: match o.args {
            Some(a) => Some(clean_arg(a)),
            None => None,
        },
        extra_args: clean_args(o.extra_args),
        ..o
    }
}

pub open spec fn clean_options(v: Seq<OptionView>) -> Seq<OptionView> {
    v.map_values(|o: OptionView| clean_option(o))
}

/// One subcommand, not looking at those below it.
pub open spec fn clean_node(t: SubcommandView) -> SubcommandView {
    SubcommandView {
        name: clean(t.name),
        description: clean_opt(t.description),
        options: clean_options(t.options),
        args: clean_args(t.args),
        ..t
    }
}

/// The spec with every text that a user may see cleaned, at every depth.
pub open spec fn clean_spec(s: CompletionSpecView) -> CompletionSpecView {
    CompletionSpecView {
        name: clean(s.name),
        description: clean_opt(s.description),
        subcommands: tree::map_forest(|t: SubcommandView| clean_node(t), s.subcommands),
        options: clean_options(s.options),
        args: clean_args(s.args),
    }
}

pub fn sanitize_string(s: &mut String)
    ensures
        final(s)@ == clean(old(s)@),
{
    proof {
        law_clean(s@);
    }
    if has_control_char(s) {
        *s = sanitize_text(s);
    }
}

pub fn sanitize_opt(o: &mut Option<String>)
    ensures
        text::opt_view(*final(o)) == clean_opt(text::opt_view(*old(o))),
{
    if let Some(s) = o {
        sanitize_string(s);
    }
}

fn sanitize_all(v: &mut Vec<String>)
    ensures
        text::views(final(v)@) == clean_all(text::views(old(v)@)),
{
    let ghost before = v@;
    let mut i: usize = 0;
    while i < v.len()
        invariant
            i <= v.len(),
            v.len() == before.len(),
            forall|j: int| 0 <= j < i ==> (#[trigger] v@[j])@ == clean(before[j]@),
            forall|j: int| i <= j < v.len() ==> #[trigger] v@[j] == before[j],
        decreases v.len() - i,
    {
        sanitize_string(&mut v[i]);
        i += 1;
    }
    assert(text::views(v@) =~= clean_all(text::views(before)));
}

fn sanitize_suggestion_object(o: &mut SuggestionObject)
    ensures
        final(o)@ == clean_object(old(o)@),
{
    sanitize_opt(&mut o.description);
    sanitize_all(&mut o.name);
}

fn sanitize_entry(e: &mut SuggestionEntry)
    ensures
        final(e)@ == clean_entry(old(e)@),
{
    match e {
        SuggestionEntry::Plain(s) => sanitize_string(s),
        SuggestionEntry::Object(o) => sanitize_suggestion_object(o),
    }
}

fn sanitize_arg_spec(a: &mut ArgSpec)
    ensures
        final(a)@ == clean_arg(old(a)@),
{
    let ghost start = *a;
    sanitize_opt(&mut a.name);
    sanitize_opt(&mut a.description);
    let ghost before = a.suggestions@;
    let mut i: usize = 0;
    let ghost mid = *a;
    while i < a.suggestions.len()
        invariant
            i <= a.suggestions.len(),
            a.suggestions.len() == before.len(),
            a.name == mid.name,
            a.description == mid.description,
            a.generators == mid.generators,
            a.template == mid.template,
            a.is_optional == mid.is_optional,
            a.is_variadic == mid.is_variadic,
            forall|j: int|
                0 <= j < i ==> (#[trigger] a.suggestions@[j])@ == clean_entry(before[j]@),
            forall|j: int|
                i <= j < before.len() ==> #[trigger] a.suggestions@[j] == before[j],
        decreases a.suggestions.len() - i,
    {
        sanitize_entry(&mut a.suggestions[i]);
        i += 1;
    }
    assert(a@.suggestions =~= start@.suggestions.map_values(|e: EntryView| clean_entry(e)));
}

fn sanitize_args(v: &mut Vec<ArgSpec>)
    ensures
        model::arg_views(final(v)@) == clean_args(model::arg_views(old(v)@)),
{
    let ghost before = v@;
    let mut i: usize = 0;
    while i < v.len()
        invariant
            i <= v.len(),
            v.len() == before.len(),
            forall|j: int| 0 <= j < i ==> (#[trigger] v@[j])@ == clean_arg(before[j]@),
            forall|j: int| i <= j < v.len() ==> #[trigger] v@[j] == before[j],
        decreases v.len() - i,
    {
        sanitize_arg_spec(&mut v[i]);
        i += 1;
    }
    assert(model::arg_views(v@) =~= clean_args(model::arg_views(before)));
}

fn sanitize_option_spec(o: &mut OptionSpec)
    ensures
        final(o)@ == clean_option(old(o)@),
{
    sanitize_opt(&mut o.description);
    sanitize_all(&mut o.name);
    if let Some(a) = &mut o.args {
        sanitize_arg_spec(a);
    }
    sanitize_args(&mut o.extra_args);
}

fn sanitize_options(v: &mut Vec<OptionSpec>)
    ensures
        model::option_views(final(v)@) == clean_options(model::option_views(old(v)@)),
{
    let ghost before = v@;
    let mut i: usize = 0;
    while i < v.len()
        invariant
            i <= v.len(),
            v.len() == before.len(),
            forall|j: int| 0 <= j < i ==> (#[trigger] v@[j])@ == clean_option(before[j]@),
            forall|j: int| i <= j < v.len() ==> #[trigger] v@[j] == before[j],
        decreases v.len() - i,
    {
        sanitize_option_spec(&mut v[i]);
        i += 1;
    }
    assert(model::option_views(v@) =~= clean_options(model::option_views(before)));
}

fn sanitize_node(t: &mut SubcommandSpec)
    ensures
        final(t)@ == clean_node(old(t)@),
{
    let ghost before = *t;
    sanitize_string(&mut t.name);
    sanitize_opt(&mut t.description);
    sanitize_args(&mut t.args);
    sanitize_options(&mut t.options);
    proof {
        model::lemma_sub_view(before);
        model::lemma_sub_view(*t);
    }
}

/// Strips the control characters from every text of the spec that a user may
/// see.
pub fn sanitize_spec_strings(spec: &mut CompletionSpec)
    ensures
        final(spec)@ == clean_spec(old(spec)@),
{
    sanitize_string(&mut spec.name);
    sanitize_opt(&mut spec.description);
    sanitize_args(&mut spec.args);
    sanitize_options(&mut spec.options);
    let ghost forest = model::sub_views(spec.subcommands@);
    let ghost f = |t: SubcommandView| clean_node(t);
    let mut subs: Vec<SubcommandSpec> = Vec::new();
    std::mem::swap(&mut subs, &mut spec.subcommands);
    let (mut nodes, Ghost(states)) = tree::detach(subs);
    let ghost before = nodes@;
    let mut i: usize = 0;
    while i < nodes.len()
        invariant
            i <= nodes.len(),
            nodes.len() == before.len(),
            f == (|t: SubcommandView| clean_node(t)),
            forall|j: int|
                0 <= j < i ==> (#[trigger] nodes@[j]).node@ == f(before[j].node@)
                    && nodes@[j].children == before[j].children,
            forall|j: int| i <= j < nodes.len() ==> #[trigger] nodes@[j] == before[j],
        decreases nodes.len() - i,
    {
        sanitize_node(&mut nodes[i].node);
        i += 1;
    }
    spec.subcommands = tree::attach(nodes, Ghost(states), Ghost(before), Ghost(f));
}

} // verus!
