//! An estimate of the heap memory that a spec holds: the bytes of its texts
//! and the room of its vectors.
use crate::specs::model;
use crate::specs::model::{
    ArgSpec, ArgView, CompletionSpec, CompletionSpecView, EntryView, GeneratorSpec, GeneratorView,
    OptionSpec, OptionView, ParameterizedTransform, SubcommandSpec, SubcommandView,
    SuggestionEntry, Transform, TransformView,
};
use crate::specs::tree;
use crate::text;
use vstd::prelude::*;

verus! {

/// A sum as far as a `usize` can hold it.
pub open spec fn capped(n: nat) -> nat {
    if n > usize::MAX {
        usize::MAX as nat
    } else {
        n
    }
}

// ---------------------------------------------------------------------------
// Texts
// ---------------------------------------------------------------------------
/// The bytes of a text.
pub open spec fn text_len(s: Seq<char>) -> nat {
    vstd::utf8::encode_utf8(s).len()
}

pub open spec fn opt_len(o: Option<Seq<char>>) -> nat {
    match o {
        Some(s) => text_len(s),
        None => 0,
    }
}

pub open spec fn texts_len(v: Seq<Seq<char>>) -> nat
    decreases v.len(),
{
    if v.len() == 0 {
        0
    } else {
        texts_len(v.drop_last()) + text_len(v.last())
    }
}

pub open spec fn opt_texts_len(o: Option<Seq<Seq<char>>>) -> nat {
    match o {
        Some(v) => texts_len(v),
        None => 0,
    }
}

/// The texts of a transform that count. Compiled patterns and paths do not.
pub open spec fn transform_len(t: TransformView) -> nat {
    match t {
        TransformView::SplitOn { delimiter } => text_len(delimiter),
        TransformView::ErrorGuard { starts_with, contains } => opt_len(starts_with) + opt_len(
            contains,
        ),
        TransformView::Suffix { value } => text_len(value),
        TransformView::JsonExtractArray { split_on, .. } => opt_len(split_on),
        _ => 0,
    }
}

pub open spec fn transforms_len(v: Seq<TransformView>) -> nat
    decreases v.len(),
{
    if v.len() == 0 {
        0
    } else {
        transforms_len(v.drop_last()) + transform_len(v.last())
    }
}

pub open spec fn generator_len(g: GeneratorView) -> nat {
    opt_len(g.generator_type) + opt_texts_len(g.script) + opt_texts_len(g.script_template) + opt_len(
        g.js_source,
    ) + (match g.js_runtime {
        Some(rt) => text_len(rt.source),
        None => 0,
    }) + opt_len(g.template) + transforms_len(g.transforms)
}

pub open spec fn generators_len(v: Seq<GeneratorView>) -> nat
    decreases v.len(),
{
    if v.len() == 0 {
        0
    } else {
        generators_len(v.drop_last()) + generator_len(v.last())
    }
}

pub open spec fn entry_len(e: EntryView) -> nat {
    match e {
        EntryView::Plain(s) => text_len(s),
        EntryView::Object(o) => texts_len(o.name) + opt_len(o.description) + opt_len(o.kind),
    }
}

pub open spec fn entries_len(v: Seq<EntryView>) -> nat
    decreases v.len(),
{
    if v.len() == 0 {
        0
    } else {
        entries_len(v.drop_last()) + entry_len(v.last())
    }
}

pub open spec fn arg_len(a: ArgView) -> nat {
    opt_len(a.name) + opt_len(a.description) + generators_len(a.generators) + opt_len(a.template)
        + entries_len(a.suggestions)
}

pub open spec fn args_len(v: Seq<ArgView>) -> nat
    decreases v.len(),
{
    if v.len() == 0 {
        0
    } else {
        args_len(v.drop_last()) + arg_len(v.last())
    }
}

pub open spec fn option_len(o: OptionView) -> nat {
    texts_len(o.name) + opt_len(o.description) + (match o.args {
        Some(a) => arg_len(a),
        None => 0,
    }) + args_len(o.extra_args)
}

pub open spec fn options_len(v: Seq<OptionView>) -> nat
    decreases v.len(),
{
    if v.len() == 0 {
        0
    } else {
        options_len(v.drop_last()) + option_len(v.last())
    }
}

pub open spec fn node_len(t: SubcommandView) -> nat {
    text_len(t.name) + opt_len(t.description) + args_len(t.args) + options_len(t.options)
}

/// The texts of subcommands, down to their leaves.
pub open spec fn forest_len(ts: Seq<SubcommandView>) -> nat
    decreases ts,
{
    if ts.len() == 0 {
        0
    } else {
        let t = ts[ts.len() - 1];
        node_len(t) + forest_len(t.subcommands) + forest_len(ts.drop_last())
    }
}

/// The bytes of all texts of a spec that count.
pub open spec fn spec_len(s: CompletionSpecView) -> nat {
    text_len(s.name) + opt_len(s.description) + args_len(s.args) + options_len(s.options)
        + forest_len(s.subcommands)
}

proof fn lemma_forest_len(a: Seq<SubcommandView>, b: Seq<SubcommandView>)
    ensures
        forest_len(a + b) == forest_len(a) + forest_len(b),
    decreases b.len(),
{
    if b.len() == 0 {
        assert(a + b =~= a);
    } else {
        lemma_forest_len(a, b.drop_last());
        assert((a + b).drop_last() =~= a + b.drop_last());
        assert((a + b)[(a + b).len() - 1] == b[b.len() - 1]);
    }
}

/// A sum under construction.
struct Tally {
    total: usize,
    exact: Ghost<nat>,
}

impl Tally {
    spec fn wf(self) -> bool {
        self.total == capped(self.exact@)
    }

    fn add_bytes(&mut self, n: usize)
        requires
            old(self).wf(),
        ensures
            final(self).wf(),
            final(self).exact@ == old(self).exact@ + n,
    {
        let ghost e: nat = self.exact@ + n as nat;
        self.total = self.total.saturating_add(n);
        self.exact = Ghost(e);
    }

    fn text(&mut self, s: &str)
        requires
            old(self).wf(),
        ensures
            final(self).wf(),
            final(self).exact@ == old(self).exact@ + text_len(s@),
    {
        self.add_bytes(s.as_bytes().len());
    }

    fn opt(&mut self, o: &Option<String>)
        requires
            old(self).wf(),
        ensures
            final(self).wf(),
            final(self).exact@ == old(self).exact@ + opt_len(text::opt_view(*o)),
    {
        if let Some(s) = o {
            self.text(s);
        }
    }

    fn texts(&mut self, v: &Vec<String>)
        requires
            old(self).wf(),
        ensures
            final(self).wf(),
            final(self).exact@ == old(self).exact@ + texts_len(text::views(v@)),
    {
        let ghost all = text::views(v@);
        let ghost e0 = self.exact@;
        let mut i: usize = 0;
        assert(all.take(0) =~= Seq::empty());
        while i < v.len()
            invariant
                i <= v.len(),
                self.wf(),
                all == text::views(v@),
                self.exact@ == e0 + texts_len(all.take(i as int)),
            decreases v.len() - i,
        {
            proof {
                assert(all.take(i + 1).drop_last() =~= all.take(i as int));
                assert(all.take(i + 1).last() == v@[i as int]@);
            }
            self.text(&v[i]);
            i += 1;
        }
        assert(all.take(all.len() as int) =~= all);
    }

    fn transform(&mut self, t: &Transform)
        requires
            old(self).wf(),
        ensures
            final(self).wf(),
            final(self).exact@ == old(self).exact@ + transform_len(t@),
    {
        if let Transform::Parameterized(p) = t {
            match p {
                ParameterizedTransform::SplitOn { delimiter } => self.text(delimiter),
                ParameterizedTransform::ErrorGuard { starts_with, contains } => {
                    self.opt(starts_with);
                    self.opt(contains);
                },
                ParameterizedTransform::Suffix { value } => self.text(value),
                ParameterizedTransform::JsonExtractArray { split_on, .. } => self.opt(split_on),
                _ => {},
            }
        }
    }

    fn generator(&mut self, g: &GeneratorSpec)
        requires
            old(self).wf(),
        ensures
            final(self).wf(),
            final(self).exact@ == old(self).exact@ + generator_len(g@),
    {
        self.opt(&g.generator_type);
        if let Some(v) = &g.script {
            self.texts(v);
        }
        if let Some(v) = &g.script_template {
            self.texts(v);
        }
        self.opt(&g.js_source);
        if let Some(rt) = &g.js_runtime {
            self.text(&rt.source);
        }
        self.opt(&g.template);
        let ghost all = g@.transforms;
        let ghost e0 = self.exact@;
        let mut i: usize = 0;
        assert(all.take(0) =~= Seq::empty());
        while i < g.transforms.len()
            invariant
                i <= g.transforms.len(),
                self.wf(),
                all == g.transforms@.map_values(|t: Transform| t@),
                self.exact@ == e0 + transforms_len(all.take(i as int)),
            decreases g.transforms.len() - i,
        {
            proof {
                assert(all.take(i + 1).drop_last() =~= all.take(i as int));
                assert(all.take(i + 1).last() == g.transforms@[i as int]@);
            }
            self.transform(&g.transforms[i]);
            i += 1;
        }
        assert(all.take(all.len() as int) =~= all);
    }

    fn entry(&mut self, e: &SuggestionEntry)
        requires
            old(self).wf(),
        ensures
            final(self).wf(),
            final(self).exact@ == old(self).exact@ + entry_len(e@),
    {
        match e {
            SuggestionEntry::Plain(s) => self.text(s),
            SuggestionEntry::Object(o) => {
                self.texts(&o.name);
                self.opt(&o.description);
                self.opt(&o.kind);
            },
        }
    }

    fn arg(&mut self, a: &ArgSpec)
        requires
            old(self).wf(),
        ensures
            final(self).wf(),
            final(self).exact@ == old(self).exact@ + arg_len(a@),
    {
        self.opt(&a.name);
        self.opt(&a.description);
        self.opt(&a.template);
        let ghost gens = a@.generators;
        let ghost e0 = self.exact@;
        let mut i: usize = 0;
        assert(gens.take(0) =~= Seq::empty());
        while i < a.generators.len()
            invariant
                i <= a.generators.len(),
                self.wf(),
                gens == a.generators@.map_values(|g: GeneratorSpec| g@),
                self.exact@ == e0 + generators_len(gens.take(i as int)),
            decreases a.generators.len() - i,
        {
            proof {
                assert(gens.take(i + 1).drop_last() =~= gens.take(i as int));
                assert(gens.take(i + 1).last() == a.generators@[i as int]@);
            }
            self.generator(&a.generators[i]);
            i += 1;
        }
        assert(gens.take(gens.len() as int) =~= gens);
        let ghost sugg = a@.suggestions;
        let ghost e1 = self.exact@;
        let mut k: usize = 0;
        assert(sugg.take(0) =~= Seq::empty());
        while k < a.suggestions.len()
            invariant
                k <= a.suggestions.len(),
                self.wf(),
                sugg == a.suggestions@.map_values(|e: SuggestionEntry| e@),
                self.exact@ == e1 + entries_len(sugg.take(k as int)),
            decreases a.suggestions.len() - k,
        {
            proof {
                assert(sugg.take(k + 1).drop_last() =~= sugg.take(k as int));
                assert(sugg.take(k + 1).last() == a.suggestions@[k as int]@);
            }
            self.entry(&a.suggestions[k]);
            k += 1;
        }
        assert(sugg.take(sugg.len() as int) =~= sugg);
    }

    fn args(&mut self, v: &Vec<ArgSpec>)
        requires
            old(self).wf(),
        ensures
            final(self).wf(),
            final(self).exact@ == old(self).exact@ + args_len(model::arg_views(v@)),
    {
        let ghost all = model::arg_views(v@);
        let ghost e0 = self.exact@;
        let mut i: usize = 0;
        assert(all.take(0) =~= Seq::empty());
        while i < v.len()
            invariant
                i <= v.len(),
                self.wf(),
                all == model::arg_views(v@),
                self.exact@ == e0 + args_len(all.take(i as int)),
            decreases v.len() - i,
        {
            proof {
                assert(all.take(i + 1).drop_last() =~= all.take(i as int));
                assert(all.take(i + 1).last() == v@[i as int]@);
            }
            self.arg(&v[i]);
            i += 1;
        }
        assert(all.take(all.len() as int) =~= all);
    }

    fn options(&mut self, v: &Vec<OptionSpec>)
        requires
            old(self).wf(),
        ensures
            final(self).wf(),
            final(self).exact@ == old(self).exact@ + options_len(model::option_views(v@)),
    {
        let ghost all = model::option_views(v@);
        let ghost e0 = self.exact@;
        let mut i: usize = 0;
        assert(all.take(0) =~= Seq::empty());
        while i < v.len()
            invariant
                i <= v.len(),
                self.wf(),
                all == model::option_views(v@),
                self.exact@ == e0 + options_len(all.take(i as int)),
            decreases v.len() - i,
        {
            let o = &v[i];
            proof {
                assert(all.take(i + 1).drop_last() =~= all.take(i as int));
                assert(all.take(i + 1).last() == o@);
            }
            self.texts(&o.name);
            self.opt(&o.description);
            if let Some(a) = &o.args {
                self.arg(a);
            }
            self.args(&o.extra_args);
            i += 1;
        }
        assert(all.take(all.len() as int) =~= all);
    }
}

/// References to the elements of a list.
fn refs(v: &Vec<SubcommandSpec>) -> (r: Vec<&SubcommandSpec>)
    ensures
        ref_views(r@) == model::sub_views(v@),
{
    let mut out: Vec<&SubcommandSpec> = Vec::new();
    push_refs(&mut out, v);
    assert(ref_views(out@) =~= model::sub_views(v@));
    out
}

fn push_refs<'a>(out: &mut Vec<&'a SubcommandSpec>, v: &'a Vec<SubcommandSpec>)
    ensures
        ref_views(final(out)@) == ref_views(old(out)@) + model::sub_views(v@),
{
    let ghost before = out@;
    let mut i: usize = 0;
    while i < v.len()
        invariant
            i <= v.len(),
            out.len() == before.len() + i,
            forall|j: int| 0 <= j < before.len() ==> #[trigger] out@[j] == before[j],
            forall|j: int|
                before.len() <= j < before.len() + i ==> *(#[trigger] out@[j]) == v@[j
                    - before.len()],
        decreases v.len() - i,
    {
        out.push(&v[i]);
        i += 1;
    }
    assert(ref_views(out@) =~= ref_views(before) + model::sub_views(v@));
}

/// The contents of a list of references.
pub open spec fn ref_views(v: Seq<&SubcommandSpec>) -> Seq<SubcommandView> {
    v.map_values(|t: &SubcommandSpec| t@)
}

/// The bytes of all texts of a spec that count, as far as a `usize` can hold
/// the sum.
pub fn text_bytes(spec: &CompletionSpec) -> (r: usize)
    ensures
        r == capped(spec_len(spec@)),
{
    let mut tally = Tally { total: 0, exact: Ghost(0) };
    tally.text(&spec.name);
    tally.opt(&spec.description);
    tally.args(&spec.args);
    tally.options(&spec.options);
    let mut stack = refs(&spec.subcommands);
    let ghost want = spec_len(spec@);
    while stack.len() > 0
        invariant
            tally.wf(),
            tally.exact@ + forest_len(ref_views(stack@)) == want,
        decreases tree::forest_size(ref_views(stack@)),
    {
        let ghost s = ref_views(stack@);
        if let Some(t) = stack.pop() {
            proof {
                assert(s[s.len() - 1] == t@);
                assert(s.drop_last() =~= ref_views(stack@));
                model::lemma_sub_view(*t);
                lemma_forest_len(s.drop_last(), t@.subcommands);
                tree::lemma_forest_size(s.drop_last(), t@.subcommands);
                assert(tree::forest_size(s) == tree::tree_size(t@) + tree::forest_size(
                    s.drop_last(),
                ));
                assert(tree::tree_size(t@) == 1 + tree::forest_size(t@.subcommands));
            }
            tally.text(&t.name);
            tally.opt(&t.description);
            tally.args(&t.args);
            tally.options(&t.options);
            push_refs(&mut stack, &t.subcommands);
        }
    }
    tally.total
}

// ---------------------------------------------------------------------------
// Vectors
// ---------------------------------------------------------------------------
/// The room of one vector.
#[derive(Debug, Clone, Copy)]
pub struct VecUse {
    /// How many elements it can hold without growing.
    pub capacity: usize,
    /// The size of an element in bytes.
    pub size: usize,
}

/// One vector: how many elements it holds, and their size.
#[verifier::ext_equal]
pub struct VecShape {
    pub len: nat,
    pub size: nat,
}

/// `Vec::capacity`: at least the length. How much more is up to the allocator.
#[verifier::external_body]
fn capacity<T>(v: &Vec<T>) -> (r: usize)
    ensures
        r >= v@.len(),
{
    v.capacity()
}

pub open spec fn string_shape(len: nat) -> VecShape {
    VecShape { len, size: vstd::layout::size_of::<String>() }
}

pub open spec fn opt_shape(o: Option<Seq<Seq<char>>>) -> Seq<VecShape> {
    match o {
        Some(v) => seq![string_shape(v.len())],
        None => Seq::empty(),
    }
}

pub open spec fn generator_shapes(g: GeneratorView) -> Seq<VecShape> {
    opt_shape(g.script) + opt_shape(g.script_template) + seq![
        VecShape { len: g.transforms.len(), size: vstd::layout::size_of::<Transform>() },
    ]
}

pub open spec fn generators_shapes(v: Seq<GeneratorView>) -> Seq<VecShape>
    decreases v.len(),
{
    if v.len() == 0 {
        Seq::empty()
    } else {
        generators_shapes(v.drop_last()) + generator_shapes(v.last())
    }
}

pub open spec fn entry_shapes(e: EntryView) -> Seq<VecShape> {
    match e {
        EntryView::Plain(_) => Seq::empty(),
        EntryView::Object(o) => seq![string_shape(o.name.len())],
    }
}

pub open spec fn entries_shapes(v: Seq<EntryView>) -> Seq<VecShape>
    decreases v.len(),
{
    if v.len() == 0 {
        Seq::empty()
    } else {
        entries_shapes(v.drop_last()) + entry_shapes(v.last())
    }
}

pub open spec fn arg_shapes(a: ArgView) -> Seq<VecShape> {
    seq![
        VecShape { len: a.generators.len(), size: vstd::layout::size_of::<GeneratorSpec>() },
        VecShape { len: a.suggestions.len(), size: vstd::layout::size_of::<SuggestionEntry>() },
    ] + generators_shapes(a.generators) + entries_shapes(a.suggestions)
}

pub open spec fn each_arg_shapes(v: Seq<ArgView>) -> Seq<VecShape>
    decreases v.len(),
{
    if v.len() == 0 {
        Seq::empty()
    } else {
        each_arg_shapes(v.drop_last()) + arg_shapes(v.last())
    }
}

/// A list of arguments and what is in them.
pub open spec fn args_shapes(v: Seq<ArgView>) -> Seq<VecShape> {
    seq![VecShape { len: v.len(), size: vstd::layout::size_of::<ArgSpec>() }] + each_arg_shapes(v)
}

pub open spec fn option_shapes(o: OptionView) -> Seq<VecShape> {
    seq![string_shape(o.name.len())] + (match o.args {
        Some(a) => arg_shapes(a),
        None => Seq::empty(),
    }) + args_shapes(o.extra_args)
}

pub open spec fn each_option_shapes(v: Seq<OptionView>) -> Seq<VecShape>
    decreases v.len(),
{
    if v.len() == 0 {
        Seq::empty()
    } else {
        each_option_shapes(v.drop_last()) + option_shapes(v.last())
    }
}

/// A list of options and what is in them.
pub open spec fn options_shapes(v: Seq<OptionView>) -> Seq<VecShape> {
    seq![VecShape { len: v.len(), size: vstd::layout::size_of::<OptionSpec>() }] + each_option_shapes(v)
}

/// The vectors of one subcommand, its list of subcommands among them.
pub open spec fn node_shapes(
    args: Seq<ArgView>,
    options: Seq<OptionView>,
    subs: Seq<SubcommandView>,
) -> Seq<VecShape> {
    args_shapes(args) + options_shapes(options) + seq![
        VecShape { len: subs.len(), size: vstd::layout::size_of::<SubcommandSpec>() },
    ]
}

/// The vectors of subcommands, down to their leaves.
pub open spec fn forest_shapes(ts: Seq<SubcommandView>) -> Seq<VecShape>
    decreases ts,
{
    if ts.len() == 0 {
        Seq::empty()
    } else {
        let t = ts[ts.len() - 1];
        node_shapes(t.args, t.options, t.subcommands) + forest_shapes(t.subcommands)
            + forest_shapes(ts.drop_last())
    }
}

/// The vectors of a spec.
pub open spec fn spec_shapes(s: CompletionSpecView) -> Seq<VecShape> {
    node_shapes(s.args, s.options, s.subcommands) + forest_shapes(s.subcommands)
}

proof fn lemma_forest_shapes(a: Seq<SubcommandView>, b: Seq<SubcommandView>)
    ensures
        forest_shapes(a + b) == forest_shapes(b) + forest_shapes(a),
    decreases b.len(),
{
    if b.len() == 0 {
        assert(a + b =~= a);
        assert(forest_shapes(b) + forest_shapes(a) =~= forest_shapes(a));
    } else {
        lemma_forest_shapes(a, b.drop_last());
        assert((a + b).drop_last() =~= a + b.drop_last());
        assert((a + b)[(a + b).len() - 1] == b[b.len() - 1]);
        assert(forest_shapes(a + b) =~= forest_shapes(b) + forest_shapes(a));
    }
}

/// `uses` are the vectors of these shapes: elements of the right size, and
/// room for at least those that are there.
pub open spec fn room_for(shapes: Seq<VecShape>, uses: Seq<VecUse>) -> bool {
    &&& uses.len() == shapes.len()
    &&& forall|i: int|
        0 <= i < uses.len() ==> (#[trigger] uses[i]).size == shapes[i].size && uses[i].capacity
            >= shapes[i].len
}

proof fn lemma_room_extend(
    a: Seq<VecShape>,
    b: Seq<VecShape>,
    ua: Seq<VecUse>,
    ub: Seq<VecUse>,
)
    requires
        room_for(a, ua),
        room_for(b, ub),
    ensures
        room_for(a + b, ua + ub),
{
    assert forall|i: int| 0 <= i < (ua + ub).len() implies (#[trigger] (ua + ub)[i]).size == (a
        + b)[i].size && (ua + ub)[i].capacity >= (a + b)[i].len by {
        if i < ua.len() {
            assert((ua + ub)[i] == ua[i]);
        } else {
            assert((ua + ub)[i] == ub[i - ua.len()]);
        }
    }
}

fn push_use<T>(v: &Vec<T>, Ghost(done): Ghost<Seq<VecShape>>, uses: &mut Vec<VecUse>)
    requires
        room_for(done, old(uses)@),
    ensures
        room_for(
            done + seq![VecShape { len: v@.len(), size: vstd::layout::size_of::<T>() }],
            final(uses)@,
        ),
{
    let u = VecUse { capacity: capacity(v), size: core::mem::size_of::<T>() };
    let ghost before = uses@;
    uses.push(u);
    proof {
        assert(room_for(seq![VecShape { len: v@.len(), size: vstd::layout::size_of::<T>() }], seq![u]));
        lemma_room_extend(
            done,
            seq![VecShape { len: v@.len(), size: vstd::layout::size_of::<T>() }],
            before,
            seq![u],
        );
        assert(uses@ =~= before + seq![u]);
    }
}

fn generator_uses(g: &GeneratorSpec, Ghost(done): Ghost<Seq<VecShape>>, uses: &mut Vec<VecUse>)
    requires
        room_for(done, old(uses)@),
    ensures
        room_for(done + generator_shapes(g@), final(uses)@),
{
    let ghost mut d = done;
    if let Some(v) = &g.script {
        push_use(v, Ghost(d), uses);
        proof {
            d = d + seq![string_shape(v@.len())];
        }
    }
    assert(d =~= done + opt_shape(g@.script));
    if let Some(v) = &g.script_template {
        push_use(v, Ghost(d), uses);
        proof {
            d = d + seq![string_shape(v@.len())];
        }
    }
    assert(d =~= done + opt_shape(g@.script) + opt_shape(g@.script_template));
    push_use(&g.transforms, Ghost(d), uses);
    assert(d + seq![VecShape { len: g.transforms@.len(), size: vstd::layout::size_of::<Transform>() }] =~= done
        + generator_shapes(g@));
}

fn arg_uses(a: &ArgSpec, Ghost(done): Ghost<Seq<VecShape>>, uses: &mut Vec<VecUse>)
    requires
        room_for(done, old(uses)@),
    ensures
        room_for(done + arg_shapes(a@), final(uses)@),
{
    push_use(&a.generators, Ghost(done), uses);
    let ghost d1 = done + seq![
        VecShape { len: a.generators@.len(), size: vstd::layout::size_of::<GeneratorSpec>() },
    ];
    push_use(&a.suggestions, Ghost(d1), uses);
    let ghost d2 = d1 + seq![
        VecShape { len: a.suggestions@.len(), size: vstd::layout::size_of::<SuggestionEntry>() },
    ];
    let ghost gens = a@.generators;
    let mut i: usize = 0;
    proof {
        assert(gens.take(0) =~= Seq::empty());
        assert(d2 + generators_shapes(gens.take(0)) =~= d2);
    }
    while i < a.generators.len()
        invariant
            i <= a.generators.len(),
            gens == a.generators@.map_values(|g: GeneratorSpec| g@),
            room_for(d2 + generators_shapes(gens.take(i as int)), uses@),
        decreases a.generators.len() - i,
    {
        let ghost d = d2 + generators_shapes(gens.take(i as int));
        generator_uses(&a.generators[i], Ghost(d), uses);
        proof {
            assert(gens.take(i + 1).drop_last() =~= gens.take(i as int));
            assert(gens.take(i + 1).last() == a.generators@[i as int]@);
            assert(d + generator_shapes(gens[i as int]) =~= d2 + generators_shapes(
                gens.take(i + 1),
            ));
        }
        i += 1;
    }
    let ghost sugg = a@.suggestions;
    let ghost d3 = d2 + generators_shapes(gens);
    let mut k: usize = 0;
    proof {
        assert(gens.take(gens.len() as int) =~= gens);
        assert(sugg.take(0) =~= Seq::empty());
        assert(d3 + entries_shapes(sugg.take(0)) =~= d3);
    }
    while k < a.suggestions.len()
        invariant
            k <= a.suggestions.len(),
            sugg == a.suggestions@.map_values(|e: SuggestionEntry| e@),
            room_for(d3 + entries_shapes(sugg.take(k as int)), uses@),
        decreases a.suggestions.len() - k,
    {
        let ghost d = d3 + entries_shapes(sugg.take(k as int));
        proof {
            assert(sugg.take(k + 1).drop_last() =~= sugg.take(k as int));
            assert(sugg.take(k + 1).last() == a.suggestions@[k as int]@);
            assert(d + entry_shapes(sugg[k as int]) =~= d3 + entries_shapes(sugg.take(k + 1)));
            assert(d + Seq::<VecShape>::empty() =~= d);
        }
        if let SuggestionEntry::Object(o) = &a.suggestions[k] {
            push_use(&o.name, Ghost(d), uses);
        }
        k += 1;
    }
    proof {
        assert(sugg.take(sugg.len() as int) =~= sugg);
        assert(d3 + entries_shapes(sugg) =~= done + arg_shapes(a@));
    }
}

fn args_uses(v: &Vec<ArgSpec>, Ghost(done): Ghost<Seq<VecShape>>, uses: &mut Vec<VecUse>)
    requires
        room_for(done, old(uses)@),
    ensures
        room_for(done + args_shapes(model::arg_views(v@)), final(uses)@),
{
    push_use(v, Ghost(done), uses);
    let ghost d1 = done + seq![VecShape { len: v@.len(), size: vstd::layout::size_of::<ArgSpec>() }];
    let ghost all = model::arg_views(v@);
    let mut i: usize = 0;
    proof {
        assert(all.take(0) =~= Seq::empty());
        assert(d1 + each_arg_shapes(all.take(0)) =~= d1);
    }
    while i < v.len()
        invariant
            i <= v.len(),
            all == model::arg_views(v@),
            room_for(d1 + each_arg_shapes(all.take(i as int)), uses@),
        decreases v.len() - i,
    {
        let ghost d = d1 + each_arg_shapes(all.take(i as int));
        arg_uses(&v[i], Ghost(d), uses);
        proof {
            assert(all.take(i + 1).drop_last() =~= all.take(i as int));
            assert(all.take(i + 1).last() == v@[i as int]@);
            assert(d + arg_shapes(all[i as int]) =~= d1 + each_arg_shapes(all.take(i + 1)));
        }
        i += 1;
    }
    proof {
        assert(all.take(all.len() as int) =~= all);
        assert(d1 + each_arg_shapes(all) =~= done + args_shapes(all));
    }
}

fn option_uses(o: &OptionSpec, Ghost(done): Ghost<Seq<VecShape>>, uses: &mut Vec<VecUse>)
    requires
        room_for(done, old(uses)@),
    ensures
        room_for(done + option_shapes(o@), final(uses)@),
{
    push_use(&o.name, Ghost(done), uses);
    let ghost mut d = done + seq![string_shape(o.name@.len())];
    if let Some(a) = &o.args {
        arg_uses(a, Ghost(d), uses);
        proof {
            d = d + arg_shapes(a@);
        }
    }
    assert(d =~= done + seq![string_shape(o@.name.len())] + (match o@.args {
        Some(a) => arg_shapes(a),
        None => Seq::empty(),
    }));
    args_uses(&o.extra_args, Ghost(d), uses);
    assert(d + args_shapes(o@.extra_args) =~= done + option_shapes(o@));
}

fn options_uses(v: &Vec<OptionSpec>, Ghost(done): Ghost<Seq<VecShape>>, uses: &mut Vec<VecUse>)
    requires
        room_for(done, old(uses)@),
    ensures
        room_for(done + options_shapes(model::option_views(v@)), final(uses)@),
{
    push_use(v, Ghost(done), uses);
    let ghost d1 = done + seq![VecShape { len: v@.len(), size: vstd::layout::size_of::<OptionSpec>() }];
    let ghost all = model::option_views(v@);
    let mut i: usize = 0;
    proof {
        assert(all.take(0) =~= Seq::empty());
        assert(d1 + each_option_shapes(all.take(0)) =~= d1);
    }
    while i < v.len()
        invariant
            i <= v.len(),
            all == model::option_views(v@),
            room_for(d1 + each_option_shapes(all.take(i as int)), uses@),
        decreases v.len() - i,
    {
        let ghost d = d1 + each_option_shapes(all.take(i as int));
        option_uses(&v[i], Ghost(d), uses);
        proof {
            assert(all.take(i + 1).drop_last() =~= all.take(i as int));
            assert(all.take(i + 1).last() == v@[i as int]@);
            assert(d + option_shapes(all[i as int]) =~= d1 + each_option_shapes(all.take(i + 1)));
        }
        i += 1;
    }
    proof {
        assert(all.take(all.len() as int) =~= all);
        assert(d1 + each_option_shapes(all) =~= done + options_shapes(all));
    }
}

fn node_uses(
    args: &Vec<ArgSpec>,
    options: &Vec<OptionSpec>,
    subs: &Vec<SubcommandSpec>,
    Ghost(done): Ghost<Seq<VecShape>>,
    uses: &mut Vec<VecUse>,
)
    requires
        room_for(done, old(uses)@),
    ensures
        room_for(
            done + node_shapes(
                model::arg_views(args@),
                model::option_views(options@),
                model::sub_views(subs@),
            ),
            final(uses)@,
        ),
{
    let ghost a = args_shapes(model::arg_views(args@));
    let ghost o = options_shapes(model::option_views(options@));
    args_uses(args, Ghost(done), uses);
    options_uses(options, Ghost(done + a), uses);
    push_use(subs, Ghost(done + a + o), uses);
    assert(done + a + o + seq![
        VecShape { len: subs@.len(), size: vstd::layout::size_of::<SubcommandSpec>() },
    ] =~= done + node_shapes(
        model::arg_views(args@),
        model::option_views(options@),
        model::sub_views(subs@),
    ));
}

/// The vectors of a spec, with the room that each has.
pub fn vec_uses(spec: &CompletionSpec) -> (r: Vec<VecUse>)
    ensures
        room_for(spec_shapes(spec@), r@),
{
    let mut uses: Vec<VecUse> = Vec::new();
    let ghost mut done: Seq<VecShape> = Seq::empty();
    node_uses(&spec.args, &spec.options, &spec.subcommands, Ghost(done), &mut uses);
    let ghost want = spec_shapes(spec@);
    proof {
        done = done + node_shapes(spec@.args, spec@.options, spec@.subcommands);
        assert(done + forest_shapes(spec@.subcommands) =~= want);
    }
    let mut stack = refs(&spec.subcommands);
    while stack.len() > 0
        invariant
            room_for(done, uses@),
            done + forest_shapes(ref_views(stack@)) == want,
        decreases tree::forest_size(ref_views(stack@)),
    {
        let ghost s = ref_views(stack@);
        if let Some(t) = stack.pop() {
            proof {
                assert(s[s.len() - 1] == t@);
                assert(s.drop_last() =~= ref_views(stack@));
                model::lemma_sub_view(*t);
                lemma_forest_shapes(s.drop_last(), t@.subcommands);
                tree::lemma_forest_size(s.drop_last(), t@.subcommands);
                assert(tree::forest_size(s) == tree::tree_size(t@) + tree::forest_size(
                    s.drop_last(),
                ));
                assert(tree::tree_size(t@) == 1 + tree::forest_size(t@.subcommands));
            }
            node_uses(&t.args, &t.options, &t.subcommands, Ghost(done), &mut uses);
            push_refs(&mut stack, &t.subcommands);
            proof {
                let n = node_shapes(t@.args, t@.options, t@.subcommands);
                assert(done + n + forest_shapes(ref_views(stack@)) =~= done + forest_shapes(s));
                done = done + n;
            }
        }
    }
    assert(done + forest_shapes(ref_views(stack@)) =~= done);
    uses
}

// ---------------------------------------------------------------------------
// Together
// ---------------------------------------------------------------------------
/// The bytes of the vectors.
pub open spec fn room(uses: Seq<VecUse>) -> nat
    decreases uses.len(),
{
    if uses.len() == 0 {
        0
    } else {
        room(uses.drop_last()) + (uses.last().capacity as nat) * (uses.last().size as nat)
    }
}

/// Texts and vectors together, as far as a `usize` can hold the sum.
pub fn heap_total(texts: usize, uses: &Vec<VecUse>) -> (r: usize)
    ensures
        r == capped((texts + room(uses@)) as nat),
{
    let mut tally = Tally { total: texts, exact: Ghost(texts as nat) };
    let mut i: usize = 0;
    assert(uses@.take(0) =~= Seq::empty());
    while i < uses.len()
        invariant
            i <= uses.len(),
            tally.total == capped(tally.exact@),
            tally.total == capped((texts + room(uses@.take(i as int))) as nat),
        decreases uses.len() - i,
    {
        let u = uses[i];
        let ghost before = (texts + room(uses@.take(i as int))) as nat;
        let ghost product = (u.capacity as nat) * (u.size as nat);
        proof {
            assert(uses@.take(i + 1).drop_last() =~= uses@.take(i as int));
            assert(uses@.take(i + 1).last() == u);
        }
        let bytes: usize = match u.capacity.checked_mul(u.size) {
            Some(n) => n,
            None => usize::MAX,
        };
        assert(bytes == capped(product));
        tally.add_bytes(bytes);
        assert((texts + room(uses@.take(i + 1))) as nat == before + product);
        i += 1;
    }
    assert(uses@.take(uses@.len() as int) =~= uses@);
    tally.total
}

/// Roughly the heap bytes that a spec holds: the lengths of its texts and the
/// capacities of its vectors. The walk needs no recursion.
pub fn estimated_heap_bytes(spec: &CompletionSpec) -> (r: usize)
    ensures
        exists|uses: Seq<VecUse>| #[trigger]
            room_for(spec_shapes(spec@), uses) && r == capped(spec_len(spec@) + room(uses)),
{
    let texts = text_bytes(spec);
    let uses = vec_uses(spec);
    assert(room_for(spec_shapes(spec@), uses@));
    heap_total(texts, &uses)
}

} // verus!
