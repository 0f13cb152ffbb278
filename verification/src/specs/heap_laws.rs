//! What the heap estimate promises: it grows by what the texts grow by.
use crate::specs::heap;
use crate::specs::heap::VecUse;
use crate::specs::model::{
    ArgView, CompletionSpecView, EntryView, GeneratorView, OptionView, SubcommandView,
    TransformView,
};
use vstd::prelude::*;

verus! {

// ---------------------------------------------------------------------------
// Lists
// ---------------------------------------------------------------------------
/// Of a list of texts each counts by itself.
pub proof fn law_text_in_list(v: Seq<Seq<char>>, i: int, x: Seq<char>)
    requires
        0 <= i < v.len(),
    ensures
        heap::texts_len(v.update(i, x)) + heap::text_len(v[i]) == heap::texts_len(v) + heap::text_len(x),
    decreases v.len(),
{
    let w = v.update(i, x);
    if i == v.len() - 1 {
        assert(w.drop_last() =~= v.drop_last());
    } else {
        law_text_in_list(v.drop_last(), i, x);
        assert(w.drop_last() =~= v.drop_last().update(i, x));
        assert(w.last() == v.last());
    }
}

/// Of a list of transforms each counts by itself.
pub proof fn law_transform_in_list(v: Seq<TransformView>, i: int, x: TransformView)
    requires
        0 <= i < v.len(),
    ensures
        heap::transforms_len(v.update(i, x)) + heap::transform_len(v[i]) == heap::transforms_len(v) + heap::transform_len(x),
    decreases v.len(),
{
    let w = v.update(i, x);
    if i == v.len() - 1 {
        assert(w.drop_last() =~= v.drop_last());
    } else {
        law_transform_in_list(v.drop_last(), i, x);
        assert(w.drop_last() =~= v.drop_last().update(i, x));
        assert(w.last() == v.last());
    }
}

/// Of a list of generators each counts by itself, in its texts and in the
/// shape of its vectors.
pub proof fn law_generator_in_list(v: Seq<GeneratorView>, i: int, x: GeneratorView)
    requires
        0 <= i < v.len(),
    ensures
        heap::generators_len(v.update(i, x)) + heap::generator_len(v[i]) == heap::generators_len(v) + heap::generator_len(x),
        heap::generator_shapes(x) == heap::generator_shapes(v[i]) ==> heap::generators_shapes(v.update(i, x))
            == heap::generators_shapes(v),
    decreases v.len(),
{
    let w = v.update(i, x);
    if i == v.len() - 1 {
        assert(w.drop_last() =~= v.drop_last());
    } else {
        law_generator_in_list(v.drop_last(), i, x);
        assert(w.drop_last() =~= v.drop_last().update(i, x));
        assert(w.last() == v.last());
    }
}

/// Of a list of values each counts by itself, in its texts and in the shape of
/// its vectors.
pub proof fn law_entry_in_list(v: Seq<EntryView>, i: int, x: EntryView)
    requires
        0 <= i < v.len(),
    ensures
        heap::entries_len(v.update(i, x)) + heap::entry_len(v[i]) == heap::entries_len(v) + heap::entry_len(x),
        heap::entry_shapes(x) == heap::entry_shapes(v[i]) ==> heap::entries_shapes(v.update(i, x))
            == heap::entries_shapes(v),
    decreases v.len(),
{
    let w = v.update(i, x);
    if i == v.len() - 1 {
        assert(w.drop_last() =~= v.drop_last());
    } else {
        law_entry_in_list(v.drop_last(), i, x);
        assert(w.drop_last() =~= v.drop_last().update(i, x));
        assert(w.last() == v.last());
    }
}

/// Of a list of arguments each counts by itself, in its texts and in the shape
/// of its vectors.
pub proof fn law_arg_in_list(v: Seq<ArgView>, i: int, x: ArgView)
    requires
        0 <= i < v.len(),
    ensures
        heap::args_len(v.update(i, x)) + heap::arg_len(v[i]) == heap::args_len(v) + heap::arg_len(x),
        heap::arg_shapes(x) == heap::arg_shapes(v[i]) ==> heap::each_arg_shapes(v.update(i, x))
            == heap::each_arg_shapes(v),
    decreases v.len(),
{
    let w = v.update(i, x);
    if i == v.len() - 1 {
        assert(w.drop_last() =~= v.drop_last());
    } else {
        law_arg_in_list(v.drop_last(), i, x);
        assert(w.drop_last() =~= v.drop_last().update(i, x));
        assert(w.last() == v.last());
    }
}

/// Of a list of options each counts by itself, in its texts and in the shape of
/// its vectors.
pub proof fn law_option_in_list(v: Seq<OptionView>, i: int, x: OptionView)
    requires
        0 <= i < v.len(),
    ensures
        heap::options_len(v.update(i, x)) + heap::option_len(v[i]) == heap::options_len(v) + heap::option_len(x),
        heap::option_shapes(x) == heap::option_shapes(v[i]) ==> heap::each_option_shapes(v.update(i, x))
            == heap::each_option_shapes(v),
    decreases v.len(),
{
    let w = v.update(i, x);
    if i == v.len() - 1 {
        assert(w.drop_last() =~= v.drop_last());
    } else {
        law_option_in_list(v.drop_last(), i, x);
        assert(w.drop_last() =~= v.drop_last().update(i, x));
        assert(w.last() == v.last());
    }
}

// ---------------------------------------------------------------------------
// Subcommands
// ---------------------------------------------------------------------------
/// Whether `path` leads to a subcommand: each step is the position among the
/// subcommands of the one before.
pub open spec fn leads_to_node(ts: Seq<SubcommandView>, path: Seq<int>) -> bool
    decreases path.len(),
{
    &&& path.len() > 0
    &&& 0 <= path[0] < ts.len()
    &&& path.len() > 1 ==> leads_to_node(ts[path[0]].subcommands, path.skip(1))
}

/// The subcommand that a path leads to.
pub open spec fn node_at(ts: Seq<SubcommandView>, path: Seq<int>) -> SubcommandView
    decreases path.len(),
{
    if path.len() <= 1 {
        ts[path[0]]
    } else {
        node_at(ts[path[0]].subcommands, path.skip(1))
    }
}

/// The subcommands with the one at the end of the path made into `n`, but for
/// what is below it.
pub open spec fn with_node(
    ts: Seq<SubcommandView>,
    path: Seq<int>,
    n: SubcommandView,
) -> Seq<SubcommandView>
    decreases path.len(),
{
    let t = ts[path[0]];
    if path.len() <= 1 {
        ts.update(path[0], SubcommandView { subcommands: t.subcommands, ..n })
    } else {
        ts.update(
            path[0],
            SubcommandView { subcommands: with_node(t.subcommands, path.skip(1), n), ..t },
        )
    }
}

/// The shapes of a subcommand's vectors, and of those below it.
spec fn tree_shapes(t: SubcommandView) -> Seq<heap::VecShape> {
    heap::node_shapes(t.args, t.options, t.subcommands) + heap::forest_shapes(t.subcommands)
}

spec fn tree_len(t: SubcommandView) -> nat {
    heap::node_len(t) + heap::forest_len(t.subcommands)
}

proof fn lemma_forest_step(ts: Seq<SubcommandView>)
    requires
        ts.len() > 0,
    ensures
        heap::forest_len(ts) == tree_len(ts[ts.len() - 1]) + heap::forest_len(ts.drop_last()),
        heap::forest_shapes(ts) == tree_shapes(ts[ts.len() - 1]) + heap::forest_shapes(
            ts.drop_last(),
        ),
{
}

proof fn lemma_len_update(ts: Seq<SubcommandView>, i: int, t: SubcommandView)
    requires
        0 <= i < ts.len(),
    ensures
        heap::forest_len(ts.update(i, t)) + tree_len(ts[i]) == heap::forest_len(ts) + tree_len(t),
    decreases ts.len(),
{
    let us = ts.update(i, t);
    lemma_forest_step(ts);
    lemma_forest_step(us);
    if i == ts.len() - 1 {
        assert(us.drop_last() =~= ts.drop_last());
    } else {
        lemma_len_update(ts.drop_last(), i, t);
        assert(us.drop_last() =~= ts.drop_last().update(i, t));
    }
}

proof fn lemma_shapes_update(ts: Seq<SubcommandView>, i: int, t: SubcommandView)
    requires
        0 <= i < ts.len(),
        tree_shapes(t) == tree_shapes(ts[i]),
    ensures
        heap::forest_shapes(ts.update(i, t)) == heap::forest_shapes(ts),
    decreases ts.len(),
{
    let us = ts.update(i, t);
    lemma_forest_step(ts);
    lemma_forest_step(us);
    if i == ts.len() - 1 {
        assert(us.drop_last() =~= ts.drop_last());
    } else {
        lemma_shapes_update(ts.drop_last(), i, t);
        assert(us.drop_last() =~= ts.drop_last().update(i, t));
    }
}

/// Whether two subcommands have as many options, arguments, generators and
/// values, so that they differ in texts at most.
pub open spec fn same_shape(a: SubcommandView, b: SubcommandView) -> bool {
    heap::args_shapes(a.args) == heap::args_shapes(b.args) && heap::options_shapes(a.options)
        == heap::options_shapes(b.options)
}

/// Of the subcommands of a spec each counts by itself, at every depth: giving
/// one other texts changes the sum by the difference, and no vector.
pub proof fn law_node_at_any_depth(ts: Seq<SubcommandView>, path: Seq<int>, n: SubcommandView)
    requires
        leads_to_node(ts, path),
    ensures
        heap::forest_len(with_node(ts, path, n)) + heap::node_len(node_at(ts, path))
            == heap::forest_len(ts) + heap::node_len(n),
        same_shape(n, node_at(ts, path)) ==> heap::forest_shapes(with_node(ts, path, n))
            == heap::forest_shapes(ts),
        with_node(ts, path, n).len() == ts.len(),
    decreases path.len(),
{
    let t = ts[path[0]];
    if path.len() <= 1 {
        let u = SubcommandView { subcommands: t.subcommands, ..n };
        lemma_len_update(ts, path[0], u);
        assert(heap::node_len(u) == heap::node_len(n));
        if same_shape(n, node_at(ts, path)) {
            lemma_shapes_update(ts, path[0], u);
        }
    } else {
        law_node_at_any_depth(t.subcommands, path.skip(1), n);
        let u = SubcommandView { subcommands: with_node(t.subcommands, path.skip(1), n), ..t };
        lemma_len_update(ts, path[0], u);
        assert(heap::node_len(u) == heap::node_len(t));
        if same_shape(n, node_at(ts, path)) {
            lemma_shapes_update(ts, path[0], u);
        }
    }
}

// ---------------------------------------------------------------------------
// The estimate
// ---------------------------------------------------------------------------
/// The spec with a subcommand's name replaced.
pub open spec fn renamed(s: CompletionSpecView, path: Seq<int>, name: Seq<char>) -> CompletionSpecView {
    CompletionSpecView {
        subcommands: with_node(
            s.subcommands,
            path,
            SubcommandView { name, ..node_at(s.subcommands, path) },
        ),
        ..s
    }
}

/// The spec with a subcommand's description replaced.
pub open spec fn described(
    s: CompletionSpecView,
    path: Seq<int>,
    description: Option<Seq<char>>,
) -> CompletionSpecView {
    CompletionSpecView {
        subcommands: with_node(
            s.subcommands,
            path,
            SubcommandView { description, ..node_at(s.subcommands, path) },
        ),
        ..s
    }
}

/// A spec whose texts are `n` bytes longer in all, with vectors of the same
/// room, is estimated `n` bytes higher, as far as a `usize` can hold it.
pub proof fn law_longer_texts_add(
    s: CompletionSpecView,
    t: CompletionSpecView,
    n: nat,
    uses: Seq<VecUse>,
)
    requires
        heap::spec_shapes(t) == heap::spec_shapes(s),
        heap::spec_len(t) == heap::spec_len(s) + n,
        heap::room_for(heap::spec_shapes(s), uses),
    ensures
        heap::room_for(heap::spec_shapes(t), uses),
        heap::capped(heap::spec_len(t) + heap::room(uses)) == heap::capped(
            heap::capped(heap::spec_len(s) + heap::room(uses)) + n,
        ),
{
}

/// A subcommand's name that is `n` bytes longer, at whatever depth, adds `n`
/// to a spec's estimate.
pub proof fn law_longer_name_adds(
    s: CompletionSpecView,
    path: Seq<int>,
    name: Seq<char>,
    n: nat,
    uses: Seq<VecUse>,
)
    requires
        leads_to_node(s.subcommands, path),
        heap::text_len(name) == heap::text_len(node_at(s.subcommands, path).name) + n,
        heap::room_for(heap::spec_shapes(s), uses),
    ensures
        heap::room_for(heap::spec_shapes(renamed(s, path, name)), uses),
        heap::spec_len(renamed(s, path, name)) == heap::spec_len(s) + n,
        heap::capped(heap::spec_len(renamed(s, path, name)) + heap::room(uses)) == heap::capped(
            heap::capped(heap::spec_len(s) + heap::room(uses)) + n,
        ),
{
    let node = SubcommandView { name, ..node_at(s.subcommands, path) };
    law_node_at_any_depth(s.subcommands, path, node);
    law_longer_texts_add(s, renamed(s, path, name), n, uses);
}

/// A subcommand's description that is `n` bytes longer, at whatever depth,
/// adds `n` to a spec's estimate.
pub proof fn law_longer_description_adds(
    s: CompletionSpecView,
    path: Seq<int>,
    description: Option<Seq<char>>,
    n: nat,
    uses: Seq<VecUse>,
)
    requires
        leads_to_node(s.subcommands, path),
        heap::opt_len(description) == heap::opt_len(node_at(s.subcommands, path).description) + n,
        heap::room_for(heap::spec_shapes(s), uses),
    ensures
        heap::room_for(heap::spec_shapes(described(s, path, description)), uses),
        heap::spec_len(described(s, path, description)) == heap::spec_len(s) + n,
        heap::capped(heap::spec_len(described(s, path, description)) + heap::room(uses))
            == heap::capped(heap::capped(heap::spec_len(s) + heap::room(uses)) + n),
{
    let node = SubcommandView { description, ..node_at(s.subcommands, path) };
    law_node_at_any_depth(s.subcommands, path, node);
    law_longer_texts_add(s, described(s, path, description), n, uses);
}

/// The spec's own name and description count in the same way.
pub proof fn law_own_texts_add(
    s: CompletionSpecView,
    name: Seq<char>,
    description: Option<Seq<char>>,
    n: nat,
    uses: Seq<VecUse>,
)
    requires
        heap::text_len(name) + heap::opt_len(description) == heap::text_len(s.name)
            + heap::opt_len(s.description) + n,
        heap::room_for(heap::spec_shapes(s), uses),
    ensures
        ({
            let t = CompletionSpecView { name, description, ..s };
            &&& heap::room_for(heap::spec_shapes(t), uses)
            &&& heap::spec_len(t) == heap::spec_len(s) + n
            &&& heap::capped(heap::spec_len(t) + heap::room(uses)) == heap::capped(
                heap::capped(heap::spec_len(s) + heap::room(uses)) + n,
            )
        }),
{
    law_longer_texts_add(s, (CompletionSpecView { name, description, ..s }), n, uses);
}

} // verus!
