//! Walking the subcommand tree with an explicit stack instead of recursion, so
//! that the depth of a spec costs no call stack.
use crate::specs::model;
use crate::specs::model::{SubcommandSpec, SubcommandView};
use vstd::prelude::*;

verus! {

/// A subcommand cut off from its subcommands, of which only the number stays.
pub struct Detached {
    pub node: SubcommandSpec,
    pub children: usize,
}

/// A subcommand without its subcommands.
pub open spec fn bare(t: SubcommandView) -> SubcommandView {
    SubcommandView { subcommands: Seq::empty(), ..t }
}

/// The tree with `f` applied to every node of it.
pub open spec fn map_tree(
    f: spec_fn(SubcommandView) -> SubcommandView,
    t: SubcommandView,
) -> SubcommandView
    decreases t,
{
    SubcommandView {
        subcommands: Seq::new(
            t.subcommands.len(),
            |i: int|
                if 0 <= i < t.subcommands.len() {
                    map_tree(f, t.subcommands[i])
                } else {
                    arbitrary()
                },
        ),
        ..f(bare(t))
    }
}

/// The trees with `f` applied to every node of them.
pub open spec fn map_forest(
    f: spec_fn(SubcommandView) -> SubcommandView,
    ts: Seq<SubcommandView>,
) -> Seq<SubcommandView> {
    ts.map_values(|t: SubcommandView| map_tree(f, t))
}

/// The number of nodes of a tree.
pub open spec fn tree_size(t: SubcommandView) -> nat
    decreases t,
{
    1 + forest_size(t.subcommands)
}

/// The number of nodes of a forest.
pub open spec fn forest_size(ts: Seq<SubcommandView>) -> nat
    decreases ts,
{
    if ts.len() == 0 {
        0
    } else {
        tree_size(ts[ts.len() - 1]) + forest_size(ts.drop_last())
    }
}

pub proof fn lemma_forest_size(a: Seq<SubcommandView>, b: Seq<SubcommandView>)
    ensures
        forest_size(a + b) == forest_size(a) + forest_size(b),
    decreases b.len(),
{
    if b.len() == 0 {
        assert(a + b =~= a);
    } else {
        lemma_forest_size(a, b.drop_last());
        assert((a + b).drop_last() =~= a + b.drop_last());
    }
}

/// The successive contents of a stack that starts as `states[0]`, from which
/// the last tree is taken each time and its subcommands are put in its place,
/// beside the trees that were taken.
pub open spec fn unrolled(states: Seq<Seq<SubcommandView>>, nodes: Seq<Detached>) -> bool {
    &&& states.len() == nodes.len() + 1
    &&& states[nodes.len() as int].len() == 0
    &&& forall|i: int| 0 <= i < nodes.len() ==> #[trigger] unrolled_at(states, nodes, i)
}

pub open spec fn unrolled_at(
    states: Seq<Seq<SubcommandView>>,
    nodes: Seq<Detached>,
    i: int,
) -> bool {
    let s = states[i];
    &&& s.len() > 0
    &&& states[i + 1] == s.drop_last() + s[s.len() - 1].subcommands
    &&& nodes[i].node@ == bare(s[s.len() - 1])
    &&& nodes[i].children == s[s.len() - 1].subcommands.len()
}

/// Takes a forest apart, in the order in which a stack visits it: the last
/// tree first, and each node before its subcommands.
pub(crate) fn detach(subs: Vec<SubcommandSpec>) -> (r: (Vec<Detached>, Ghost<Seq<Seq<SubcommandView>>>))
    ensures
        unrolled(r.1@, r.0@),
        r.1@[0] == model::sub_views(subs@),
{
    let mut stack = subs;
    let mut nodes: Vec<Detached> = Vec::new();
    let ghost mut states: Seq<Seq<SubcommandView>> = seq![model::sub_views(stack@)];
    while stack.len() > 0
        invariant
            states.len() == nodes.len() + 1,
            states[0] == model::sub_views(subs@),
            states[nodes.len() as int] == model::sub_views(stack@),
            forall|i: int| 0 <= i < nodes.len() ==> #[trigger] unrolled_at(states, nodes@, i),
        decreases forest_size(model::sub_views(stack@)),
    {
        let ghost s = model::sub_views(stack@);
        let ghost before_states = states;
        let ghost before_nodes = nodes@;
        let ghost before_stack = stack@;
        let popped = stack.pop();
        if let Some(t) = popped {
            let ghost tree = t@;
            let mut node = t;
            let mut kids: Vec<SubcommandSpec> = Vec::new();
            proof {
                model::lemma_sub_view(t);
                assert(t == before_stack[before_stack.len() - 1]);
                assert(s[s.len() - 1] == tree);
                assert(s.drop_last() =~= model::sub_views(stack@));
            }
            std::mem::swap(&mut kids, &mut node.subcommands);
            proof {
                assert(model::sub_views(kids@) =~= tree.subcommands);
                model::lemma_sub_view(node);
                assert(node@.subcommands =~= Seq::empty());
                assert(node@ == bare(tree));
                lemma_forest_size(s.drop_last(), tree.subcommands);
                assert(forest_size(s) == tree_size(tree) + forest_size(s.drop_last()));
                assert(tree_size(tree) == 1 + forest_size(tree.subcommands));
            }
            let children: usize = kids.len();
            let ghost kids_view = kids@;
            let ghost stack_view = stack@;
            stack.append(&mut kids);
            nodes.push(Detached { node, children });
            proof {
                assert(model::sub_views(stack@) =~= s.drop_last() + tree.subcommands) by {
                    assert(stack@ =~= stack_view + kids_view);
                }
                states = states.push(model::sub_views(stack@));
                assert forall|i: int| 0 <= i < nodes.len() implies #[trigger] unrolled_at(
                    states,
                    nodes@,
                    i,
                ) by {
                    if i < before_nodes.len() {
                        assert(unrolled_at(before_states, before_nodes, i));
                    }
                }
            }
        }
    }
    (nodes, Ghost(states))
}

/// Puts a forest together again after its nodes were changed by `f`.
pub(crate) fn attach(
    nodes: Vec<Detached>,
    Ghost(states): Ghost<Seq<Seq<SubcommandView>>>,
    Ghost(before): Ghost<Seq<Detached>>,
    Ghost(f): Ghost<spec_fn(SubcommandView) -> SubcommandView>,
) -> (r: Vec<SubcommandSpec>)
    requires
        unrolled(states, before),
        nodes.len() == before.len(),
        forall|i: int|
            0 <= i < nodes.len() ==> (#[trigger] nodes@[i]).node@ == f(before[i].node@)
                && nodes@[i].children == before[i].children,
    ensures
        model::sub_views(r@) == map_forest(f, states[0]),
{
    let ghost all = nodes@;
    let mut nodes = nodes;
    let mut built: Vec<SubcommandSpec> = Vec::new();
    assert(model::sub_views(built@) =~= map_forest(f, states[all.len() as int]));
    while nodes.len() > 0
        invariant
            unrolled(states, before),
            all.len() == before.len(),
            nodes.len() <= all.len(),
            nodes@ == all.take(nodes.len() as int),
            forall|i: int|
                0 <= i < all.len() ==> (#[trigger] all[i]).node@ == f(before[i].node@)
                    && all[i].children == before[i].children,
            model::sub_views(built@) == map_forest(f, states[nodes.len() as int]),
        decreases nodes.len(),
    {
        let ghost n = nodes.len() as int;
        if let Some(d) = nodes.pop() {
            let ghost s = states[n - 1];
            let ghost tree = s[s.len() - 1];
            let ghost old_built = built@;
            proof {
                assert(d == all[n - 1]);
                assert(unrolled_at(states, before, n - 1));
                assert(nodes@ =~= all.take(n - 1));
                assert(built.len() == map_forest(f, states[n]).len()) by {
                    assert(model::sub_views(built@).len() == built@.len());
                }
            }
            let mut node = d.node;
            let cut: usize = built.len() - d.children;
            let kids = built.split_off(cut);
            proof {
                assert(model::sub_views(kids@) =~= map_forest(f, tree.subcommands)) by {
                    assert forall|i: int| 0 <= i < kids.len() implies (#[trigger] kids@[i])@
                        == map_tree(f, tree.subcommands[i]) by {
                        assert(kids@[i] == old_built[cut + i]);
                        assert(model::sub_views(old_built)[cut + i] == map_forest(f, states[n])[cut
                            + i]);
                        assert(states[n][cut + i] == tree.subcommands[i]);
                    }
                }
                assert(model::sub_views(built@) =~= map_forest(f, s.drop_last())) by {
                    assert forall|i: int| 0 <= i < built.len() implies (#[trigger] built@[i])@
                        == map_tree(f, s.drop_last()[i]) by {
                        assert(built@[i] == old_built[i]);
                        assert(model::sub_views(old_built)[i] == map_forest(f, states[n])[i]);
                        assert(states[n][i] == s.drop_last()[i]);
                    }
                }
            }
            let ghost bare_node = node;
            node.subcommands = kids;
            proof {
                model::lemma_sub_view(node);
                assert(node@.subcommands =~= map_tree(f, tree).subcommands);
                assert(node@ == map_tree(f, tree)) by {
                    let g = f(bare(tree));
                    assert(bare_node@ == g);
                    assert(node@ == (SubcommandView { subcommands: node@.subcommands, ..g }));
                }
            }
            let ghost mid = built@;
            built.push(node);
            proof {
                assert(model::sub_views(built@) =~= model::sub_views(mid).push(node@));
                assert(map_forest(f, s) =~= map_forest(f, s.drop_last()).push(map_tree(f, tree)));
            }
        }
    }
    built
}

} // verus!
