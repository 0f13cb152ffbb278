//! What registration promises about the alias index.
use crate::specs::alias_index;
use crate::specs::store;
use crate::specs::store::{AcceptedView, AliasFallbackPolicy, PendingView, StoreView};
use vstd::prelude::*;

verus! {

/// Every alias of `a` keeps its candidates in `b`, in front of any new ones.
pub open spec fn extends(a: Map<Seq<char>, Seq<int>>, b: Map<Seq<char>, Seq<int>>) -> bool {
    forall|k: Seq<char>| #[trigger]
        a.dom().contains(k) ==> b.dom().contains(k) && a[k].is_prefix_of(b[k])
}

proof fn lemma_extends_trans(
    a: Map<Seq<char>, Seq<int>>,
    b: Map<Seq<char>, Seq<int>>,
    c: Map<Seq<char>, Seq<int>>,
)
    requires
        extends(a, b),
        extends(b, c),
    ensures
        extends(a, c),
{
    assert forall|k: Seq<char>| #[trigger] a.dom().contains(k) implies c.dom().contains(k)
        && a[k].is_prefix_of(c[k]) by {
        assert(b.dom().contains(k));
        assert(a[k] =~= c[k].subrange(0, a[k].len() as int)) by {
            assert forall|i: int| 0 <= i < a[k].len() implies a[k][i] == c[k][i] by {
                assert(a[k][i] == b[k].subrange(0, a[k].len() as int)[i]);
                assert(b[k][i] == c[k].subrange(0, b[k].len() as int)[i]);
            }
        }
    }
}

proof fn lemma_with_candidate_extends(m: Map<Seq<char>, Seq<int>>, alias: Seq<char>, entry: int)
    ensures
        extends(m, alias_index::with_candidate(m, alias, entry)),
{
    let n = alias_index::with_candidate(m, alias, entry);
    assert forall|k: Seq<char>| #[trigger] m.dom().contains(k) implies n.dom().contains(k)
        && m[k].is_prefix_of(n[k]) by {
        assert(m[k] =~= n[k].subrange(0, m[k].len() as int));
    }
}

proof fn lemma_stems_extend(st: StoreView, ps: Seq<PendingView>, policy: AliasFallbackPolicy)
    ensures
        extends(st.index, store::stems_pass(st, ps, policy).0.index),
    decreases ps.len(),
{
    if ps.len() == 0 {
        assert forall|k: Seq<char>| #[trigger] st.index.dom().contains(k) implies st.index[k].is_prefix_of(
            st.index[k],
        ) by {
            assert(st.index[k] =~= st.index[k].subrange(0, st.index[k].len() as int));
        }
    } else {
        lemma_stems_extend(st, ps.drop_last(), policy);
        let s1 = store::stems_pass(st, ps.drop_last(), policy).0;
        let stem = ps.last().filename_stem;
        lemma_with_candidate_extends(s1.index, stem, s1.entries.len() as int);
        let s2 = store::stems_pass(st, ps, policy).0;
        if s2.index != s1.index {
            lemma_extends_trans(st.index, s1.index, s2.index);
        }
    }
}

/// Declared names leave the candidates of every alias in place.
pub proof fn lemma_names_extend(st: StoreView, acc: Seq<AcceptedView>, policy: AliasFallbackPolicy)
    ensures
        extends(st.index, store::names_pass(st, acc, policy).index),
    decreases acc.len(),
{
    if acc.len() == 0 {
        assert forall|k: Seq<char>| #[trigger] st.index.dom().contains(k) implies st.index[k].is_prefix_of(
            st.index[k],
        ) by {
            assert(st.index[k] =~= st.index[k].subrange(0, st.index[k].len() as int));
        }
    } else {
        lemma_names_extend(st, acc.drop_last(), policy);
        let s1 = store::names_pass(st, acc.drop_last(), policy);
        let s2 = store::names_pass(st, acc, policy);
        if let Some(name) = acc.last().name_alias {
            lemma_with_candidate_extends(s1.index, name, acc.last().idx);
        }
        if s2.index != s1.index {
            lemma_extends_trans(st.index, s1.index, s2.index);
        }
    }
}

/// Earlier registrations take precedence: a later batch leaves the candidates
/// of every alias in place and can only queue up behind them.
pub proof fn law_earlier_registration_wins(
    st: StoreView,
    ps: Seq<PendingView>,
    policy: AliasFallbackPolicy,
)
    ensures
        extends(st.index, store::registered(st, ps, policy).index),
        forall|a: Seq<char>| #[trigger]
            alias_index::primary(st.index, a) is Some ==> alias_index::primary(
                store::registered(st, ps, policy).index,
                a,
            ) == alias_index::primary(st.index, a),
{
    lemma_stems_extend(st, ps, policy);
    let (s, acc) = store::stems_pass(st, ps, policy);
    lemma_names_extend(s, acc, policy);
    let r = store::registered(st, ps, policy);
    lemma_extends_trans(st.index, s.index, r.index);
    assert forall|a: Seq<char>| #[trigger]
        alias_index::primary(st.index, a) is Some implies alias_index::primary(r.index, a)
        == alias_index::primary(st.index, a) by {
        assert(st.index.dom().contains(a));
        assert(st.index[a] =~= r.index[a].subrange(0, st.index[a].len() as int));
        assert(st.index[a][0] == r.index[a].subrange(0, st.index[a].len() as int)[0]);
    }
}

/// Every entry answers to its own file name stem.
pub proof fn law_every_entry_is_addressable(st: StoreView, i: int)
    requires
        store::consistent(st),
        0 <= i < st.entries.len(),
    ensures
        st.index.dom().contains(st.entries[i].filename_stem),
        st.index[st.entries[i].filename_stem].contains(i),
{
    assert(st.entries[i].aliases[0] == st.entries[i].filename_stem);
}

/// After the stems of a batch, an alias that nobody held before belongs to a
/// file of that very stem.
spec fn stems_first(st: StoreView, s: StoreView) -> bool {
    forall|a: Seq<char>| #[trigger]
        s.index.dom().contains(a) && !st.index.dom().contains(a) ==> s.index[a].len() > 0 && 0
            <= s.index[a][0] < s.entries.len() && s.entries[s.index[a][0]].filename_stem == a
}

proof fn lemma_stems_first(st: StoreView, ps: Seq<PendingView>, policy: AliasFallbackPolicy)
    ensures
        stems_first(st, store::stems_pass(st, ps, policy).0),
        forall|k: int|
            0 <= k < ps.len() && !st.index.dom().contains(
                (#[trigger] ps[k]).filename_stem,
            ) ==> store::stems_pass(st, ps, policy).0.index.dom().contains(ps[k].filename_stem),
    decreases ps.len(),
{
    if ps.len() > 0 {
        let ds = ps.drop_last();
        lemma_stems_first(st, ds, policy);
        let s1 = store::stems_pass(st, ds, policy).0;
        let s2 = store::stems_pass(st, ps, policy).0;
        let p = ps.last();
        assert forall|k: int|
            0 <= k < ps.len() && !st.index.dom().contains(
                (#[trigger] ps[k]).filename_stem,
            ) implies s2.index.dom().contains(ps[k].filename_stem) by {
            if k < ds.len() {
                assert(ds[k] == ps[k]);
            } else {
                assert(ps[k] == p);
                if alias_index::primary(s1.index, p.filename_stem) is Some {
                    assert(s1.index.dom().contains(p.filename_stem));
                }
            }
        }
        assert forall|a: Seq<char>| #[trigger]
            s2.index.dom().contains(a) && !st.index.dom().contains(a) implies s2.index[a].len() > 0
            && 0 <= s2.index[a][0] < s2.entries.len()
            && s2.entries[s2.index[a][0]].filename_stem == a by {
            if s1.index.dom().contains(a) {
                assert(s2.index[a][0] == s1.index[a][0]);
                assert(s2.entries[s1.index[a][0]] == s1.entries[s1.index[a][0]]);
            }
        }
    }
}

proof fn lemma_names_keep_stems(st: StoreView, acc: Seq<AcceptedView>, policy: AliasFallbackPolicy)
    requires
        store::acceptable(st, acc),
    ensures
        store::names_pass(st, acc, policy).entries.len() == st.entries.len(),
        forall|i: int|
            0 <= i < st.entries.len() ==> (#[trigger] store::names_pass(
                st,
                acc,
                policy,
            ).entries[i]).filename_stem == st.entries[i].filename_stem,
    decreases acc.len(),
{
    if acc.len() > 0 {
        lemma_names_keep_stems(st, acc.drop_last(), policy);
        assert(acc.last() == acc[acc.len() - 1]);
        let s1 = store::names_pass(st, acc.drop_last(), policy);
        let s2 = store::names_pass(st, acc, policy);
        assert forall|i: int| 0 <= i < st.entries.len() implies (
        #[trigger] s2.entries[i]).filename_stem == st.entries[i].filename_stem by {
            assert(s1.entries[i].filename_stem == st.entries[i].filename_stem);
        }
    }
}

/// Within a batch a file keeps the alias of its own stem, whatever names the
/// other files declare: a stem that nobody held before the batch belongs
/// after it to a file of that stem.
pub proof fn law_stem_beats_declared_name(
    st: StoreView,
    ps: Seq<PendingView>,
    policy: AliasFallbackPolicy,
    k: int,
)
    requires
        store::consistent(st),
        0 <= k < ps.len(),
        !st.index.dom().contains(ps[k].filename_stem),
    ensures
        ({
            let r = store::registered(st, ps, policy);
            let stem = ps[k].filename_stem;
            match alias_index::primary(r.index, stem) {
                Some(h) => 0 <= h < r.entries.len() && r.entries[h].filename_stem == stem,
                None => false,
            }
        }),
{
    let stem = ps[k].filename_stem;
    let (s, acc) = store::stems_pass(st, ps, policy);
    let r = store::registered(st, ps, policy);
    lemma_stems_first(st, ps, policy);
    store::lemma_stems_pass(st, ps, policy);
    lemma_names_extend(s, acc, policy);
    lemma_names_keep_stems(s, acc, policy);
    assert(s.index.dom().contains(stem));
    assert(s.index[stem] =~= r.index[stem].subrange(0, s.index[stem].len() as int));
    assert(s.index[stem][0] == r.index[stem].subrange(0, s.index[stem].len() as int)[0]);
}

} // verus!
