//! What lookups promise of a store, and of a store with specs behind it.
use crate::specs::alias_index;
use crate::specs::loading;
use crate::specs::loading::{DirListing, EmbeddedSpec};
use crate::specs::model::CompletionSpec;
use crate::specs::store;
use crate::specs::store::{
    AcceptedView, AliasFallbackPolicy, PendingView, SpecEntry, SpecSource, SpecStore, StoreView,
};
use crate::specs::store_laws;
use std::sync::Arc;
use vstd::prelude::*;

verus! {

/// A lookup succeeds exactly when some candidate of the command is loaded: a
/// spec that is broken leaves its place to the next one of the same name.
pub proof fn law_any_loaded_candidate_answers(st: StoreView, command: Seq<char>)
    requires
        store::consistent(st),
    ensures
        store::lookup(st, command) is Ok <==> st.index.dom().contains(command) && exists|k: int|
            0 <= k < st.index[command].len()
                && st.entries[#[trigger] st.index[command][k]].parsed is Loaded,
{
    if st.index.dom().contains(command) {
        store::lemma_first_loaded(st.entries, st.index[command], 0);
    }
}

/// An alias that resolves to an entry is answered with that entry's spec, and
/// every lookup that succeeds is of this kind.
pub proof fn law_lookup_is_resolution(st: StoreView, command: Seq<char>)
    requires
        store::consistent(st),
    ensures
        forall|i: int| #[trigger]
            store::resolves_to(st, command, i) ==> 0 <= i < st.entries.len()
                && st.entries[i].parsed is Loaded && store::lookup(st, command) == Ok::<
                Arc<CompletionSpec>,
                store::LookupErrorView,
            >(st.entries[i].parsed->Loaded_0),
        store::lookup(st, command) is Ok ==> exists|i: int| #[trigger]
            store::resolves_to(st, command, i),
        forall|i: int, j: int|
            #![trigger store::resolves_to(st, command, i), store::resolves_to(st, command, j)]
            store::resolves_to(st, command, i) && store::resolves_to(st, command, j) ==> i == j,
{
    if st.index.dom().contains(command) {
        store::lemma_first_loaded(st.entries, st.index[command], 0);
        let w = store::first_loaded(st.entries, st.index[command], 0);
        if w < st.index[command].len() {
            assert(store::resolves_to(st, command, st.index[command][w]));
        }
    }
}

proof fn lemma_resolved_members(st: StoreView, n: int)
    requires
        n <= st.entries.len(),
    ensures
        forall|i: int| #[trigger]
            store::resolved_below(st, n).contains(i) <==> 0 <= i < n && store::is_resolved(st, i),
        forall|j: int, k: int|
            0 <= j < k < store::resolved_below(st, n).len() ==> #[trigger] store::resolved_below(
                st,
                n,
            )[j] < #[trigger] store::resolved_below(st, n)[k],
        n >= 0 ==> store::resolved_below(st, n).len() <= n,
    decreases n,
{
    if n > 0 {
        lemma_resolved_members(st, n - 1);
        let rest = store::resolved_below(st, n - 1);
        let ids = store::resolved_below(st, n);
        if store::is_resolved(st, n - 1) {
            assert(ids == rest.push(n - 1));
            assert forall|i: int| #[trigger] ids.contains(i) <==> 0 <= i < n && store::is_resolved(
                st,
                i,
            ) by {
                if ids.contains(i) && i != n - 1 {
                    let k = choose|k: int| 0 <= k < ids.len() && ids[k] == i;
                    assert(rest[k] == i);
                    assert(rest.contains(i));
                }
                if 0 <= i < n - 1 && store::is_resolved(st, i) {
                    assert(rest.contains(i));
                    let k = choose|k: int| 0 <= k < rest.len() && rest[k] == i;
                    assert(ids[k] == i);
                }
                if i == n - 1 {
                    assert(ids[rest.len() as int] == i);
                }
            }
            assert forall|j: int, k: int| 0 <= j < k < ids.len() implies #[trigger] ids[j]
                < #[trigger] ids[k] by {
                assert(rest.contains(rest[j]));
                assert(ids[j] == rest[j]);
            }
        }
    }
}

/// The entries that a store lists as resolved are exactly those that are
/// loaded and that one of their own aliases resolves to, each once and in
/// registration order.
pub proof fn law_resolved_entries(st: StoreView)
    requires
        store::consistent(st),
    ensures
        ({
            let ids = store::resolved_below(st, st.entries.len() as int);
            &&& ids.len() <= st.entries.len()
            &&& forall|j: int, k: int|
                0 <= j < k < ids.len() ==> #[trigger] ids[j] < #[trigger] ids[k]
            &&& forall|i: int| #[trigger]
                ids.contains(i) <==> 0 <= i < st.entries.len() && st.entries[i].parsed is Loaded
                    && exists|k: int|
                    0 <= k < st.entries[i].aliases.len() && store::resolves_to(
                        st,
                        #[trigger] st.entries[i].aliases[k],
                        i,
                    )
        }),
{
    let n = st.entries.len() as int;
    let ids = store::resolved_below(st, n);
    lemma_resolved_members(st, n);
    assert forall|i: int| #[trigger]
        ids.contains(i) <==> 0 <= i < st.entries.len() && st.entries[i].parsed is Loaded && exists|
            k: int,
        |
            0 <= k < st.entries[i].aliases.len() && store::resolves_to(
                st,
                #[trigger] st.entries[i].aliases[k],
                i,
            ) by {
        if ids.contains(i) {
            let a = choose|a: Seq<char>| #[trigger] store::resolves_to(st, a, i);
            law_lookup_is_resolution(st, a);
            let w = store::first_loaded(st.entries, st.index[a], 0);
            store::lemma_first_loaded(st.entries, st.index[a], 0);
            assert(st.entries[st.index[a][w]].aliases.contains(a));
            let k = choose|k: int|
                0 <= k < st.entries[i].aliases.len() && st.entries[i].aliases[k] == a;
            assert(store::resolves_to(st, st.entries[i].aliases[k], i));
        }
    }
}

/// Every command that a lookup answers is answered by one of the resolved
/// entries, and by no other.
pub proof fn law_every_answer_is_listed_once(st: StoreView, command: Seq<char>)
    requires
        store::consistent(st),
        store::lookup(st, command) is Ok,
    ensures
        ({
            let ids = store::resolved_below(st, st.entries.len() as int);
            &&& exists|k: int|
                0 <= k < ids.len() && #[trigger] store::resolves_to(st, command, ids[k])
                    && st.entries[ids[k]].parsed->Loaded_0 == store::lookup(st, command)->Ok_0
            &&& forall|j: int, k: int|
                0 <= j < ids.len() && 0 <= k < ids.len() && #[trigger] store::resolves_to(
                    st,
                    command,
                    ids[j],
                ) && #[trigger] store::resolves_to(st, command, ids[k]) ==> j == k
        }),
{
    let ids = store::resolved_below(st, st.entries.len() as int);
    law_lookup_is_resolution(st, command);
    lemma_resolved_members(st, st.entries.len() as int);
    let i = choose|i: int| #[trigger] store::resolves_to(st, command, i);
    assert(store::is_resolved(st, i));
    assert(ids.contains(i));
    let k = choose|k: int| 0 <= k < ids.len() && ids[k] == i;
    assert(store::resolves_to(st, command, ids[k]));
    assert forall|j: int, k: int|
        0 <= j < ids.len() && 0 <= k < ids.len() && #[trigger] store::resolves_to(
            st,
            command,
            ids[j],
        ) && #[trigger] store::resolves_to(st, command, ids[k]) implies j == k by {
        assert(ids[j] == ids[k]);
        if j < k {
            assert(ids[j] < ids[k]);
        }
        if k < j {
            assert(ids[k] < ids[j]);
        }
    }
}

/// What a store lists as resolved it also answers under the listed id, which
/// is the entry's file name stem.
pub proof fn law_listed_id_is_answered(st: StoreView, i: int)
    requires
        store::consistent(st),
        store::resolved_below(st, st.entries.len() as int).contains(i),
    ensures
        st.entries[i].id == st.entries[i].filename_stem,
        store::lookup(st, st.entries[i].id) is Ok,
{
    law_resolved_entries(st);
    store_laws::law_every_entry_is_addressable(st, i);
    let stem = st.entries[i].filename_stem;
    law_any_loaded_candidate_answers(st, stem);
    let k = choose|k: int| 0 <= k < st.index[stem].len() && st.index[stem][k] == i;
    assert(st.entries[st.index[stem][k]].parsed is Loaded);
}

/// The aliases that count as nonfunctional are exactly the known ones that no
/// lookup answers, and there are no more of them than aliases.
pub proof fn law_dead_aliases(st: StoreView)
    requires
        store::consistent(st),
        st.index.dom().finite(),
    ensures
        forall|a: Seq<char>| #[trigger]
            store::dead_aliases(st).contains(a) <==> st.index.dom().contains(a) && store::lookup(
                st,
                a,
            ) is Err,
        store::dead_aliases(st).finite(),
        store::dead_aliases(st).len() <= st.index.dom().len(),
{
    vstd::set_lib::lemma_len_subset(store::dead_aliases(st), st.index.dom());
}

/// A command that has an answer keeps it when more specs queue up behind the
/// candidates: what counts is that those that the lookup consults fare alike.
pub proof fn law_more_candidates_keep_the_answer(a: StoreView, b: StoreView, command: Seq<char>)
    requires
        store_laws::extends(a.index, b.index),
        store::lookup(a, command) is Ok,
        forall|i: int| #[trigger]
            store::consulted(a, command, i) ==> b.entries[i].parsed == a.entries[i].parsed,
    ensures
        store::lookup(b, command) == store::lookup(a, command),
        forall|i: int| #[trigger]
            store::resolves_to(b, command, i) == store::resolves_to(a, command, i),
{
    lemma_same_winner(a, b, command);
}

/// A lookup meets the same first success in both stores.
proof fn lemma_same_winner(a: StoreView, b: StoreView, command: Seq<char>)
    requires
        store_laws::extends(a.index, b.index),
        store::lookup(a, command) is Ok,
        forall|i: int| #[trigger]
            store::consulted(a, command, i) ==> (b.entries[i].parsed is Loaded
                == a.entries[i].parsed is Loaded),
    ensures
        ({
            let w = store::first_loaded(a.entries, a.index[command], 0);
            &&& b.index.dom().contains(command)
            &&& store::first_loaded(b.entries, b.index[command], 0) == w
            &&& 0 <= w < a.index[command].len() <= b.index[command].len()
            &&& b.index[command][w] == a.index[command][w]
            &&& store::consulted(a, command, a.index[command][w])
        }),
{
    let ca = a.index[command];
    let cb = b.index[command];
    store::lemma_first_loaded(a.entries, ca, 0);
    store::lemma_first_loaded(b.entries, cb, 0);
    let w = store::first_loaded(a.entries, ca, 0);
    let v = store::first_loaded(b.entries, cb, 0);
    assert(ca =~= cb.subrange(0, ca.len() as int));
    assert forall|k: int| 0 <= k <= w implies #[trigger] cb[k] == ca[k] && store::consulted(
        a,
        command,
        ca[k],
    ) by {
        assert(ca[k] == cb.subrange(0, ca.len() as int)[k]);
        assert(a.index[command][k] == ca[k]);
    }
    assert(cb[w] == ca[w]);
    assert(b.entries[cb[w]].parsed is Loaded);
    if v < w {
        assert(cb[v] == ca[v]);
        assert(!(a.entries[ca[v]].parsed is Loaded));
    }
    if w < v {
        assert(!(b.entries[cb[w]].parsed is Loaded));
    }
}

pub proof fn lemma_stems_keep(st: StoreView, ps: Seq<PendingView>, policy: AliasFallbackPolicy)
    ensures
        ({
            let (s, acc) = store::stems_pass(st, ps, policy);
            &&& s.entries.len() >= st.entries.len()
            &&& forall|i: int|
                0 <= i < st.entries.len() ==> #[trigger] s.entries[i] == st.entries[i]
            &&& forall|j: int|
                0 <= j < acc.len() ==> st.entries.len() <= (#[trigger] acc[j]).idx
                    < s.entries.len()
        }),
    decreases ps.len(),
{
    if ps.len() > 0 {
        lemma_stems_keep(st, ps.drop_last(), policy);
        let (s1, acc1) = store::stems_pass(st, ps.drop_last(), policy);
        let (s, acc) = store::stems_pass(st, ps, policy);
        assert forall|i: int| 0 <= i < st.entries.len() implies #[trigger] s.entries[i]
            == st.entries[i] by {
            assert(s1.entries[i] == st.entries[i]);
        }
        assert forall|j: int| 0 <= j < acc.len() implies st.entries.len() <= (
        #[trigger] acc[j]).idx < s.entries.len() by {
            if j < acc1.len() {
                assert(acc[j] == acc1[j]);
            }
        }
    }
}

pub proof fn lemma_names_keep(
    st: StoreView,
    acc: Seq<AcceptedView>,
    policy: AliasFallbackPolicy,
    n: int,
)
    requires
        0 <= n,
        forall|j: int|
            0 <= j < acc.len() ==> n <= (#[trigger] acc[j]).idx < st.entries.len(),
    ensures
        ({
            let s = store::names_pass(st, acc, policy);
            &&& s.entries.len() == st.entries.len()
            &&& forall|i: int|
                0 <= i < n && i < st.entries.len() ==> #[trigger] s.entries[i] == st.entries[i]
            &&& forall|i: int|
                0 <= i < st.entries.len() ==> #[trigger] s.entries[i] == (store::SpecEntryView {
                    aliases: s.entries[i].aliases,
                    ..st.entries[i]
                })
        }),
    decreases acc.len(),
{
    if acc.len() > 0 {
        lemma_names_keep(st, acc.drop_last(), policy, n);
        let s1 = store::names_pass(st, acc.drop_last(), policy);
        let s = store::names_pass(st, acc, policy);
        assert(acc.last() == acc[acc.len() - 1]);
        assert forall|i: int| 0 <= i < n && i < st.entries.len() implies #[trigger] s.entries[i]
            == st.entries[i] by {
            assert(s1.entries[i] == st.entries[i]);
        }
        assert forall|i: int| 0 <= i < st.entries.len() implies #[trigger] s.entries[i] == (
        store::SpecEntryView { aliases: s.entries[i].aliases, ..st.entries[i] }) by {
            assert(s1.entries[i] == (store::SpecEntryView {
                aliases: s1.entries[i].aliases,
                ..st.entries[i]
            }));
        }
    }
}

/// Registering a batch leaves the entries that are there as they are, in
/// front of any new ones.
pub proof fn law_registration_keeps_entries(
    st: StoreView,
    ps: Seq<PendingView>,
    policy: AliasFallbackPolicy,
)
    ensures
        st.entries.is_prefix_of(store::registered(st, ps, policy).entries),
{
    lemma_stems_keep(st, ps, policy);
    let (s, acc) = store::stems_pass(st, ps, policy);
    lemma_names_keep(s, acc, policy, st.entries.len() as int);
    let r = store::registered(st, ps, policy);
    assert(st.entries =~= r.entries.subrange(0, st.entries.len() as int)) by {
        assert forall|i: int| 0 <= i < st.entries.len() implies st.entries[i] == r.entries[i] by {
            assert(s.entries[i] == st.entries[i]);
        }
    }
}

proof fn lemma_all_stems_accepted(st: StoreView, ps: Seq<PendingView>)
    ensures
        ({
            let s = store::stems_pass(st, ps, AliasFallbackPolicy::KeepLowerPrecedence).0;
            &&& s.entries.len() == st.entries.len() + ps.len()
            &&& forall|k: int|
                0 <= k < ps.len() ==> s.entries[st.entries.len() + k] == store::fresh_entry(
                    #[trigger] ps[k],
                ) && s.index.dom().contains(ps[k].filename_stem)
                    && s.index[ps[k].filename_stem].contains(st.entries.len() + k)
        }),
    decreases ps.len(),
{
    if ps.len() > 0 {
        let policy = AliasFallbackPolicy::KeepLowerPrecedence;
        let ds = ps.drop_last();
        lemma_all_stems_accepted(st, ds);
        let s1 = store::stems_pass(st, ds, policy).0;
        let s = store::stems_pass(st, ps, policy).0;
        let p = ps.last();
        let n = s1.entries.len() as int;
        assert(s.entries == s1.entries.push(store::fresh_entry(p)));
        assert(s.index == alias_index::with_candidate(s1.index, p.filename_stem, n));
        assert forall|k: int| 0 <= k < ps.len() implies s.entries[st.entries.len() + k]
            == store::fresh_entry(#[trigger] ps[k]) && s.index.dom().contains(ps[k].filename_stem)
            && s.index[ps[k].filename_stem].contains(st.entries.len() + k) by {
            let stem = ps[k].filename_stem;
            if k < ds.len() {
                assert(ds[k] == ps[k]);
                let c = s1.index[stem];
                let q = choose|q: int| 0 <= q < c.len() && c[q] == st.entries.len() + k;
                assert(s.index[stem][q] == c[q]);
            } else {
                let c = s.index[stem];
                if s1.index.dom().contains(stem) && s1.index[stem].contains(n) {
                } else {
                    assert(c[c.len() - 1] == n);
                }
            }
        }
    }
}

/// With lower precedence kept, every spec of a batch gets its entry behind
/// those that are there, and queues up under its stem.
pub proof fn law_lower_precedence_queues_up(st: StoreView, ps: Seq<PendingView>, k: int)
    requires
        0 <= k < ps.len(),
    ensures
        ({
            let r = store::registered(st, ps, AliasFallbackPolicy::KeepLowerPrecedence);
            let i = st.entries.len() + k;
            &&& r.entries.len() == st.entries.len() + ps.len()
            &&& r.entries[i] == (store::SpecEntryView {
                aliases: r.entries[i].aliases,
                ..store::fresh_entry(ps[k])
            })
            &&& r.index.dom().contains(ps[k].filename_stem)
            &&& r.index[ps[k].filename_stem].contains(i)
        }),
{
    let policy = AliasFallbackPolicy::KeepLowerPrecedence;
    lemma_stems_keep(st, ps, policy);
    lemma_all_stems_accepted(st, ps);
    let (s, acc) = store::stems_pass(st, ps, policy);
    lemma_names_keep(s, acc, policy, st.entries.len() as int);
    store_laws::lemma_names_extend(s, acc, policy);
    let r = store::registered(st, ps, policy);
    let i = st.entries.len() + k;
    let stem = ps[k].filename_stem;
    assert(s.entries[i] == store::fresh_entry(ps[k]));
    assert(s.index.dom().contains(stem));
    let q = choose|q: int| 0 <= q < s.index[stem].len() && s.index[stem][q] == i;
    assert(s.index[stem] =~= r.index[stem].subrange(0, s.index[stem].len() as int));
    assert(s.index[stem][q] == r.index[stem].subrange(0, s.index[stem].len() as int)[q]);
}

/// What a loader makes of a source depends on nothing but the source.
pub open spec fn steady<F: Fn(&SpecSource) -> Result<Arc<CompletionSpec>, String>>(
    load: F,
) -> bool {
    forall|
        s: SpecSource,
        t: SpecSource,
        x: Result<Arc<CompletionSpec>, String>,
        y: Result<Arc<CompletionSpec>, String>,
    |
        s@ == t@ && #[trigger] call_ensures(load, (&s,), x) && #[trigger] call_ensures(
            load,
            (&t,),
            y,
        ) ==> same_outcome(store::state_of(x), store::state_of(y))
}

/// Two attempts to load that ended alike: both with the same spec, or both
/// without one.
pub open spec fn same_outcome(x: store::LoadState, y: store::LoadState) -> bool {
    match (x, y) {
        (store::LoadState::Loaded(s), store::LoadState::Loaded(t)) => (*s)@ == (*t)@,
        (store::LoadState::Loaded(_), _) => false,
        (_, store::LoadState::Loaded(_)) => false,
        _ => true,
    }
}

proof fn lemma_same_outcome<F: Fn(&SpecSource) -> Result<Arc<CompletionSpec>, String>>(
    load: F,
    b: SpecEntry,
    b_after: SpecEntry,
    c: SpecEntry,
    c_after: SpecEntry,
)
    requires
        steady(load),
        b@ == c@,
        store::loaded_by(load, b, b_after),
        store::loaded_by(load, c, c_after),
        !(b_after.parsed is Untouched),
        !(c_after.parsed is Untouched),
    ensures
        same_outcome(b_after.parsed, c_after.parsed),
{
    assert(b.parsed == c.parsed);
    assert(b.source@ == c.source@);
    if b.parsed is Untouched {
        let x = choose|x: Result<Arc<CompletionSpec>, String>|
            #![trigger store::state_of(x)]
            call_ensures(load, (&b.source,), x) && b_after == (SpecEntry {
                parsed: store::state_of(x),
                ..b
            });
        let y = choose|y: Result<Arc<CompletionSpec>, String>|
            #![trigger store::state_of(y)]
            call_ensures(load, (&c.source,), y) && c_after == (SpecEntry {
                parsed: store::state_of(y),
                ..c
            });
        assert(same_outcome(store::state_of(x), store::state_of(y)));
    }
}

/// A batch that is registered later only adds to what a store answers. Take a
/// store before and after the batch and look up a command in each with a
/// loader that goes by the source: where the first answers, the second gives
/// the same spec.
pub proof fn law_later_specs_only_add<
    F: Fn(&SpecSource) -> Result<Arc<CompletionSpec>, String>,
>(
    ps: Seq<PendingView>,
    policy: AliasFallbackPolicy,
    load: F,
    few: SpecStore,
    few_after: SpecStore,
    all: SpecStore,
    all_after: SpecStore,
    command: Seq<char>,
)
    requires
        steady(load),
        few.wf(),
        all@ == store::registered(few@, ps, policy),
        SpecStore::advanced(few, few_after, load),
        SpecStore::advanced(all, all_after, load),
        forall|i: int|
            0 <= i < few.items().len() && store::consulted(few_after@, command, i) ==> !((
            #[trigger] few_after.items()[i]).parsed is Untouched),
        forall|i: int|
            0 <= i < all.items().len() && store::consulted(all_after@, command, i) ==> !((
            #[trigger] all_after.items()[i]).parsed is Untouched),
        store::lookup(few_after@, command) is Ok,
    ensures
        store::lookup(all_after@, command) is Ok,
        (*store::lookup(all_after@, command)->Ok_0)@ == (*store::lookup(
            few_after@,
            command,
        )->Ok_0)@,
{
    law_registration_keeps_entries(few@, ps, policy);
    store_laws::law_earlier_registration_wins(few@, ps, policy);
    few_after.lemma_wf_consistent();
    few.law_items_are_the_entries();
    few_after.law_items_are_the_entries();
    all.law_items_are_the_entries();
    all_after.law_items_are_the_entries();
    let a = few_after@;
    let b = all_after@;
    let ca = a.index[command];
    let cb = b.index[command];
    store::lemma_first_loaded(a.entries, ca, 0);
    store::lemma_first_loaded(b.entries, cb, 0);
    let w = store::first_loaded(a.entries, ca, 0);
    let v = store::first_loaded(b.entries, cb, 0);
    assert(ca =~= cb.subrange(0, ca.len() as int));
    assert forall|k: int| 0 <= k <= w && k <= v implies same_outcome(
        a.entries[ca[k]].parsed,
        b.entries[#[trigger] cb[k]].parsed,
    ) && cb[k] == ca[k] by {
        assert(ca[k] == cb.subrange(0, ca.len() as int)[k]);
        let i = ca[k];
        assert(a.index[command][k] == i);
        assert(b.index[command][k] == i);
        assert(0 <= i < a.entries.len());
        assert(store::consulted(a, command, i));
        assert(store::consulted(b, command, i));
        assert(few@.entries[i] == all@.entries.subrange(0, few@.entries.len() as int)[i]);
        assert(!(few_after.items()[i].parsed is Untouched));
        assert(!(all_after.items()[i].parsed is Untouched));
        assert(few.items()[i]@ == all.items()[i]@);
        lemma_same_outcome(
            load,
            few.items()[i],
            few_after.items()[i],
            all.items()[i],
            all_after.items()[i],
        );
    }
    if v < w {
        assert(same_outcome(a.entries[ca[v]].parsed, b.entries[cb[v]].parsed));
        assert(!(a.entries[ca[v]].parsed is Loaded));
    }
    assert(same_outcome(a.entries[ca[w]].parsed, b.entries[cb[w]].parsed));
    if w < v {
        assert(!(b.entries[cb[w]].parsed is Loaded));
    }
}

/// Compiled-in specs only add to what the directories provide. Take a store
/// of the directories alone and one with compiled-in specs behind them, both
/// fresh, and look up a command in each with a loader that goes by the source:
/// where the first answers, the second gives the same spec.
pub proof fn law_embedded_specs_only_add<
    F: Fn(&SpecSource) -> Result<Arc<CompletionSpec>, String>,
>(
    ls: Seq<DirListing>,
    es: Seq<EmbeddedSpec>,
    load: F,
    dirs: SpecStore,
    dirs_after: SpecStore,
    all: SpecStore,
    all_after: SpecStore,
    command: Seq<char>,
)
    requires
        steady(load),
        dirs.wf(),
        dirs@ == loading::loaded_dirs(ls),
        all@ == store::registered(
            loading::loaded_dirs(ls),
            loading::pending_embedded(es),
            AliasFallbackPolicy::KeepLowerPrecedence,
        ),
        SpecStore::advanced(dirs, dirs_after, load),
        SpecStore::advanced(all, all_after, load),
        forall|i: int|
            0 <= i < dirs.items().len() && store::consulted(dirs_after@, command, i) ==> !((
            #[trigger] dirs_after.items()[i]).parsed is Untouched),
        forall|i: int|
            0 <= i < all.items().len() && store::consulted(all_after@, command, i) ==> !((
            #[trigger] all_after.items()[i]).parsed is Untouched),
        store::lookup(dirs_after@, command) is Ok,
    ensures
        store::lookup(all_after@, command) is Ok,
        (*store::lookup(all_after@, command)->Ok_0)@ == (*store::lookup(
            dirs_after@,
            command,
        )->Ok_0)@,
{
    law_later_specs_only_add(
        loading::pending_embedded(es),
        AliasFallbackPolicy::KeepLowerPrecedence,
        load,
        dirs,
        dirs_after,
        all,
        all_after,
        command,
    );
}

proof fn lemma_embedded_sources(es: Seq<EmbeddedSpec>)
    ensures
        forall|k: int|
            0 <= k < loading::pending_embedded(es).len() ==> (#[trigger] loading::pending_embedded(
                es,
            )[k]).source is Embedded,
    decreases es.len(),
{
    if es.len() > 0 {
        lemma_embedded_sources(es.drop_last());
        let rest = loading::pending_embedded(es.drop_last());
        let r = loading::pending_embedded(es);
        assert forall|k: int| 0 <= k < r.len() implies (#[trigger] r[k]).source is Embedded by {
            if k < rest.len() {
                assert(r[k] == rest[k]);
            }
        }
    }
}

/// The locations of a store with compiled-in specs are those of its
/// directories, followed by one for each compiled-in spec: none is dropped.
pub proof fn law_embedded_locations_follow(ls: Seq<DirListing>, es: Seq<EmbeddedSpec>)
    ensures
        ({
            let dirs = loading::loaded_dirs(ls);
            let ps = loading::pending_embedded(es);
            store::registered(
                dirs,
                ps,
                AliasFallbackPolicy::KeepLowerPrecedence,
            ).entries.map_values(|e: store::SpecEntryView| store::location_of(e))
                == dirs.entries.map_values(|e: store::SpecEntryView| store::location_of(e))
                + ps.map_values(
                |p: PendingView| store::LocationView::Embedded { stem: p.filename_stem },
            )
        }),
{
    let policy = AliasFallbackPolicy::KeepLowerPrecedence;
    let st = loading::loaded_dirs(ls);
    let ps = loading::pending_embedded(es);
    let r = store::registered(st, ps, policy);
    let n = st.entries.len() as int;
    lemma_embedded_sources(es);
    law_registration_keeps_entries(st, ps, policy);
    lemma_stems_keep(st, ps, policy);
    lemma_all_stems_accepted(st, ps);
    let (s, acc) = store::stems_pass(st, ps, policy);
    lemma_names_keep(s, acc, policy, n);
    let got = r.entries.map_values(|e: store::SpecEntryView| store::location_of(e));
    let want = st.entries.map_values(|e: store::SpecEntryView| store::location_of(e))
        + ps.map_values(|p: PendingView| store::LocationView::Embedded { stem: p.filename_stem });
    assert forall|i: int| 0 <= i < got.len() implies #[trigger] got[i] == want[i] by {
        if i < n {
            assert(st.entries[i] == r.entries.subrange(0, n)[i]);
        } else {
            law_lower_precedence_queues_up(st, ps, i - n);
            assert(ps[i - n].source is Embedded);
        }
    }
    assert(got =~= want);
}

/// Once every entry was tried, nothing changes any more: whatever is asked of
/// such a store, and with whatever loader, its contents stay.
pub proof fn law_tried_store_is_settled<
    F: Fn(&SpecSource) -> Result<Arc<CompletionSpec>, String>,
>(before: SpecStore, after: SpecStore, load: F)
    requires
        SpecStore::advanced(before, after, load),
        forall|i: int|
            0 <= i < before.items().len() ==> !((
            #[trigger] before.items()[i]).parsed is Untouched),
    ensures
        after@ == before@,
{
    before.law_items_are_the_entries();
    after.law_items_are_the_entries();
    assert forall|i: int| 0 <= i < before.items().len() implies after.items()[i]
        == before.items()[i] by {
        assert(store::loaded_by(load, before.items()[i], after.items()[i]));
    }
    assert(after.items() =~= before.items());
}

} // verus!
