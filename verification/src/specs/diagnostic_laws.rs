//! Which entries of a store are reported: those that failed, those that are
//! files, and the aliases that nothing answers to.
use crate::specs::store;
use crate::specs::store::{
    AliasFallbackPolicy, LoadErrorView, LoadState, LocationView, PendingView, SourceView,
    SpecEntryView, StoreView,
};
use vstd::prelude::*;

verus! {

/// Every entry that failed is reported with its place and its error, in the
/// order of the entries; no other entry is.
pub proof fn law_every_failure_is_reported(
    a: Seq<SpecEntryView>,
    e: SpecEntryView,
    b: Seq<SpecEntryView>,
)
    ensures
        store::failures(Seq::empty()).len() == 0,
        e.parsed matches LoadState::Failed(m) ==> store::failures(a + seq![e] + b)
            == store::failures(a) + seq![
            (LoadErrorView { id: e.id, source: store::location_of(e), error: m@ }),
        ] + store::failures(b),
        !(e.parsed is Failed) ==> store::failures(a + seq![e] + b) == store::failures(a)
            + store::failures(b),
    decreases b.len(),
{
    let all = a + seq![e] + b;
    if b.len() == 0 {
        assert(all =~= a.push(e));
        assert(all.drop_last() =~= a);
    } else {
        law_every_failure_is_reported(a, e, b.drop_last());
        assert(all.drop_last() =~= a + seq![e] + b.drop_last());
        assert(all.last() == b.last());
    }
}

/// A file is found at its path under its stem; a built-in text under its stem
/// alone.
pub proof fn law_location(e: SpecEntryView, path: Seq<char>)
    ensures
        e.source == SourceView::Filesystem(path) ==> store::location_of(e)
            == (LocationView::Filesystem { stem: e.filename_stem, path }),
        e.source is Embedded ==> store::location_of(e) == (LocationView::Embedded {
            stem: e.filename_stem,
        }),
{
}

/// Every entry that is a file is listed with its stem and path, in the order
/// of the entries; built-in entries are not.
pub proof fn law_every_file_is_listed(
    a: Seq<SpecEntryView>,
    e: SpecEntryView,
    b: Seq<SpecEntryView>,
)
    ensures
        store::file_paths(Seq::empty()).len() == 0,
        e.source matches SourceView::Filesystem(path) ==> store::file_paths(a + seq![e] + b)
            == store::file_paths(a) + seq![(e.filename_stem, path)] + store::file_paths(b),
        e.source is Embedded ==> store::file_paths(a + seq![e] + b) == store::file_paths(a)
            + store::file_paths(b),
    decreases b.len(),
{
    let all = a + seq![e] + b;
    if b.len() == 0 {
        assert(all =~= a.push(e));
        assert(all.drop_last() =~= a);
    } else {
        law_every_file_is_listed(a, e, b.drop_last());
        assert(all.drop_last() =~= a + seq![e] + b.drop_last());
        assert(all.last() == b.last());
    }
}

/// An alias is dead if it is indexed and none of its candidates is loaded.
pub proof fn law_dead_alias(st: StoreView, a: Seq<char>)
    ensures
        store::dead_aliases(st).contains(a) <==> st.index.dom().contains(a) && forall|k: int|
            0 <= k < st.index[a].len() ==> !((#[trigger] st.entries[st.index[a][k]]).parsed is Loaded),
{
    store::lemma_first_loaded(st.entries, st.index[a], 0);
    let n = store::first_loaded(st.entries, st.index[a], 0);
    if n < st.index[a].len() {
        assert(st.entries[st.index[a][n]].parsed is Loaded);
    }
}

/// A file that is in conflict over its stem is reported under the name that it
/// declares, or else its stem; both owners with their stems and directories.
pub proof fn law_conflict_owners(
    holder: SpecEntryView,
    p: PendingView,
    policy: AliasFallbackPolicy,
    n: Seq<char>,
)
    ensures
        p.name_alias == Some(n) ==> store::stem_conflict(holder, p, policy).loser.spec_name == n,
        p.name_alias is None ==> store::stem_conflict(holder, p, policy).loser.spec_name
            == p.filename_stem,
        store::stem_conflict(holder, p, policy).loser.filename_stem == p.filename_stem,
        store::stem_conflict(holder, p, policy).loser.source_dir == p.source_dir,
        store::stem_conflict(holder, p, policy).winner.filename_stem == holder.filename_stem,
        store::stem_conflict(holder, p, policy).winner.source_dir == holder.source_dir,
        store::stem_conflict(holder, p, policy).alias == p.filename_stem,
{
}

} // verus!
