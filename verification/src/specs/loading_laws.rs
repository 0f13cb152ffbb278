//! What loading promises of every file, directory and compiled-in spec.
use crate::sorting;
use crate::sorting::Keyed;
use crate::specs::alias_index;
use crate::specs::loading;
use crate::specs::loading::{DirListing, EmbeddedSpec, SpecFile};
use crate::specs::lookup_laws;
use crate::specs::store;
use crate::specs::store::{
    AcceptedView, AliasConflictDisposition, AliasConflictKind, AliasFallbackPolicy, LoadState,
    PendingView, SourceView, StoreView,
};
use crate::specs::store_laws;
use crate::text;
use vstd::prelude::*;
use vstd::string::*;

verus! {

/// The file name of the spec with this stem.
pub open spec fn json_name(stem: Seq<char>) -> Seq<char> {
    stem + seq!['.', 'j', 's', 'o', 'n']
}

proof fn lemma_json_name(stem: Seq<char>)
    ensures
        loading::is_spec_name(json_name(stem)) <==> stem.len() > 0,
        loading::stem_of(json_name(stem)) == stem,
        ".json"@.is_suffix_of(json_name(stem)),
{
    reveal_strlit(".json");
    let e = seq!['.', 'j', 's', 'o', 'n'];
    assert(".json"@ =~= e);
    let n = json_name(stem);
    assert(n.subrange(n.len() - 5, n.len() as int) =~= e);
    assert(n.take(n.len() - 5) =~= stem);
}

/// A file is a spec exactly if its name is something followed by `.json`, and
/// that something is its stem.
pub proof fn law_spec_names(name: Seq<char>, stem: Seq<char>)
    ensures
        stem.len() > 0 ==> loading::is_spec_name(json_name(stem)),
        loading::stem_of(json_name(stem)) == stem,
        loading::is_spec_name(name) ==> exists|s: Seq<char>|
            s.len() > 0 && name == #[trigger] json_name(s),
        !loading::is_spec_name(seq!['.', 'j', 's', 'o', 'n']),
{
    lemma_json_name(stem);
    reveal_strlit(".json");
    let e = seq!['.', 'j', 's', 'o', 'n'];
    assert(".json"@ =~= e);
    if loading::is_spec_name(name) {
        let s = name.take(name.len() - 5);
        assert(name =~= json_name(s)) by {
            assert forall|i: int| name.len() - 5 <= i < name.len() implies name[i] == json_name(
                s,
            )[i] by {
                assert(name[i] == e[i - (name.len() - 5)]);
            }
        }
    }
}

// ---------------------------------------------------------------------------
// One directory
// ---------------------------------------------------------------------------
proof fn lemma_spec_files(a: Seq<SpecFile>, b: Seq<SpecFile>)
    ensures
        loading::spec_files(a + b) == loading::spec_files(a) + loading::spec_files(b),
    decreases b.len(),
{
    reveal(Seq::filter);
    let p = |f: SpecFile| loading::is_spec_name(f.file_name@);
    if b.len() == 0 {
        assert(a + b =~= a);
        assert(a.filter(p) + b.filter(p) =~= a.filter(p));
    } else {
        lemma_spec_files(a, b.drop_last());
        assert((a + b).drop_last() =~= a + b.drop_last());
        assert((a + b).last() == b.last());
        assert((a + b).filter(p) =~= a.filter(p) + b.filter(p));
    }
}

proof fn lemma_one_file(f: SpecFile)
    ensures
        loading::spec_files(seq![f]) == (if loading::is_spec_name(f.file_name@) {
            seq![f]
        } else {
            Seq::empty()
        }),
{
    reveal(Seq::filter);
    let p = |f: SpecFile| loading::is_spec_name(f.file_name@);
    assert(seq![f].drop_last() =~= Seq::empty());
    assert(seq![f].drop_last().filter(p) =~= Seq::empty());
    assert(seq![f].filter(p) =~= (if p(f) {
        seq![f]
    } else {
        Seq::empty()
    }));
}

/// A directory holds as many specs as it has files with the name of one,
/// however many there are: one more such file is one more spec, with that
/// file's stem, declared name and path, and the others stay. A file of
/// another name adds none.
pub proof fn law_every_file_counts(
    dir: Seq<char>,
    a: Seq<SpecFile>,
    f: SpecFile,
    b: Seq<SpecFile>,
    stem: Seq<char>,
)
    ensures
        f.file_name@ == json_name(stem) && stem.len() > 0 ==> loading::pending_dir(
            dir,
            a + seq![f] + b,
        ).to_multiset() == loading::pending_dir(dir, a + b).to_multiset().insert(
            (PendingView {
                filename_stem: stem,
                name_alias: text::opt_view(f.declared_name),
                source_dir: dir,
                source: SourceView::Filesystem(f.path@),
            }),
        ),
        f.file_name@ == json_name(stem) && stem.len() > 0 ==> loading::pending_dir(
            dir,
            a + seq![f] + b,
        ).len() == loading::pending_dir(dir, a + b).len() + 1,
        !(exists|s: Seq<char>| s.len() > 0 && f.file_name@ == #[trigger] json_name(s))
            ==> loading::pending_dir(dir, a + seq![f] + b) == loading::pending_dir(dir, a + b),
        loading::pending_dir(dir, Seq::empty()) == Seq::<PendingView>::empty(),
{
    broadcast use vstd::seq_lib::group_to_multiset_ensures;

    let g = |f: SpecFile| loading::pending_file(dir, f);
    let sa = loading::spec_files(a);
    let sb = loading::spec_files(b);
    lemma_spec_files(a, b);
    lemma_spec_files(a, seq![f]);
    lemma_spec_files(a + seq![f], b);
    lemma_one_file(f);
    law_spec_names(f.file_name@, stem);
    let few = sa + sb;
    let all = loading::spec_files(a + seq![f] + b);
    if f.file_name@ == json_name(stem) && stem.len() > 0 {
        assert(all == sa + seq![f] + sb);
        sorting::law_sorted(all);
        sorting::law_sorted(few);
        sorting::lemma_mapped(sorting::sorted(all), all, g);
        sorting::lemma_mapped(sorting::sorted(few), few, g);
        let mfew = few.map_values(g);
        let mall = all.map_values(g);
        assert(mall.remove(sa.len() as int) =~= mfew);
        vstd::seq_lib::to_multiset_remove(mall, sa.len() as int);
        assert(mall[sa.len() as int] == g(f));
        assert(mall.contains(g(f)));
        assert(mall.to_multiset().count(g(f)) > 0);
        assert(mall.to_multiset() =~= mfew.to_multiset().insert(g(f)));
        assert(g(f) == (PendingView {
            filename_stem: stem,
            name_alias: text::opt_view(f.declared_name),
            source_dir: dir,
            source: SourceView::Filesystem(f.path@),
        }));
    } else if !(exists|s: Seq<char>| s.len() > 0 && f.file_name@ == #[trigger] json_name(s)) {
        assert(!loading::is_spec_name(f.file_name@));
        assert(sa + Seq::<SpecFile>::empty() =~= sa);
    }
    reveal(Seq::filter);
    assert(loading::spec_files(Seq::empty()) =~= Seq::empty());
    sorting::law_sorted(loading::spec_files(Seq::empty()));
    assert(loading::pending_dir(dir, Seq::empty()) =~= Seq::empty());
}

/// Every file of a listing with the name of a spec is on its way into the
/// store, with its stem, its declared name and its path.
pub proof fn law_every_file_is_pending(
    dir: Seq<char>,
    files: Seq<SpecFile>,
    i: int,
    stem: Seq<char>,
)
    requires
        0 <= i < files.len(),
        files[i].file_name@ == json_name(stem),
        stem.len() > 0,
    ensures
        loading::pending_dir(dir, files).contains(
            (PendingView {
                filename_stem: stem,
                name_alias: text::opt_view(files[i].declared_name),
                source_dir: dir,
                source: SourceView::Filesystem(files[i].path@),
            }),
        ),
{
    broadcast use vstd::seq_lib::group_to_multiset_ensures;

    let a = files.take(i);
    let b = files.skip(i + 1);
    assert(a + seq![files[i]] + b =~= files);
    law_every_file_counts(dir, a, files[i], b, stem);
    let p = PendingView {
        filename_stem: stem,
        name_alias: text::opt_view(files[i].declared_name),
        source_dir: dir,
        source: SourceView::Filesystem(files[i].path@),
    };
    assert(loading::pending_dir(dir, files).to_multiset().count(p) > 0);
}

/// The specs of a directory are in order of their stems.
pub proof fn law_pending_in_order(dir: Seq<char>, files: Seq<SpecFile>)
    ensures
        forall|i: int, j: int|
            0 <= i < j < loading::pending_dir(dir, files).len() ==> !text::lex_lt(
                (#[trigger] loading::pending_dir(dir, files)[j]).filename_stem,
                (#[trigger] loading::pending_dir(dir, files)[i]).filename_stem,
            ),
{
    let s = sorting::sorted(loading::spec_files(files));
    sorting::law_sorted(loading::spec_files(files));
    let p = loading::pending_dir(dir, files);
    assert forall|i: int, j: int| 0 <= i < j < p.len() implies !text::lex_lt(
        (#[trigger] p[j]).filename_stem,
        (#[trigger] p[i]).filename_stem,
    ) by {
        assert(!text::lex_lt(s[j].key_view(), s[i].key_view()));
    }
}

// ---------------------------------------------------------------------------
// One batch
// ---------------------------------------------------------------------------
proof fn lemma_stems_known(st: StoreView, ps: Seq<PendingView>, policy: AliasFallbackPolicy)
    ensures
        forall|a: Seq<char>| #[trigger]
            store::stems_pass(st, ps, policy).0.index.dom().contains(a)
                <==> st.index.dom().contains(a) || exists|j: int|
                0 <= j < ps.len() && (#[trigger] ps[j]).filename_stem == a,
    decreases ps.len(),
{
    if ps.len() > 0 {
        let d = ps.drop_last();
        lemma_stems_known(st, d, policy);
        let s1 = store::stems_pass(st, d, policy).0;
        let s2 = store::stems_pass(st, ps, policy).0;
        let p = ps.last();
        assert forall|a: Seq<char>| #[trigger] s2.index.dom().contains(a)
            <==> st.index.dom().contains(a) || exists|j: int|
            0 <= j < ps.len() && (#[trigger] ps[j]).filename_stem == a by {
            assert(s2.index.dom().contains(a) <==> s1.index.dom().contains(a) || a
                == p.filename_stem);
            if exists|j: int| 0 <= j < d.len() && (#[trigger] d[j]).filename_stem == a {
                let j = choose|j: int| 0 <= j < d.len() && (#[trigger] d[j]).filename_stem == a;
                assert(ps[j] == d[j]);
            }
            if a == p.filename_stem {
                assert(ps[ps.len() - 1].filename_stem == a);
            }
            if exists|j: int| 0 <= j < ps.len() && (#[trigger] ps[j]).filename_stem == a {
                let j = choose|j: int| 0 <= j < ps.len() && (#[trigger] ps[j]).filename_stem == a;
                if j < d.len() {
                    assert(d[j] == ps[j]);
                }
            }
        }
    }
}

/// The first file of a new stem is accepted, and is the first candidate of it.
proof fn lemma_first_of_stem(
    st: StoreView,
    ps: Seq<PendingView>,
    policy: AliasFallbackPolicy,
    k: int,
) -> (m: int)
    requires
        0 <= k < ps.len(),
        !st.index.dom().contains(ps[k].filename_stem),
        forall|j: int| 0 <= j < k ==> (#[trigger] ps[j]).filename_stem != ps[k].filename_stem,
    ensures
        ({
            let (s, acc) = store::stems_pass(st, ps, policy);
            let stem = ps[k].filename_stem;
            &&& 0 <= m < acc.len()
            &&& acc[m].can_create
            &&& acc[m].name_alias == ps[k].name_alias
            &&& 0 <= acc[m].idx < s.entries.len()
            &&& s.entries[acc[m].idx] == store::fresh_entry(ps[k])
            &&& s.index.dom().contains(stem)
            &&& s.index[stem].len() > 0
            &&& s.index[stem][0] == acc[m].idx
            &&& forall|i: int|
                0 <= i < m ==> exists|j: int|
                    0 <= j < k && (#[trigger] acc[i]).name_alias == (#[trigger] ps[j]).name_alias
        }),
    decreases ps.len(),
{
    let d = ps.drop_last();
    let (s1, acc1) = store::stems_pass(st, d, policy);
    let (s, acc) = store::stems_pass(st, ps, policy);
    let p = ps.last();
    let stem = ps[k].filename_stem;
    if k < d.len() {
        assert(d[k] == ps[k]);
        assert forall|j: int| 0 <= j < k implies (#[trigger] d[j]).filename_stem
            != d[k].filename_stem by {
            assert(d[j] == ps[j]);
        }
        let m = lemma_first_of_stem(st, d, policy, k);
        assert(acc[m] == acc1[m]);
        assert(s.entries[acc[m].idx] == s1.entries[acc[m].idx]);
        assert(s.index[stem][0] == s1.index[stem][0]);
        assert forall|i: int| 0 <= i < m implies exists|j: int|
            0 <= j < k && (#[trigger] acc[i]).name_alias == (#[trigger] ps[j]).name_alias by {
            assert(acc[i] == acc1[i]);
            let j = choose|j: int|
                0 <= j < k && (#[trigger] acc1[i]).name_alias == (#[trigger] d[j]).name_alias;
            assert(ps[j] == d[j]);
        }
        m
    } else {
        lemma_stems_known(st, d, policy);
        if s1.index.dom().contains(stem) {
            let j = choose|j: int| 0 <= j < d.len() && (#[trigger] d[j]).filename_stem == stem;
            assert(ps[j] == d[j]);
        }
        lemma_accepted_names(st, d, policy);
        let m = acc1.len() as int;
        assert(acc[m].name_alias == p.name_alias);
        assert forall|i: int| 0 <= i < m implies exists|j: int|
            0 <= j < k && (#[trigger] acc[i]).name_alias == (#[trigger] ps[j]).name_alias by {
            assert(acc[i] == acc1[i]);
            let j = choose|j: int|
                0 <= j < d.len() && (#[trigger] acc1[i]).name_alias == (
                #[trigger] d[j]).name_alias;
            assert(ps[j] == d[j]);
        }
        m
    }
}

proof fn lemma_accepted_names(st: StoreView, ps: Seq<PendingView>, policy: AliasFallbackPolicy)
    ensures
        forall|i: int|
            0 <= i < store::stems_pass(st, ps, policy).1.len() ==> exists|j: int|
                0 <= j < ps.len() && (#[trigger] store::stems_pass(
                    st,
                    ps,
                    policy,
                ).1[i]).name_alias == (#[trigger] ps[j]).name_alias,
    decreases ps.len(),
{
    if ps.len() > 0 {
        let d = ps.drop_last();
        lemma_accepted_names(st, d, policy);
        let acc1 = store::stems_pass(st, d, policy).1;
        let acc = store::stems_pass(st, ps, policy).1;
        assert forall|i: int| 0 <= i < acc.len() implies exists|j: int|
            0 <= j < ps.len() && (#[trigger] acc[i]).name_alias == (#[trigger] ps[j]).name_alias by {
            if i < acc1.len() {
                assert(acc[i] == acc1[i]);
                let j = choose|j: int|
                    0 <= j < d.len() && (#[trigger] acc1[i]).name_alias == (
                    #[trigger] d[j]).name_alias;
                assert(ps[j] == d[j]);
            } else {
                assert(acc[i].name_alias == ps[ps.len() - 1].name_alias);
            }
        }
    }
}

/// The first file of a stem that nobody held before the batch answers to the
/// stem, with its own source and directory, and has not been read yet.
pub proof fn law_first_of_stem_answers(
    st: StoreView,
    ps: Seq<PendingView>,
    policy: AliasFallbackPolicy,
    k: int,
)
    requires
        0 <= k < ps.len(),
        !st.index.dom().contains(ps[k].filename_stem),
        forall|j: int| 0 <= j < k ==> (#[trigger] ps[j]).filename_stem != ps[k].filename_stem,
    ensures
        ({
            let r = store::registered(st, ps, policy);
            alias_index::primary(r.index, ps[k].filename_stem) matches Some(h) && 0 <= h
                < r.entries.len() && r.entries[h].id == ps[k].filename_stem
                && r.entries[h].filename_stem == ps[k].filename_stem && r.entries[h].source
                == ps[k].source && r.entries[h].source_dir == ps[k].source_dir
                && r.entries[h].parsed is Untouched
        }),
{
    let m = lemma_first_of_stem(st, ps, policy, k);
    let (s, acc) = store::stems_pass(st, ps, policy);
    let stem = ps[k].filename_stem;
    let r = store::registered(st, ps, policy);
    lookup_laws::lemma_stems_keep(st, ps, policy);
    lookup_laws::lemma_names_keep(s, acc, policy, st.entries.len() as int);
    store_laws::lemma_names_extend(s, acc, policy);
    assert(s.index[stem] =~= r.index[stem].subrange(0, s.index[stem].len() as int));
    assert(s.index[stem][0] == r.index[stem].subrange(0, s.index[stem].len() as int)[0]);
    assert(r.entries[acc[m].idx] == (store::SpecEntryView {
        aliases: r.entries[acc[m].idx].aliases,
        ..s.entries[acc[m].idx]
    }));
}

proof fn lemma_names_known(st: StoreView, acc: Seq<AcceptedView>, policy: AliasFallbackPolicy)
    ensures
        forall|a: Seq<char>| #[trigger]
            store::names_pass(st, acc, policy).index.dom().contains(a) ==> st.index.dom().contains(a)
                || exists|j: int| 0 <= j < acc.len() && (#[trigger] acc[j]).name_alias == Some(a),
    decreases acc.len(),
{
    if acc.len() > 0 {
        let d = acc.drop_last();
        lemma_names_known(st, d, policy);
        let s1 = store::names_pass(st, d, policy);
        let s2 = store::names_pass(st, acc, policy);
        assert forall|a: Seq<char>| #[trigger] s2.index.dom().contains(a) implies st.index.dom().contains(
            a,
        ) || exists|j: int| 0 <= j < acc.len() && (#[trigger] acc[j]).name_alias == Some(a) by {
            if s1.index.dom().contains(a) {
                if !st.index.dom().contains(a) {
                    let j = choose|j: int|
                        0 <= j < d.len() && (#[trigger] d[j]).name_alias == Some(a);
                    assert(acc[j] == d[j]);
                }
            } else {
                assert(acc[acc.len() - 1].name_alias == Some(a));
            }
        }
    }
}

proof fn lemma_name_taken(
    st: StoreView,
    acc: Seq<AcceptedView>,
    policy: AliasFallbackPolicy,
    m: int,
    name: Seq<char>,
)
    requires
        store::acceptable(st, acc),
        0 <= m < acc.len(),
        acc[m].can_create,
        acc[m].name_alias == Some(name),
        name.len() > 0,
        name != st.entries[acc[m].idx].filename_stem,
        !st.index.dom().contains(name),
        forall|i: int| 0 <= i < m ==> (#[trigger] acc[i]).name_alias != Some(name),
    ensures
        ({
            let r = store::names_pass(st, acc, policy);
            r.index.dom().contains(name) && r.index[name].len() > 0 && r.index[name][0]
                == acc[m].idx
        }),
    decreases acc.len(),
{
    let d = acc.drop_last();
    let s1 = store::names_pass(st, d, policy);
    let r = store::names_pass(st, acc, policy);
    assert(store::acceptable(st, d)) by {
        assert forall|i: int| 0 <= i < d.len() implies 0 <= (#[trigger] d[i]).idx
            < st.entries.len() by {
            assert(d[i] == acc[i]);
        }
    }
    if m < d.len() {
        assert(d[m] == acc[m]);
        assert forall|i: int| 0 <= i < m implies (#[trigger] d[i]).name_alias != Some(name) by {
            assert(d[i] == acc[i]);
        }
        lemma_name_taken(st, d, policy, m, name);
        assert(r.index[name][0] == s1.index[name][0]);
    } else {
        lemma_names_known(st, d, policy);
        if s1.index.dom().contains(name) {
            let j = choose|j: int| 0 <= j < d.len() && (#[trigger] d[j]).name_alias == Some(name);
            assert(acc[j] == d[j]);
        }
        assert forall|j: int| 0 <= j < d.len() implies 0 <= (#[trigger] d[j]).idx
            < st.entries.len() by {
            assert(d[j] == acc[j]);
        }
        lookup_laws::lemma_names_keep(st, d, policy, 0);
        let i = acc[m].idx;
        assert(s1.entries[i] == (store::SpecEntryView {
            aliases: s1.entries[i].aliases,
            ..st.entries[i]
        }));
        assert(r == store::with_name(s1, i, name));
    }
}

/// The name that a file declares answers with that file, where the file is the
/// first of its stem, nobody held the stem or the name before the batch, and
/// no file of the batch has the name as its stem nor declares it earlier.
pub proof fn law_declared_name_answers(
    st: StoreView,
    ps: Seq<PendingView>,
    policy: AliasFallbackPolicy,
    k: int,
    name: Seq<char>,
)
    requires
        store::consistent(st),
        0 <= k < ps.len(),
        !st.index.dom().contains(ps[k].filename_stem),
        forall|j: int| 0 <= j < k ==> (#[trigger] ps[j]).filename_stem != ps[k].filename_stem,
        ps[k].name_alias == Some(name),
        name.len() > 0,
        !st.index.dom().contains(name),
        forall|j: int| 0 <= j < ps.len() ==> (#[trigger] ps[j]).filename_stem != name,
        forall|j: int| 0 <= j < k ==> (#[trigger] ps[j]).name_alias != Some(name),
    ensures
        ({
            let r = store::registered(st, ps, policy);
            alias_index::primary(r.index, name) matches Some(h) && 0 <= h < r.entries.len()
                && r.entries[h].filename_stem == ps[k].filename_stem && r.entries[h].source
                == ps[k].source && r.entries[h].source_dir == ps[k].source_dir
        }),
{
    let m = lemma_first_of_stem(st, ps, policy, k);
    let (s, acc) = store::stems_pass(st, ps, policy);
    let r = store::registered(st, ps, policy);
    store::lemma_stems_pass(st, ps, policy);
    lemma_stems_known(st, ps, policy);
    assert forall|i: int| 0 <= i < m implies (#[trigger] acc[i]).name_alias != Some(name) by {
        let j = choose|j: int|
            0 <= j < k && (#[trigger] acc[i]).name_alias == (#[trigger] ps[j]).name_alias;
        assert(ps[j].name_alias != Some(name));
    }
    assert(ps[k].filename_stem != name);
    assert(!s.index.dom().contains(name));
    lemma_name_taken(s, acc, policy, m, name);
    lookup_laws::lemma_stems_keep(st, ps, policy);
    lookup_laws::lemma_names_keep(s, acc, policy, st.entries.len() as int);
    assert(r.entries[acc[m].idx] == (store::SpecEntryView {
        aliases: r.entries[acc[m].idx].aliases,
        ..s.entries[acc[m].idx]
    }));
}

/// After a batch every stem of it is known.
pub proof fn law_every_stem_is_known(
    st: StoreView,
    ps: Seq<PendingView>,
    policy: AliasFallbackPolicy,
    k: int,
)
    requires
        0 <= k < ps.len(),
    ensures
        store::registered(st, ps, policy).index.dom().contains(ps[k].filename_stem),
{
    let (s, acc) = store::stems_pass(st, ps, policy);
    lemma_stems_known(st, ps, policy);
    assert(s.index.dom().contains(ps[k].filename_stem));
    store_laws::lemma_names_extend(s, acc, policy);
}

// ---------------------------------------------------------------------------
// All directories
// ---------------------------------------------------------------------------
proof fn lemma_dirs_extend(ls: Seq<DirListing>, n: int)
    requires
        0 <= n <= ls.len(),
    ensures
        forall|a: Seq<char>| #[trigger]
            loading::loaded_dirs(ls.take(n)).index.dom().contains(a) ==> loading::loaded_dirs(
                ls,
            ).index.dom().contains(a),
    decreases ls.len() - n,
{
    if n == ls.len() {
        assert(ls.take(n) =~= ls);
    } else {
        lemma_dirs_extend(ls, n + 1);
        let more = ls.take(n + 1);
        assert(more.drop_last() =~= ls.take(n));
        assert(more.last() == ls[n]);
        let st = loading::loaded_dirs(ls.take(n));
        if let Ok(files) = ls[n].files {
            store_laws::law_earlier_registration_wins(
                st,
                loading::pending_dir(ls[n].dir@, files@),
                AliasFallbackPolicy::KeepDirectoryPrecedence,
            );
        }
        assert forall|a: Seq<char>| #[trigger] st.index.dom().contains(a) implies loading::loaded_dirs(
            ls,
        ).index.dom().contains(a) by {
            assert(loading::loaded_dirs(more).index.dom().contains(a));
        }
    }
}

/// Whatever the number of directories and of files in them, every file with
/// the name of a spec can be asked for under its stem once the directories are
/// loaded. Directories that cannot be listed make no difference.
pub proof fn law_every_file_is_loaded(
    ls: Seq<DirListing>,
    n: int,
    i: int,
    stem: Seq<char>,
)
    requires
        0 <= n < ls.len(),
        ls[n].files matches Ok(files) && 0 <= i < files.len() && files@[i].file_name@ == json_name(
            stem,
        ),
        stem.len() > 0,
    ensures
        loading::loaded_dirs(ls).index.dom().contains(stem),
{
    let more = ls.take(n + 1);
    assert(more.drop_last() =~= ls.take(n));
    assert(more.last() == ls[n]);
    let st = loading::loaded_dirs(ls.take(n));
    if let Ok(files) = ls[n].files {
        let ps = loading::pending_dir(ls[n].dir@, files@);
        law_every_file_is_pending(ls[n].dir@, files@, i, stem);
        let p = PendingView {
            filename_stem: stem,
            name_alias: text::opt_view(files@[i].declared_name),
            source_dir: ls[n].dir@,
            source: SourceView::Filesystem(files@[i].path@),
        };
        let k = choose|k: int| 0 <= k < ps.len() && ps[k] == p;
        law_every_stem_is_known(st, ps, AliasFallbackPolicy::KeepDirectoryPrecedence, k);
    }
    lemma_dirs_extend(ls, n + 1);
    assert(loading::loaded_dirs(more).index.dom().contains(stem));
}

/// A directory that cannot be listed is reported with the reason and adds no
/// spec; every other is silent.
pub proof fn law_directory_errors(a: Seq<DirListing>, l: DirListing, b: Seq<DirListing>)
    ensures
        loading::dir_errors(a + seq![l] + b) == loading::dir_errors(a) + (match l.files {
            Ok(_) => Seq::empty(),
            Err(e) => seq![l.dir@ + seq![':', ' '] + e@],
        }) + loading::dir_errors(b),
        l.files is Err ==> loading::loaded_dirs(a + seq![l] + b) == loading::loaded_dirs(a + b),
    decreases b.len(),
{
    reveal_strlit(": ");
    assert(": "@ =~= seq![':', ' ']);
    let all = a + seq![l] + b;
    if b.len() == 0 {
        assert(all =~= a.push(l));
        assert(all.drop_last() =~= a);
        assert(a + b =~= a);
        assert(loading::dir_errors(all) =~= loading::dir_errors(a) + (match l.files {
            Ok(_) => Seq::empty(),
            Err(e) => seq![l.dir@ + seq![':', ' '] + e@],
        }) + loading::dir_errors(b));
    } else {
        law_directory_errors(a, l, b.drop_last());
        assert(all.drop_last() =~= a + seq![l] + b.drop_last());
        assert((a + b).drop_last() =~= a + b.drop_last());
        assert(all.last() == b.last());
        assert((a + b).last() == b.last());
        assert(loading::dir_errors(all) =~= loading::dir_errors(a) + (match l.files {
            Ok(_) => Seq::empty(),
            Err(e) => seq![l.dir@ + seq![':', ' '] + e@],
        }) + loading::dir_errors(b));
    }
}

/// Compiled-in specs are registered one by one, each with its stem, declared
/// name and text, and as part of no directory. A file of another name is none.
pub proof fn law_embedded_pending(a: Seq<EmbeddedSpec>, e: EmbeddedSpec, b: Seq<EmbeddedSpec>, stem: Seq<char>)
    ensures
        e.file_name@ == json_name(stem) ==> loading::pending_embedded(a + seq![e] + b)
            == loading::pending_embedded(a) + seq![
            (PendingView {
                filename_stem: stem,
                name_alias: (match e.name_alias {
                    Some(n) => Some(n@),
                    None => None,
                }),
                source_dir: "<embedded>"@,
                source: SourceView::Embedded(e.contents@),
            }),
        ] + loading::pending_embedded(b),
        !(exists|s: Seq<char>| e.file_name@ == #[trigger] json_name(s))
            ==> loading::pending_embedded(a + seq![e] + b) == loading::pending_embedded(a)
            + loading::pending_embedded(b),
    decreases b.len(),
{
    lemma_json_name(stem);
    let all = a + seq![e] + b;
    if !(exists|s: Seq<char>| e.file_name@ == #[trigger] json_name(s)) {
        reveal_strlit(".json");
        let j = seq!['.', 'j', 's', 'o', 'n'];
        assert(".json"@ =~= j);
        let name = e.file_name@;
        if ".json"@.is_suffix_of(name) {
            let s = name.take(name.len() - 5);
            assert(name =~= json_name(s)) by {
                assert forall|i: int| name.len() - 5 <= i < name.len() implies name[i]
                    == json_name(s)[i] by {
                    assert(name[i] == j[i - (name.len() - 5)]);
                }
            }
        }
    }
    if b.len() == 0 {
        assert(all =~= a.push(e));
        assert(all.drop_last() =~= a);
        let none = loading::pending_embedded(b);
        assert(loading::pending_embedded(a) + none =~= loading::pending_embedded(a));
    } else {
        law_embedded_pending(a, e, b.drop_last(), stem);
        assert(all.drop_last() =~= a + seq![e] + b.drop_last());
        assert(all.last() == b.last());
    }
    if e.file_name@ == json_name(stem) {
        assert(loading::pending_embedded(all) =~= loading::pending_embedded(a) + seq![
            (PendingView {
                filename_stem: stem,
                name_alias: (match e.name_alias {
                    Some(n) => Some(n@),
                    None => None,
                }),
                source_dir: "<embedded>"@,
                source: SourceView::Embedded(e.contents@),
            }),
        ] + loading::pending_embedded(b));
    } else if !(exists|s: Seq<char>| e.file_name@ == #[trigger] json_name(s)) {
        assert(loading::pending_embedded(all) =~= loading::pending_embedded(a)
            + loading::pending_embedded(b));
    }
}

// ---------------------------------------------------------------------------
// One file
// ---------------------------------------------------------------------------
/// A file whose stem and declared name nobody holds becomes the last entry,
/// answers to both, and is in conflict with nobody.
pub proof fn law_new_file(st: StoreView, p: PendingView, policy: AliasFallbackPolicy)
    requires
        !st.index.dom().contains(p.filename_stem),
        p.name_alias matches Some(n) ==> n.len() > 0 && n != p.filename_stem
            && !st.index.dom().contains(n),
    ensures
        ({
            let r = store::registered(st, seq![p], policy);
            let n = st.entries.len() as int;
            &&& r.entries.len() == n + 1
            &&& r.entries[n].source == p.source
            &&& r.entries[n].source_dir == p.source_dir
            &&& r.entries[n].filename_stem == p.filename_stem
            &&& r.entries[n].aliases == (match p.name_alias {
                Some(a) => seq![p.filename_stem, a],
                None => seq![p.filename_stem],
            })
            &&& r.index[p.filename_stem] == seq![n]
            &&& p.name_alias matches Some(a) ==> r.index.dom().contains(a) && r.index[a] == seq![n]
            &&& r.conflicts == st.conflicts
        }),
{
    let one = seq![p];
    assert(one.drop_last() =~= Seq::empty());
    let (s, acc) = store::stems_pass(st, one, policy);
    assert(store::stems_pass(st, one.drop_last(), policy).0 == st);
    assert(acc.len() == 1);
    assert(acc.drop_last() =~= Seq::empty());
    assert(store::names_pass(s, acc.drop_last(), policy) == s);
    if let Some(a) = p.name_alias {
        assert(seq![p.filename_stem].push(a) =~= seq![p.filename_stem, a]);
    }
}

/// A declared name that is empty or the stem itself adds no alias and causes
/// no conflict.
pub proof fn law_idle_name(st: StoreView, p: PendingView, policy: AliasFallbackPolicy)
    requires
        !st.index.dom().contains(p.filename_stem),
        p.name_alias == Some(p.filename_stem) || p.name_alias == Some(Seq::<char>::empty()),
    ensures
        store::registered(st, seq![p], policy) == store::registered(
            st,
            seq![(PendingView { name_alias: None, ..p })],
            policy,
        ),
{
    let q = PendingView { name_alias: None, ..p };
    assert(seq![p].drop_last() =~= Seq::empty());
    assert(seq![q].drop_last() =~= Seq::empty());
    let (s, acc) = store::stems_pass(st, seq![p], policy);
    let (t, bcc) = store::stems_pass(st, seq![q], policy);
    assert(store::stems_pass(st, seq![p].drop_last(), policy).0 == st);
    assert(store::stems_pass(st, seq![q].drop_last(), policy).0 == st);
    assert(acc.len() == 1 && bcc.len() == 1);
    assert(acc.drop_last() =~= Seq::empty());
    assert(bcc.drop_last() =~= Seq::empty());
    assert(store::names_pass(s, acc.drop_last(), policy) == s);
    assert(store::names_pass(t, bcc.drop_last(), policy) == t);
}

/// A file whose stem is taken is in conflict with the holder. Where the holder
/// has the same stem, or all later claims are kept, it queues up behind the
/// candidates; else it is turned away and leaves nothing but the conflict.
pub proof fn law_taken_stem(
    st: StoreView,
    p: PendingView,
    policy: AliasFallbackPolicy,
    h: int,
)
    requires
        store::consistent(st),
        alias_index::primary(st.index, p.filename_stem) == Some(h),
        p.name_alias is None,
    ensures
        ({
            let r = store::registered(st, seq![p], policy);
            let n = st.entries.len() as int;
            let same = st.entries[h].filename_stem == p.filename_stem;
            let kept = same || policy == AliasFallbackPolicy::KeepLowerPrecedence;
            &&& r.conflicts.len() == st.conflicts.len() + 1
            &&& r.conflicts.drop_last() == st.conflicts
            &&& r.conflicts.last().alias == p.filename_stem
            &&& r.conflicts.last().kind == (if same {
                AliasConflictKind::DirectoryPrecedence
            } else {
                AliasConflictKind::NameMatchesOtherStem
            })
            &&& r.conflicts.last().disposition == (if kept {
                AliasConflictDisposition::FallbackCandidate
            } else {
                AliasConflictDisposition::Rejected
            })
            &&& r.conflicts.last().winner.filename_stem == st.entries[h].filename_stem
            &&& r.conflicts.last().winner.source_dir == st.entries[h].source_dir
            &&& r.conflicts.last().loser.filename_stem == p.filename_stem
            &&& r.conflicts.last().loser.source_dir == p.source_dir
            &&& r.conflicts.last().loser.spec_name == p.filename_stem
            &&& kept ==> r.entries.len() == n + 1 && r.entries[n].source == p.source
                && r.index[p.filename_stem] == st.index[p.filename_stem].push(n)
            &&& !kept ==> r.entries == st.entries && r.index == st.index
        }),
{
    let one = seq![p];
    assert(one.drop_last() =~= Seq::empty());
    let (s, acc) = store::stems_pass(st, one, policy);
    assert(store::stems_pass(st, one.drop_last(), policy).0 == st);
    let n = st.entries.len() as int;
    let stem = p.filename_stem;
    assert(!st.index[stem].contains(n)) by {
        if st.index[stem].contains(n) {
            let k = choose|k: int| 0 <= k < st.index[stem].len() && st.index[stem][k] == n;
            assert(st.index[stem][k] == n);
        }
    }
    if acc.len() == 1 {
        assert(acc.drop_last() =~= Seq::empty());
        assert(store::names_pass(s, acc.drop_last(), policy) == s);
    } else {
        assert(acc =~= Seq::empty());
    }
    let r = store::registered(st, one, policy);
    assert(r.conflicts.drop_last() =~= st.conflicts);
}

/// A declared name that is taken is a conflict with its holder, of one kind
/// where it is the holder's stem and of another where it is not. Where all
/// later claims are kept the file queues up behind the candidates; else the
/// name stays as it was.
pub proof fn law_taken_name(
    st: StoreView,
    p: PendingView,
    policy: AliasFallbackPolicy,
    name: Seq<char>,
    h: int,
)
    requires
        store::consistent(st),
        !st.index.dom().contains(p.filename_stem),
        p.name_alias == Some(name),
        name.len() > 0,
        alias_index::primary(st.index, name) == Some(h),
    ensures
        ({
            let r = store::registered(st, seq![p], policy);
            let n = st.entries.len() as int;
            let kept = policy == AliasFallbackPolicy::KeepLowerPrecedence;
            &&& r.entries.len() == n + 1
            &&& r.index[p.filename_stem] == seq![n]
            &&& r.conflicts.len() == st.conflicts.len() + 1
            &&& r.conflicts.drop_last() == st.conflicts
            &&& r.conflicts.last().alias == name
            &&& r.conflicts.last().kind == (if st.entries[h].filename_stem == name {
                AliasConflictKind::NameMatchesOtherStem
            } else {
                AliasConflictKind::DuplicateName
            })
            &&& r.conflicts.last().disposition == (if kept {
                AliasConflictDisposition::FallbackCandidate
            } else {
                AliasConflictDisposition::Rejected
            })
            &&& r.conflicts.last().winner.filename_stem == st.entries[h].filename_stem
            &&& r.conflicts.last().winner.source_dir == st.entries[h].source_dir
            &&& r.conflicts.last().loser.filename_stem == p.filename_stem
            &&& r.conflicts.last().loser.source_dir == p.source_dir
            &&& r.conflicts.last().loser.spec_name == name
            &&& r.index[name] == (if kept {
                st.index[name].push(n)
            } else {
                st.index[name]
            })
            &&& r.entries[n].aliases == (if kept {
                seq![p.filename_stem, name]
            } else {
                seq![p.filename_stem]
            })
        }),
{
    let one = seq![p];
    assert(one.drop_last() =~= Seq::empty());
    let (s, acc) = store::stems_pass(st, one, policy);
    assert(store::stems_pass(st, one.drop_last(), policy).0 == st);
    assert(acc.len() == 1);
    assert(acc.drop_last() =~= Seq::empty());
    assert(store::names_pass(s, acc.drop_last(), policy) == s);
    let n = st.entries.len() as int;
    assert(st.index[name][0] == h);
    assert(!st.index[name].contains(n)) by {
        if st.index[name].contains(n) {
            let k = choose|k: int| 0 <= k < st.index[name].len() && st.index[name][k] == n;
            assert(st.index[name][k] == n);
        }
    }
    assert(name != p.filename_stem);
    assert(s.index[name] == st.index[name]);
    assert(s.entries[h] == st.entries[h]);
    let r = store::registered(st, one, policy);
    assert(r == store::name_step(s, acc.last(), policy));
    assert(r.conflicts.drop_last() =~= st.conflicts);
    assert(seq![p.filename_stem].push(name) =~= seq![p.filename_stem, name]);
}

/// A conflict names an entry by the name that it declares, where that is an
/// alias of it, and else by its stem.
pub proof fn law_owner_name(e: store::SpecEntryView, name: Seq<char>)
    requires
        name != e.filename_stem,
    ensures
        e.aliases == seq![e.filename_stem] ==> store::owner_of(e).spec_name == e.filename_stem,
        e.aliases == seq![e.filename_stem, name] ==> store::owner_of(e).spec_name == name,
{
    reveal_with_fuel(store::other_alias, 3);
}

// ---------------------------------------------------------------------------
// Looking up
// ---------------------------------------------------------------------------
/// A lookup answers with the first candidate that is loaded, whatever comes
/// behind it.
pub proof fn law_first_loaded_answers(st: StoreView, command: Seq<char>, w: int)
    requires
        st.index.dom().contains(command),
        0 <= w < st.index[command].len(),
        st.entries[st.index[command][w]].parsed is Loaded,
        forall|j: int|
            0 <= j < w ==> !(st.entries[#[trigger] st.index[command][j]].parsed is Loaded),
    ensures
        store::lookup(st, command) matches Ok(s) && st.entries[st.index[command][w]].parsed
            == LoadState::Loaded(s),
{
    store::lemma_first_loaded(st.entries, st.index[command], 0);
}

/// A command that nobody answers to is reported as unknown; one none of whose
/// candidates is loaded is reported with why the first of them failed.
pub proof fn law_failed_lookup(st: StoreView, command: Seq<char>)
    ensures
        !st.index.dom().contains(command) ==> (store::lookup(st, command) matches Err(
            store::LookupErrorView::NoSuchSpec { command: c },
        ) && c == command),
        st.index.dom().contains(command) && st.index[command].len() > 0 && (forall|j: int|
            0 <= j < st.index[command].len() ==> !(
            st.entries[#[trigger] st.index[command][j]].parsed is Loaded)) ==> (store::lookup(
            st,
            command,
        ) matches Err(store::LookupErrorView::LoadFailed { command: c, id, error, .. }) && c
            == command && id == st.entries[st.index[command][0]].id && (
        st.entries[st.index[command][0]].parsed matches LoadState::Failed(m) ==> error == m@)),
{
    if st.index.dom().contains(command) {
        store::lemma_first_loaded(st.entries, st.index[command], 0);
    }
}

/// A file whose stem another file holds adds no alias of its own: the name that
/// it declares, where nobody has it, stays unknown.
pub proof fn law_shadowed_name(
    st: StoreView,
    p: PendingView,
    policy: AliasFallbackPolicy,
    h: int,
    name: Seq<char>,
)
    requires
        store::consistent(st),
        alias_index::primary(st.index, p.filename_stem) == Some(h),
        p.name_alias == Some(name),
        !st.index.dom().contains(name),
        name != p.filename_stem,
    ensures
        !store::registered(st, seq![p], policy).index.dom().contains(name),
{
    let one = seq![p];
    assert(one.drop_last() =~= Seq::empty());
    let (s, acc) = store::stems_pass(st, one, policy);
    assert(store::stems_pass(st, one.drop_last(), policy).0 == st);
    assert(!s.index.dom().contains(name));
    if acc.len() == 1 {
        assert(acc.drop_last() =~= Seq::empty());
        assert(store::names_pass(s, acc.drop_last(), policy) == s);
        assert(alias_index::primary(s.index, name) is None);
    } else {
        assert(acc =~= Seq::empty());
    }
}

} // verus!
