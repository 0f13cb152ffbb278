//! The spec store: registration of spec files under their aliases, and lazy
//! lookup through the candidates of an alias.
use crate::specs::alias_index;
use crate::specs::alias_index::AliasIndex;
use crate::specs::model::{share, CompletionSpec};
use crate::text;
use std::sync::Arc;
use vstd::prelude::*;
use vstd::string::*;

verus! {

/// Label that stands in for a directory where a spec is compiled in.
pub const EMBEDDED_VIRTUAL_DIR: &'static str = "<embedded>";

/// Where the text of a spec is read from.
#[derive(Debug)]
pub enum SpecSource {
    /// A file, by its path.
    Filesystem(String),
    /// Text that is part of the program.
    Embedded(&'static str),
}

/// What became of a spec's text so far. The first attempt is final.
#[derive(Debug)]
pub enum LoadState {
    Untouched,
    Loaded(Arc<CompletionSpec>),
    Failed(String),
}

/// Where a registered entry comes from.
#[derive(Debug)]
pub enum SpecLocation {
    Filesystem { stem: String, path: String },
    Embedded { stem: String },
}

/// One spec, under one or more aliases.
#[derive(Debug)]
pub struct SpecEntry {
    /// The file name without its extension.
    pub id: String,
    pub filename_stem: String,
    pub source_dir: String,
    /// Every alias of the entry: the stem first, then the declared name.
    pub aliases: Vec<String>,
    pub source: SpecSource,
    pub parsed: LoadState,
}

/// Who holds, or wanted, a contended alias.
#[derive(Debug)]
pub struct AliasOwner {
    pub filename_stem: String,
    pub source_dir: String,
    pub spec_name: String,
}

/// How two entries came to want the same alias.
#[derive(Debug, Clone, Copy, PartialEq, Eq, Structural)]
pub enum AliasConflictKind {
    /// Two files declare the same name.
    DuplicateName,
    /// One file's declared name is another file's stem.
    NameMatchesOtherStem,
    /// The same file name in two directories.
    DirectoryPrecedence,
}

/// What became of the later of two entries that want an alias.
#[derive(Debug, Clone, Copy, PartialEq, Eq, Structural)]
pub enum AliasConflictDisposition {
    /// It cannot be reached through the alias.
    Rejected,
    /// It answers when the candidates before it fail to load.
    FallbackCandidate,
}

/// Two entries that want the same alias.
#[derive(Debug)]
pub struct AliasConflict {
    pub alias: String,
    pub kind: AliasConflictKind,
    pub disposition: AliasConflictDisposition,
    pub winner: AliasOwner,
    pub loser: AliasOwner,
}

/// Which later claims to an alias stay behind the earlier one.
#[derive(Debug, Clone, Copy, PartialEq, Eq, Structural)]
pub enum AliasFallbackPolicy {
    /// Those of a file of the same name.
    KeepDirectoryPrecedence,
    /// All of them.
    KeepLowerPrecedence,
}

/// A spec on its way into the store.
#[derive(Debug)]
pub struct PendingSpec {
    pub filename_stem: String,
    /// The name that the spec declares, when it is known.
    pub name_alias: Option<String>,
    pub source_dir: String,
    pub source: SpecSource,
}

/// Every registered entry, and the index from aliases to entries.
#[derive(Debug)]
pub struct SpecStore {
    entries: Vec<SpecEntry>,
    by_alias: AliasIndex,
    conflicts: Vec<AliasConflict>,
}

// ---------------------------------------------------------------------------
// Views
// ---------------------------------------------------------------------------
#[verifier::ext_equal]
pub enum SourceView {
    Filesystem(Seq<char>),
    Embedded(Seq<char>),
}

impl View for SpecSource {
    type V = SourceView;

    open spec fn view(&self) -> SourceView {
        match *self {
            SpecSource::Filesystem(p) => SourceView::Filesystem(p@),
            SpecSource::Embedded(t) => SourceView::Embedded(t@),
        }
    }
}

#[verifier::ext_equal]
pub enum LocationView {
    Filesystem { stem: Seq<char>, path: Seq<char> },
    Embedded { stem: Seq<char> },
}

impl View for SpecLocation {
    type V = LocationView;

    open spec fn view(&self) -> LocationView {
        match *self {
            SpecLocation::Filesystem { stem, path } => LocationView::Filesystem {
                stem: stem@,
                path: path@,
            },
            SpecLocation::Embedded { stem } => LocationView::Embedded { stem: stem@ },
        }
    }
}

#[verifier::ext_equal]
pub struct SpecEntryView {
    pub id: Seq<char>,
    pub filename_stem: Seq<char>,
    pub source_dir: Seq<char>,
    pub aliases: Seq<Seq<char>>,
    pub source: SourceView,
    pub parsed: LoadState,
}

impl View for SpecEntry {
    type V = SpecEntryView;

    open spec fn view(&self) -> SpecEntryView {
        SpecEntryView {
            id: self.id@,
            filename_stem: self.filename_stem@,
            source_dir: self.source_dir@,
            aliases: text::views(self.aliases@),
            source: self.source@,
            parsed: self.parsed,
        }
    }
}

#[verifier::ext_equal]
pub struct OwnerView {
    pub filename_stem: Seq<char>,
    pub source_dir: Seq<char>,
    pub spec_name: Seq<char>,
}

impl View for AliasOwner {
    type V = OwnerView;

    open spec fn view(&self) -> OwnerView {
        OwnerView {
            filename_stem: self.filename_stem@,
            source_dir: self.source_dir@,
            spec_name: self.spec_name@,
        }
    }
}

#[verifier::ext_equal]
pub struct ConflictView {
    pub alias: Seq<char>,
    pub kind: AliasConflictKind,
    pub disposition: AliasConflictDisposition,
    pub winner: OwnerView,
    pub loser: OwnerView,
}

impl View for AliasConflict {
    type V = ConflictView;

    open spec fn view(&self) -> ConflictView {
        ConflictView {
            alias: self.alias@,
            kind: self.kind,
            disposition: self.disposition,
            winner: self.winner@,
            loser: self.loser@,
        }
    }
}

#[verifier::ext_equal]
pub struct PendingView {
    pub filename_stem: Seq<char>,
    pub name_alias: Option<Seq<char>>,
    pub source_dir: Seq<char>,
    pub source: SourceView,
}

impl View for PendingSpec {
    type V = PendingView;

    open spec fn view(&self) -> PendingView {
        PendingView {
            filename_stem: self.filename_stem@,
            name_alias: text::opt_view(self.name_alias),
            source_dir: self.source_dir@,
            source: self.source@,
        }
    }
}

/// The contents of a list of specs on their way in.
pub open spec fn pending_views(v: Seq<PendingSpec>) -> Seq<PendingView> {
    v.map_values(|p: PendingSpec| p@)
}

/// The contents of a list of entries.
pub open spec fn entry_views(v: Seq<SpecEntry>) -> Seq<SpecEntryView> {
    v.map_values(|e: SpecEntry| e@)
}

/// The contents of a list of conflicts.
pub open spec fn conflict_views(v: Seq<AliasConflict>) -> Seq<ConflictView> {
    v.map_values(|c: AliasConflict| c@)
}

#[verifier::ext_equal]
pub struct StoreView {
    pub entries: Seq<SpecEntryView>,
    pub index: Map<Seq<char>, Seq<int>>,
    pub conflicts: Seq<ConflictView>,
}

impl View for SpecStore {
    type V = StoreView;

    closed spec fn view(&self) -> StoreView {
        StoreView {
            entries: entry_views(self.entries@),
            index: self.by_alias@,
            conflicts: conflict_views(self.conflicts@),
        }
    }
}

// ---------------------------------------------------------------------------
// Registration
// ---------------------------------------------------------------------------
/// The first alias from `i` on that is not the stem, or else the stem.
pub open spec fn other_alias(aliases: Seq<Seq<char>>, stem: Seq<char>, i: int) -> Seq<char>
    decreases aliases.len() - i,
{
    if 0 <= i < aliases.len() {
        if aliases[i] != stem {
            aliases[i]
        } else {
            other_alias(aliases, stem, i + 1)
        }
    } else {
        stem
    }
}

/// How a conflict names an entry that is registered.
pub open spec fn owner_of(e: SpecEntryView) -> OwnerView {
    OwnerView {
        filename_stem: e.filename_stem,
        source_dir: e.source_dir,
        spec_name: other_alias(e.aliases, e.filename_stem, 0),
    }
}

/// The entry that a pending spec becomes: known by its stem, not yet read.
pub open spec fn fresh_entry(p: PendingView) -> SpecEntryView {
    SpecEntryView {
        id: p.filename_stem,
        filename_stem: p.filename_stem,
        source_dir: p.source_dir,
        aliases: seq![p.filename_stem],
        source: p.source,
        parsed: LoadState::Untouched,
    }
}

/// An entry that got in, and the name that it still wants.
#[verifier::ext_equal]
pub struct AcceptedView {
    pub idx: int,
    pub name_alias: Option<Seq<char>>,
    /// Whether the entry may take an alias that nobody holds.
    pub can_create: bool,
}

/// Appends the entry and makes it the last candidate of its stem.
pub open spec fn with_entry(st: StoreView, p: PendingView) -> StoreView {
    StoreView {
        entries: st.entries.push(fresh_entry(p)),
        index: alias_index::with_candidate(
            st.index,
            p.filename_stem,
            st.entries.len() as int,
        ),
        conflicts: st.conflicts,
    }
}

/// The conflict of a new file with the holder of its stem.
pub open spec fn stem_conflict(
    holder: SpecEntryView,
    p: PendingView,
    policy: AliasFallbackPolicy,
) -> ConflictView {
    let kind = if holder.filename_stem == p.filename_stem {
        AliasConflictKind::DirectoryPrecedence
    } else {
        AliasConflictKind::NameMatchesOtherStem
    };
    ConflictView {
        alias: p.filename_stem,
        kind,
        disposition: if policy == AliasFallbackPolicy::KeepLowerPrecedence || kind
            == AliasConflictKind::DirectoryPrecedence {
            AliasConflictDisposition::FallbackCandidate
        } else {
            AliasConflictDisposition::Rejected
        },
        winner: owner_of(holder),
        loser: OwnerView {
            filename_stem: p.filename_stem,
            source_dir: p.source_dir,
            spec_name: match p.name_alias {
                Some(n) => n,
                None => p.filename_stem,
            },
        },
    }
}

/// One file takes its stem, or queues up behind its holder, or is turned away.
pub open spec fn stem_step(
    st: StoreView,
    p: PendingView,
    policy: AliasFallbackPolicy,
) -> (StoreView, Option<AcceptedView>) {
    match alias_index::primary(st.index, p.filename_stem) {
        Some(h) => {
            let c = stem_conflict(st.entries[h], p, policy);
            let noted = StoreView { conflicts: st.conflicts.push(c), ..st };
            if c.disposition == AliasConflictDisposition::FallbackCandidate {
                (
                    with_entry(noted, p),
                    Some(
                        AcceptedView {
                            idx: st.entries.len() as int,
                            name_alias: p.name_alias,
                            can_create: false,
                        },
                    ),
                )
            } else {
                (noted, None)
            }
        },
        None => (
            with_entry(st, p),
            Some(
                AcceptedView {
                    idx: st.entries.len() as int,
                    name_alias: p.name_alias,
                    can_create: true,
                },
            ),
        ),
    }
}

/// Every file's stem, in order.
pub open spec fn stems_pass(
    st: StoreView,
    ps: Seq<PendingView>,
    policy: AliasFallbackPolicy,
) -> (StoreView, Seq<AcceptedView>)
    decreases ps.len(),
{
    if ps.len() == 0 {
        (st, Seq::empty())
    } else {
        let (s1, acc) = stems_pass(st, ps.drop_last(), policy);
        let (s2, a) = stem_step(s1, ps.last(), policy);
        (
            s2,
            match a {
                Some(x) => acc.push(x),
                None => acc,
            },
        )
    }
}

/// The entry known by one more alias, and so a candidate of it.
pub open spec fn with_name(st: StoreView, idx: int, name: Seq<char>) -> StoreView {
    let e = st.entries[idx];
    StoreView {
        entries: st.entries.update(idx, SpecEntryView { aliases: e.aliases.push(name), ..e }),
        index: alias_index::with_candidate(st.index, name, idx),
        conflicts: st.conflicts,
    }
}

/// The conflict of a declared name with the alias's holder.
pub open spec fn name_conflict(
    holder: SpecEntryView,
    e: SpecEntryView,
    name: Seq<char>,
    policy: AliasFallbackPolicy,
) -> ConflictView {
    ConflictView {
        alias: name,
        kind: if holder.filename_stem == name {
            AliasConflictKind::NameMatchesOtherStem
        } else {
            AliasConflictKind::DuplicateName
        },
        disposition: if policy == AliasFallbackPolicy::KeepLowerPrecedence {
            AliasConflictDisposition::FallbackCandidate
        } else {
            AliasConflictDisposition::Rejected
        },
        winner: owner_of(holder),
        loser: OwnerView {
            filename_stem: e.filename_stem,
            source_dir: e.source_dir,
            spec_name: name,
        },
    }
}

/// One accepted entry asks for its declared name.
pub open spec fn name_step(
    st: StoreView,
    a: AcceptedView,
    policy: AliasFallbackPolicy,
) -> StoreView {
    match a.name_alias {
        None => st,
        Some(name) => {
            let e = st.entries[a.idx];
            if name.len() == 0 || name == e.filename_stem {
                st
            } else {
                match alias_index::primary(st.index, name) {
                    Some(h) => {
                        let c = name_conflict(st.entries[h], e, name, policy);
                        let noted = StoreView { conflicts: st.conflicts.push(c), ..st };
                        if policy == AliasFallbackPolicy::KeepLowerPrecedence {
                            with_name(noted, a.idx, name)
                        } else {
                            noted
                        }
                    },
                    None => if a.can_create {
                        with_name(st, a.idx, name)
                    } else {
                        st
                    },
                }
            }
        },
    }
}

/// Every accepted entry's declared name, in order.
pub open spec fn names_pass(
    st: StoreView,
    acc: Seq<AcceptedView>,
    policy: AliasFallbackPolicy,
) -> StoreView
    decreases acc.len(),
{
    if acc.len() == 0 {
        st
    } else {
        name_step(names_pass(st, acc.drop_last(), policy), acc.last(), policy)
    }
}

/// The store after a batch of files: first all stems, then all names.
pub open spec fn registered(
    st: StoreView,
    ps: Seq<PendingView>,
    policy: AliasFallbackPolicy,
) -> StoreView {
    let (s, acc) = stems_pass(st, ps, policy);
    names_pass(s, acc, policy)
}

// ---------------------------------------------------------------------------
// What every store keeps
// ---------------------------------------------------------------------------
/// Entries and index agree: an entry is a candidate of exactly the aliases
/// that it lists, and its own stem is one of them.
pub open spec fn consistent(st: StoreView) -> bool {
    &&& forall|a: Seq<char>| #[trigger]
        st.index.dom().contains(a) ==> st.index[a].len() > 0 && st.index[a].no_duplicates()
    &&& forall|a: Seq<char>, k: int|
        st.index.dom().contains(a) && 0 <= k < st.index[a].len() ==> 0 <= (
        #[trigger] st.index[a][k]) < st.entries.len() && st.entries[st.index[a][k]].aliases.contains(
            a,
        )
    &&& forall|i: int, k: int|
        0 <= i < st.entries.len() && 0 <= k < st.entries[i].aliases.len() ==> st.index.dom().contains(
            #[trigger] st.entries[i].aliases[k],
        ) && st.index[st.entries[i].aliases[k]].contains(i)
    &&& forall|i: int|
        0 <= i < st.entries.len() ==> (#[trigger] st.entries[i]).aliases.len() > 0
            && st.entries[i].aliases[0] == st.entries[i].filename_stem && st.entries[i].id
            == st.entries[i].filename_stem
}

pub proof fn lemma_with_entry(st: StoreView, p: PendingView)
    requires
        consistent(st),
    ensures
        consistent(with_entry(st, p)),
{
    let s2 = with_entry(st, p);
    let n = st.entries.len() as int;
    let stem = p.filename_stem;
    if st.index.dom().contains(stem) {
        if st.index[stem].contains(n) {
            let k = choose|k: int| 0 <= k < st.index[stem].len() && st.index[stem][k] == n;
            assert(st.index[stem][k] == n);
        }
        assert(s2.index[stem] == st.index[stem].push(n));
    }
    assert(s2.index[stem].len() > 0);
    assert(s2.index[stem].last() == n);
    assert(s2.index[stem].contains(n)) by {
        assert(s2.index[stem][s2.index[stem].len() - 1] == n);
    }
    assert forall|a: Seq<char>| #[trigger] s2.index.dom().contains(a) implies s2.index[a].len() > 0
        && s2.index[a].no_duplicates() by {
        if a == stem && st.index.dom().contains(stem) {
            assert forall|i: int, j: int|
                0 <= i < j < s2.index[a].len() implies s2.index[a][i] != s2.index[a][j] by {
                if j == st.index[stem].len() {
                    assert(st.index[stem][i] < n);
                }
            }
        }
    }
    assert forall|a: Seq<char>, k: int|
        s2.index.dom().contains(a) && 0 <= k < s2.index[a].len() implies 0 <= (
    #[trigger] s2.index[a][k]) < s2.entries.len() && s2.entries[s2.index[a][k]].aliases.contains(
        a,
    ) by {
        if st.index.dom().contains(a) && k < st.index[a].len() {
            assert(st.index[a][k] == s2.index[a][k]);
        } else {
            assert(a == stem);
            assert(s2.index[a][k] == n);
            assert(s2.entries[n].aliases[0] == stem);
        }
    }
    assert forall|i: int, k: int|
        0 <= i < s2.entries.len() && 0 <= k < s2.entries[i].aliases.len() implies s2.index.dom().contains(
        #[trigger] s2.entries[i].aliases[k],
    ) && s2.index[s2.entries[i].aliases[k]].contains(i) by {
        let a = s2.entries[i].aliases[k];
        if i < n {
            assert(st.entries[i].aliases[k] == a);
            if a == stem {
                let q = choose|q: int| 0 <= q < st.index[a].len() && st.index[a][q] == i;
                assert(s2.index[a][q] == i);
            }
        }
    }
}

pub proof fn lemma_with_name(st: StoreView, idx: int, name: Seq<char>)
    requires
        consistent(st),
        0 <= idx < st.entries.len(),
    ensures
        consistent(with_name(st, idx, name)),
{
    let s2 = with_name(st, idx, name);
    let e2 = s2.entries[idx];
    assert(e2.aliases.last() == name);
    assert(e2.aliases[e2.aliases.len() - 1] == name);
    assert(s2.index[name].contains(idx)) by {
        if st.index.dom().contains(name) && st.index[name].contains(idx) {
        } else {
            assert(s2.index[name][s2.index[name].len() - 1] == idx);
        }
    }
    assert forall|a: Seq<char>| #[trigger] s2.index.dom().contains(a) implies s2.index[a].len() > 0
        && s2.index[a].no_duplicates() by {
        if a == name && st.index.dom().contains(name) {
            assert forall|i: int, j: int|
                0 <= i < j < s2.index[a].len() implies s2.index[a][i] != s2.index[a][j] by {
                if j == st.index[name].len() {
                    assert(st.index[name].contains(st.index[name][i]));
                }
            }
        }
    }
    assert forall|a: Seq<char>, k: int|
        s2.index.dom().contains(a) && 0 <= k < s2.index[a].len() implies 0 <= (
    #[trigger] s2.index[a][k]) < s2.entries.len() && s2.entries[s2.index[a][k]].aliases.contains(
        a,
    ) by {
        let i = s2.index[a][k];
        if st.index.dom().contains(a) && k < st.index[a].len() {
            assert(st.index[a][k] == i);
            let q = choose|q: int|
                0 <= q < st.entries[i].aliases.len() && st.entries[i].aliases[q] == a;
            assert(s2.entries[i].aliases[q] == a);
        } else {
            assert(a == name && i == idx);
        }
    }
    assert forall|i: int, k: int|
        0 <= i < s2.entries.len() && 0 <= k < s2.entries[i].aliases.len() implies s2.index.dom().contains(
        #[trigger] s2.entries[i].aliases[k],
    ) && s2.index[s2.entries[i].aliases[k]].contains(i) by {
        let a = s2.entries[i].aliases[k];
        if i == idx && k == st.entries[i].aliases.len() {
            assert(a == name);
        } else {
            assert(st.entries[i].aliases[k] == a);
            let q = choose|q: int| 0 <= q < st.index[a].len() && st.index[a][q] == i;
            assert(s2.index[a][q] == i);
        }
    }
    assert forall|i: int| 0 <= i < s2.entries.len() implies (#[trigger] s2.entries[i]).aliases.len()
        > 0 && s2.entries[i].aliases[0] == s2.entries[i].filename_stem && s2.entries[i].id
        == s2.entries[i].filename_stem by {
        assert(st.entries[i].aliases[0] == st.entries[i].filename_stem);
    }
}

/// The second pass finds each accepted entry in the store.
pub open spec fn acceptable(st: StoreView, acc: Seq<AcceptedView>) -> bool {
    forall|i: int| 0 <= i < acc.len() ==> 0 <= (#[trigger] acc[i]).idx < st.entries.len()
}

pub proof fn lemma_stems_pass(st: StoreView, ps: Seq<PendingView>, policy: AliasFallbackPolicy)
    requires
        consistent(st),
    ensures
        consistent(stems_pass(st, ps, policy).0),
        acceptable(stems_pass(st, ps, policy).0, stems_pass(st, ps, policy).1),
    decreases ps.len(),
{
    if ps.len() > 0 {
        lemma_stems_pass(st, ps.drop_last(), policy);
        let (s1, acc) = stems_pass(st, ps.drop_last(), policy);
        let p = ps.last();
        match alias_index::primary(s1.index, p.filename_stem) {
            Some(h) => {
                let c = stem_conflict(s1.entries[h], p, policy);
                let noted = StoreView { conflicts: s1.conflicts.push(c), ..s1 };
                lemma_with_entry(noted, p);
            },
            None => {
                lemma_with_entry(s1, p);
            },
        }
    }
}

pub proof fn lemma_name_step(st: StoreView, a: AcceptedView, policy: AliasFallbackPolicy)
    requires
        consistent(st),
        0 <= a.idx < st.entries.len(),
    ensures
        consistent(name_step(st, a, policy)),
        name_step(st, a, policy).entries.len() == st.entries.len(),
{
    if let Some(name) = a.name_alias {
        let e = st.entries[a.idx];
        if let Some(h) = alias_index::primary(st.index, name) {
            let c = name_conflict(st.entries[h], e, name, policy);
            let noted = StoreView { conflicts: st.conflicts.push(c), ..st };
            lemma_with_name(noted, a.idx, name);
        } else {
            lemma_with_name(st, a.idx, name);
        }
    }
}

pub proof fn lemma_names_pass(st: StoreView, acc: Seq<AcceptedView>, policy: AliasFallbackPolicy)
    requires
        consistent(st),
        acceptable(st, acc),
    ensures
        consistent(names_pass(st, acc, policy)),
        names_pass(st, acc, policy).entries.len() == st.entries.len(),
    decreases acc.len(),
{
    if acc.len() > 0 {
        lemma_names_pass(st, acc.drop_last(), policy);
        assert(acc.last() == acc[acc.len() - 1]);
        lemma_name_step(names_pass(st, acc.drop_last(), policy), acc.last(), policy);
    }
}

/// Registering a batch keeps entries and index in agreement.
pub proof fn law_registration_keeps_agreement(
    st: StoreView,
    ps: Seq<PendingView>,
    policy: AliasFallbackPolicy,
)
    requires
        consistent(st),
    ensures
        consistent(registered(st, ps, policy)),
{
    lemma_stems_pass(st, ps, policy);
    let (s, acc) = stems_pass(st, ps, policy);
    lemma_names_pass(s, acc, policy);
}

// ---------------------------------------------------------------------------
// The executable store
// ---------------------------------------------------------------------------
impl SpecSource {
    fn copy(&self) -> (r: SpecSource)
        ensures
            r@ == self@,
    {
        match self {
            SpecSource::Filesystem(p) => SpecSource::Filesystem(p.clone()),
            SpecSource::Embedded(t) => SpecSource::Embedded(*t),
        }
    }
}

fn alias_owner(e: &SpecEntry) -> (r: AliasOwner)
    ensures
        r@ == owner_of(e@),
{
    let mut i: usize = 0;
    while i < e.aliases.len() && text::same(&e.aliases[i], &e.filename_stem)
        invariant
            i <= e.aliases.len(),
            other_alias(e@.aliases, e@.filename_stem, 0) == other_alias(
                e@.aliases,
                e@.filename_stem,
                i as int,
            ),
        decreases e.aliases.len() - i,
    {
        assert(e@.aliases[i as int] == e.aliases@[i as int]@);
        i += 1;
    }
    let spec_name = if i < e.aliases.len() {
        assert(e@.aliases[i as int] == e.aliases@[i as int]@);
        e.aliases[i].clone()
    } else {
        e.filename_stem.clone()
    };
    AliasOwner {
        filename_stem: e.filename_stem.clone(),
        source_dir: e.source_dir.clone(),
        spec_name,
    }
}

/// An entry that got in, for the second pass.
struct Accepted {
    idx: usize,
    name_alias: Option<String>,
    can_create_aliases: bool,
}

impl Accepted {
    spec fn as_view(self) -> AcceptedView {
        AcceptedView {
            idx: self.idx as int,
            name_alias: text::opt_view(self.name_alias),
            can_create: self.can_create_aliases,
        }
    }
}

spec fn accepted_views(v: Seq<Accepted>) -> Seq<AcceptedView> {
    v.map_values(|a: Accepted| a.as_view())
}

impl SpecStore {
    /// Entries and index agree.
    pub closed spec fn wf(&self) -> bool {
        self.by_alias.wf() && consistent(self@)
    }

    /// What a well-formed store keeps: its entries and its index agree, and
    /// there are finitely many aliases.
    pub proof fn lemma_wf_consistent(&self)
        requires
            self.wf(),
        ensures
            consistent(self@),
            self@.index.dom().finite(),
    {
        self.by_alias.lemma_finite();
    }

    /// A store with nothing in it.
    pub fn new() -> (r: SpecStore)
        ensures
            r.wf(),
            r@.entries == Seq::<SpecEntryView>::empty(),
            r@.index == Map::<Seq<char>, Seq<int>>::empty(),
            r@.conflicts == Seq::<ConflictView>::empty(),
    {
        SpecStore { entries: Vec::new(), by_alias: AliasIndex::new(), conflicts: Vec::new() }
    }

    /// The entry that answers first to `alias`.
    fn primary_alias_owner(&self, alias: &str) -> (r: Option<usize>)
        requires
            self.wf(),
        ensures
            match r {
                Some(i) => i < self.entries.len() && alias_index::primary(self@.index, alias@)
                    == Some(i as int),
                None => alias_index::primary(self@.index, alias@) is None,
            },
    {
        match self.by_alias.get(alias) {
            Some(c) => {
                if c.len() > 0 {
                    assert(self@.index[alias@][0] == c@[0] as int);
                    Some(c[0])
                } else {
                    None
                }
            },
            None => None,
        }
    }

    fn push_entry(&mut self, p: &PendingSpec)
        requires
            old(self).wf(),
        ensures
            final(self).wf(),
            final(self)@ == with_entry(old(self)@, p@),
    {
        let ghost before = self@;
        let idx: usize = self.entries.len();
        let mut aliases: Vec<String> = Vec::new();
        aliases.push(p.filename_stem.clone());
        let entry = SpecEntry {
            id: p.filename_stem.clone(),
            filename_stem: p.filename_stem.clone(),
            source_dir: p.source_dir.clone(),
            aliases,
            source: p.source.copy(),
            parsed: LoadState::Untouched,
        };
        self.entries.push(entry);
        self.by_alias.push_candidate(&p.filename_stem, idx);
        proof {
            assert(text::views(entry.aliases@) =~= seq![p.filename_stem@]);
            assert(entry@ == fresh_entry(p@));
            assert(self@.entries =~= before.entries.push(entry@));
            lemma_with_entry(before, p@);
            assert(self@ == with_entry(before, p@));
        }
    }

    fn note_conflict(&mut self, c: AliasConflict)
        requires
            old(self).wf(),
        ensures
            final(self).wf(),
            final(self)@ == (StoreView {
                conflicts: old(self)@.conflicts.push(c@),
                ..old(self)@
            }),
    {
        let ghost before = self@;
        self.conflicts.push(c);
        assert(self@.conflicts =~= before.conflicts.push(c@));
    }

    /// Adds a batch of spec files: every stem first, so that a file keeps the
    /// alias of its own name, then the names that the files declare.
    pub fn register_entries(&mut self, pending: &Vec<PendingSpec>, policy: AliasFallbackPolicy)
        requires
            old(self).wf(),
        ensures
            final(self).wf(),
            final(self)@ == registered(old(self)@, pending_views(pending@), policy),
    {
        let ghost start = self@;
        let ghost ps = pending_views(pending@);
        let mut accepted: Vec<Accepted> = Vec::new();
        let mut i: usize = 0;
        proof {
            assert(ps.take(0) =~= Seq::empty());
            assert(accepted_views(accepted@) =~= Seq::empty());
        }
        while i < pending.len()
            invariant
                i <= pending.len(),
                ps == pending_views(pending@),
                self.wf(),
                stems_pass(start, ps.take(i as int), policy) == (
                    self@,
                    accepted_views(accepted@),
                ),
            decreases pending.len() - i,
        {
            let p = &pending[i];
            let ghost now = self@;
            let ghost acc = accepted_views(accepted@);
            proof {
                assert(ps.take(i + 1).drop_last() =~= ps.take(i as int));
                assert(ps.take(i + 1).last() == p@);
            }
            let mut can_create_aliases = true;
            let mut rejected = false;
            if let Some(h) = self.primary_alias_owner(&p.filename_stem) {
                let holder = &self.entries[h];
                assert(self@.entries[h as int] == holder@);
                let kind = if text::same(&holder.filename_stem, &p.filename_stem) {
                    AliasConflictKind::DirectoryPrecedence
                } else {
                    AliasConflictKind::NameMatchesOtherStem
                };
                let keep_as_fallback = policy == AliasFallbackPolicy::KeepLowerPrecedence || (policy
                    == AliasFallbackPolicy::KeepDirectoryPrecedence && kind
                    == AliasConflictKind::DirectoryPrecedence);
                let conflict = AliasConflict {
                    alias: p.filename_stem.clone(),
                    kind,
                    disposition: if keep_as_fallback {
                        AliasConflictDisposition::FallbackCandidate
                    } else {
                        AliasConflictDisposition::Rejected
                    },
                    winner: alias_owner(holder),
                    loser: AliasOwner {
                        filename_stem: p.filename_stem.clone(),
                        source_dir: p.source_dir.clone(),
                        spec_name: match &p.name_alias {
                            Some(n) => n.clone(),
                            None => p.filename_stem.clone(),
                        },
                    },
                };
                assert(conflict@ == stem_conflict(now.entries[h as int], p@, policy));
                self.note_conflict(conflict);
                rejected = !keep_as_fallback;
                can_create_aliases = false;
            }
            if !rejected {
                let idx: usize = self.entries.len();
                self.push_entry(p);
                let a = Accepted {
                    idx,
                    name_alias: text::clone_opt(&p.name_alias),
                    can_create_aliases,
                };
                accepted.push(a);
                proof {
                    assert(accepted_views(accepted@) =~= acc.push(a.as_view()));
                }
            }
            i += 1;
        }
        let ghost mid = self@;
        let ghost acc = accepted_views(accepted@);
        proof {
            assert(ps.take(ps.len() as int) =~= ps);
            lemma_stems_pass(start, ps, policy);
            assert(acc.take(0) =~= Seq::empty());
        }
        let mut k: usize = 0;
        while k < accepted.len()
            invariant
                k <= accepted.len(),
                acc == accepted_views(accepted@),
                acceptable(mid, acc),
                self.wf(),
                self@.entries.len() == mid.entries.len(),
                self@ == names_pass(mid, acc.take(k as int), policy),
            decreases accepted.len() - k,
        {
            let ghost now = self@;
            proof {
                assert(acc.take(k + 1).drop_last() =~= acc.take(k as int));
                assert(acc.take(k + 1).last() == acc[k as int]);
                assert(acc[k as int] == accepted@[k as int].as_view());
                lemma_name_step(now, acc[k as int], policy);
            }
            let idx: usize = accepted[k].idx;
            if let Some(name) = &accepted[k].name_alias {
                self.register_name(idx, name, accepted[k].can_create_aliases, policy);
            }
            k += 1;
        }
        proof {
            assert(acc.take(acc.len() as int) =~= acc);
        }
    }

    fn register_name(
        &mut self,
        idx: usize,
        name: &String,
        can_create_aliases: bool,
        policy: AliasFallbackPolicy,
    )
        requires
            old(self).wf(),
            idx < old(self)@.entries.len(),
        ensures
            final(self).wf(),
            final(self)@ == name_step(
                old(self)@,
                AcceptedView {
                    idx: idx as int,
                    name_alias: Some(name@),
                    can_create: can_create_aliases,
                },
                policy,
            ),
    {
        let ghost now = self@;
        assert(now.entries[idx as int] == self.entries@[idx as int]@);
        if name.as_str().is_empty() || text::same(name, &self.entries[idx].filename_stem) {
            return;
        }
        match self.primary_alias_owner(name) {
            Some(h) => {
                let holder = &self.entries[h];
                let entry = &self.entries[idx];
                assert(self@.entries[h as int] == holder@);
                let conflict = AliasConflict {
                    alias: name.clone(),
                    kind: if text::same(&holder.filename_stem, name) {
                        AliasConflictKind::NameMatchesOtherStem
                    } else {
                        AliasConflictKind::DuplicateName
                    },
                    disposition: if policy == AliasFallbackPolicy::KeepLowerPrecedence {
                        AliasConflictDisposition::FallbackCandidate
                    } else {
                        AliasConflictDisposition::Rejected
                    },
                    winner: alias_owner(holder),
                    loser: AliasOwner {
                        filename_stem: entry.filename_stem.clone(),
                        source_dir: entry.source_dir.clone(),
                        spec_name: name.clone(),
                    },
                };
                assert(conflict@ == name_conflict(
                    now.entries[h as int],
                    now.entries[idx as int],
                    name@,
                    policy,
                ));
                self.note_conflict(conflict);
                if policy != AliasFallbackPolicy::KeepLowerPrecedence {
                    return;
                }
            },
            None => {
                if !can_create_aliases {
                    return;
                }
            },
        }
        self.add_alias(idx, name);
    }

    fn add_alias(&mut self, idx: usize, name: &String)
        requires
            old(self).wf(),
            idx < old(self)@.entries.len(),
        ensures
            final(self).wf(),
            final(self)@ == with_name(old(self)@, idx as int, name@),
    {
        let ghost before = *self;
        self.entries[idx].aliases.push(name.clone());
        self.by_alias.push_candidate(name, idx);
        proof {
            let e = before.entries@[idx as int];
            let e2 = self.entries@[idx as int];
            assert(text::views(e2.aliases@) =~= text::views(e.aliases@).push(name@));
            assert(self@.entries =~= before@.entries.update(
                idx as int,
                SpecEntryView { aliases: e@.aliases.push(name@), ..e@ },
            ));
            lemma_with_name(before@, idx as int, name@);
        }
    }
}

// ---------------------------------------------------------------------------
// Lazy loading
// ---------------------------------------------------------------------------
/// Why a command has no spec.
#[derive(Debug)]
pub enum SpecLookupError {
    NoSuchSpec { command: String },
    LoadFailed { command: String, id: String, source: SpecLocation, error: String },
}

#[verifier::ext_equal]
pub enum LookupErrorView {
    NoSuchSpec { command: Seq<char> },
    LoadFailed {
        command: Seq<char>,
        id: Seq<char>,
        source: LocationView,
        error: Seq<char>,
    },
}

impl View for SpecLookupError {
    type V = LookupErrorView;

    open spec fn view(&self) -> LookupErrorView {
        match *self {
            SpecLookupError::NoSuchSpec { command } => LookupErrorView::NoSuchSpec {
                command: command@,
            },
            SpecLookupError::LoadFailed { command, id, source, error } =>
                LookupErrorView::LoadFailed {
                command: command@,
                id: id@,
                source: source@,
                error: error@,
            },
        }
    }
}

/// An entry whose text could not be loaded.
#[derive(Debug)]
pub struct SpecEntryLoadError {
    pub id: String,
    pub source: SpecLocation,
    pub error: String,
}

#[verifier::ext_equal]
pub struct LoadErrorView {
    pub id: Seq<char>,
    pub source: LocationView,
    pub error: Seq<char>,
}

impl View for SpecEntryLoadError {
    type V = LoadErrorView;

    open spec fn view(&self) -> LoadErrorView {
        LoadErrorView { id: self.id@, source: self.source@, error: self.error@ }
    }
}

/// What an attempt to load leaves behind.
pub open spec fn state_of(out: Result<Arc<CompletionSpec>, String>) -> LoadState {
    match out {
        Ok(s) => LoadState::Loaded(s),
        Err(e) => LoadState::Failed(e),
    }
}

/// `after` is `before` itself, or `before` with the outcome of its first load.
pub open spec fn loaded_by<F: Fn(&SpecSource) -> Result<Arc<CompletionSpec>, String>>(
    load: F,
    before: SpecEntry,
    after: SpecEntry,
) -> bool {
    ||| after == before
    ||| before.parsed is Untouched && exists|out: Result<Arc<CompletionSpec>, String>|
        #![trigger state_of(out)]
        call_ensures(load, (&before.source,), out) && after == (SpecEntry {
            parsed: state_of(out),
            ..before
        })
}

/// Where an entry's text is.
pub open spec fn location_of(e: SpecEntryView) -> LocationView {
    match e.source {
        SourceView::Filesystem(path) => LocationView::Filesystem { stem: e.filename_stem, path },
        SourceView::Embedded(_) => LocationView::Embedded { stem: e.filename_stem },
    }
}

/// The first candidate from position `k` on that is loaded, or the number of
/// candidates.
pub open spec fn first_loaded(entries: Seq<SpecEntryView>, cands: Seq<int>, k: int) -> int
    decreases cands.len() - k,
{
    if 0 <= k < cands.len() && !(entries[cands[k]].parsed is Loaded) {
        first_loaded(entries, cands, k + 1)
    } else {
        k
    }
}

/// Where the first loaded candidate is: it is loaded, and none before it is.
pub proof fn lemma_first_loaded(entries: Seq<SpecEntryView>, cands: Seq<int>, k: int)
    requires
        0 <= k <= cands.len(),
    ensures
        k <= first_loaded(entries, cands, k) <= cands.len(),
        first_loaded(entries, cands, k) < cands.len() ==> entries[cands[first_loaded(
            entries,
            cands,
            k,
        )]].parsed is Loaded,
        forall|j: int|
            k <= j < first_loaded(entries, cands, k) ==> !(
            entries[#[trigger] cands[j]].parsed is Loaded),
    decreases cands.len() - k,
{
    if k < cands.len() && !(entries[cands[k]].parsed is Loaded) {
        lemma_first_loaded(entries, cands, k + 1);
    }
}

/// What a lookup answers once the candidates that it needs are loaded: the
/// first candidate that loads, or else why the first one did not.
pub open spec fn lookup(st: StoreView, command: Seq<char>) -> Result<
    Arc<CompletionSpec>,
    LookupErrorView,
> {
    if st.index.dom().contains(command) {
        let cands = st.index[command];
        let w = first_loaded(st.entries, cands, 0);
        if w < cands.len() {
            Ok(st.entries[cands[w]].parsed->Loaded_0)
        } else if cands.len() > 0 {
            let e = st.entries[cands[0]];
            Err(
                LookupErrorView::LoadFailed {
                    command,
                    id: e.id,
                    source: location_of(e),
                    error: e.parsed->Failed_0@,
                },
            )
        } else {
            Err(LookupErrorView::NoSuchSpec { command })
        }
    } else {
        Err(LookupErrorView::NoSuchSpec { command })
    }
}

/// The candidates that a lookup of `command` has to load: all up to the first
/// that succeeds.
pub open spec fn consulted(st: StoreView, command: Seq<char>, i: int) -> bool {
    &&& st.index.dom().contains(command)
    &&& exists|k: int|
        0 <= k < st.index[command].len() && k <= first_loaded(st.entries, st.index[command], 0)
            && #[trigger] st.index[command][k] == i
}

/// Whether some alias resolves to entry `i`.
pub open spec fn is_resolved(st: StoreView, i: int) -> bool {
    exists|a: Seq<char>| #[trigger] resolves_to(st, a, i)
}

/// Whether `a` resolves to entry `i`.
pub open spec fn resolves_to(st: StoreView, a: Seq<char>, i: int) -> bool {
    &&& st.index.dom().contains(a)
    &&& first_loaded(st.entries, st.index[a], 0) < st.index[a].len()
    &&& st.index[a][first_loaded(st.entries, st.index[a], 0)] == i
}

impl SpecLocation {
    /// The file name stem.
    pub fn stem(&self) -> (r: &str)
        ensures
            r@ == match self@ {
                LocationView::Filesystem { stem, .. } => stem,
                LocationView::Embedded { stem } => stem,
            },
    {
        match self {
            SpecLocation::Filesystem { stem, .. } => stem.as_str(),
            SpecLocation::Embedded { stem } => stem.as_str(),
        }
    }
}

impl SpecLookupError {
    /// The error in words.
    pub fn message(&self) -> (r: String)
        ensures
            r@ == match self@ {
                LookupErrorView::NoSuchSpec { command } => "no spec registered for "@ + command,
                LookupErrorView::LoadFailed { command, id, error, .. } => "spec "@ + id + " for "@
                    + command + " failed to load: "@ + error,
            },
    {
        let mut out = String::new();
        match self {
            SpecLookupError::NoSuchSpec { command } => {
                out.append("no spec registered for ");
                out.append(command);
            },
            SpecLookupError::LoadFailed { command, id, error, .. } => {
                out.append("spec ");
                out.append(id);
                out.append(" for ");
                out.append(command);
                out.append(" failed to load: ");
                out.append(error);
            },
        }
        out
    }
}

impl SpecEntry {
    /// Loads the spec unless that was tried before.
    pub fn ensure_loaded<F: Fn(&SpecSource) -> Result<Arc<CompletionSpec>, String>>(&mut self, load: &F)
        requires
            call_requires(*load, (&old(self).source,)),
        ensures
            loaded_by(*load, *old(self), *final(self)),
            !(final(self).parsed is Untouched),
    {
        if let LoadState::Untouched = &self.parsed {
            let ghost before = *self;
            let out = load(&self.source);
            let ghost o = out;
            self.parsed = match out {
                Ok(s) => LoadState::Loaded(s),
                Err(e) => LoadState::Failed(e),
            };
            assert(self.parsed == state_of(o));
            assert(*self == (SpecEntry { parsed: state_of(o), ..before }));
        }
    }

    /// The spec, loaded now if it was not before, or why it cannot be had.
    pub fn spec_result<F: Fn(&SpecSource) -> Result<Arc<CompletionSpec>, String>>(
        &mut self,
        load: &F,
    ) -> (r: Result<&CompletionSpec, &str>)
        requires
            call_requires(*load, (&old(self).source,)),
        ensures
            loaded_by(*load, *old(self), *final(self)),
            match r {
                Ok(s) => final(self).parsed matches LoadState::Loaded(a) && *a == *s,
                Err(e) => final(self).parsed matches LoadState::Failed(m) && m@ == e@,
            },
    {
        self.ensure_loaded(load);
        match &self.parsed {
            LoadState::Loaded(s) => Ok(&**s),
            LoadState::Failed(e) => Err(e.as_str()),
            LoadState::Untouched => Err(""),
        }
    }

    /// The spec, loaded now if it was not before.
    pub fn spec<F: Fn(&SpecSource) -> Result<Arc<CompletionSpec>, String>>(&mut self, load: &F) -> (r:
        Option<&CompletionSpec>)
        requires
            call_requires(*load, (&old(self).source,)),
        ensures
            loaded_by(*load, *old(self), *final(self)),
            match r {
                Some(s) => final(self).parsed matches LoadState::Loaded(a) && *a == *s,
                None => final(self).parsed is Failed,
            },
    {
        self.ensure_loaded(load);
        match &self.parsed {
            LoadState::Loaded(s) => Some(&**s),
            _ => None,
        }
    }

    /// The spec behind a pointer of the caller's own.
    pub fn spec_arc<F: Fn(&SpecSource) -> Result<Arc<CompletionSpec>, String>>(
        &mut self,
        load: &F,
    ) -> (r: Option<Arc<CompletionSpec>>)
        requires
            call_requires(*load, (&old(self).source,)),
        ensures
            loaded_by(*load, *old(self), *final(self)),
            match r {
                Some(s) => final(self).parsed == LoadState::Loaded(s),
                None => final(self).parsed is Failed,
            },
    {
        self.ensure_loaded(load);
        match &self.parsed {
            LoadState::Loaded(s) => Some(share(s)),
            _ => None,
        }
    }

    /// Why an attempted load failed. `None` also for an entry that was never
    /// touched.
    pub fn load_error(&self) -> (r: Option<&str>)
        ensures
            match r {
                Some(e) => self.parsed matches LoadState::Failed(m) && m@ == e@,
                None => !(self.parsed is Failed),
            },
    {
        match &self.parsed {
            LoadState::Failed(e) => Some(e.as_str()),
            _ => None,
        }
    }

    /// Whether a load was attempted.
    pub fn is_parsed(&self) -> (r: bool)
        ensures
            r == !(self.parsed is Untouched),
    {
        match &self.parsed {
            LoadState::Untouched => false,
            _ => true,
        }
    }

    /// Where the entry's text is.
    pub fn location(&self) -> (r: SpecLocation)
        ensures
            r@ == location_of(self@),
    {
        match &self.source {
            SpecSource::Filesystem(path) => SpecLocation::Filesystem {
                stem: self.filename_stem.clone(),
                path: path.clone(),
            },
            SpecSource::Embedded(_) => SpecLocation::Embedded { stem: self.filename_stem.clone() },
        }
    }
}

proof fn lemma_same_aliases(a: StoreView, b: StoreView)
    requires
        consistent(a),
        b.index == a.index,
        b.entries.len() == a.entries.len(),
        forall|i: int|
            0 <= i < a.entries.len() ==> (#[trigger] b.entries[i]).aliases == a.entries[i].aliases
                && b.entries[i].filename_stem == a.entries[i].filename_stem && b.entries[i].id
                == a.entries[i].id,
    ensures
        consistent(b),
{
    assert forall|al: Seq<char>, k: int|
        b.index.dom().contains(al) && 0 <= k < b.index[al].len() implies 0 <= (
    #[trigger] b.index[al][k]) < b.entries.len() && b.entries[b.index[al][k]].aliases.contains(
        al,
    ) by {
        assert(0 <= a.index[al][k] < a.entries.len());
        assert(b.entries[a.index[al][k]].aliases == a.entries[a.index[al][k]].aliases);
    }
    assert forall|i: int, k: int|
        0 <= i < b.entries.len() && 0 <= k < b.entries[i].aliases.len() implies b.index.dom().contains(
        #[trigger] b.entries[i].aliases[k],
    ) && b.index[b.entries[i].aliases[k]].contains(i) by {
        assert(b.entries[i].aliases[k] == a.entries[i].aliases[k]);
    }
    assert forall|i: int| 0 <= i < b.entries.len() implies (#[trigger] b.entries[i]).aliases.len()
        > 0 && b.entries[i].aliases[0] == b.entries[i].filename_stem && b.entries[i].id
        == b.entries[i].filename_stem by {
        assert(a.entries[i].aliases[0] == a.entries[i].filename_stem);
    }
}

fn copy_indices(v: &Vec<usize>) -> (r: Vec<usize>)
    ensures
        r@ == v@,
{
    let mut out: Vec<usize> = Vec::new();
    let mut i: usize = 0;
    while i < v.len()
        invariant
            i <= v.len(),
            out@ == v@.take(i as int),
        decreases v.len() - i,
    {
        out.push(v[i]);
        i += 1;
        assert(out@ == v@.take(i as int));
    }
    assert(v@.take(v@.len() as int) == v@);
    out
}

impl SpecStore {
    /// The entries in registration order.
    pub closed spec fn items(&self) -> Seq<SpecEntry> {
        self.entries@
    }

    /// Nothing but the outcome of first loads differs between two stores.
    pub open spec fn advanced<F: Fn(&SpecSource) -> Result<Arc<CompletionSpec>, String>>(
        before: SpecStore,
        after: SpecStore,
        load: F,
    ) -> bool {
        &&& after.wf()
        &&& after@.index == before@.index
        &&& after@.conflicts == before@.conflicts
        &&& after.items().len() == before.items().len()
        &&& forall|i: int|
            0 <= i < before.items().len() ==> loaded_by(
                load,
                before.items()[i],
                #[trigger] after.items()[i],
            )
    }

    /// The entries in the contents of a store are the contents of its entries.
    pub proof fn law_items_are_the_entries(&self)
        ensures
            self@.entries == entry_views(self.items()),
    {
    }

    fn load_entry<F: Fn(&SpecSource) -> Result<Arc<CompletionSpec>, String>>(
        &mut self,
        i: usize,
        load: &F,
    ) -> (r: bool)
        requires
            old(self).wf(),
            i < old(self).items().len(),
            forall|s: &SpecSource| #[trigger] call_requires(*load, (s,)),
        ensures
            Self::advanced(*old(self), *final(self), *load),
            !(final(self).items()[i as int].parsed is Untouched),
            r == final(self)@.entries[i as int].parsed is Loaded,
            forall|j: int|
                0 <= j < old(self).items().len() && j != i ==> final(self).items()[j] == old(
                    self,
                ).items()[j],
    {
        let ghost before = *self;
        self.entries[i].ensure_loaded(load);
        proof {
            assert(self@.index == before@.index);
            assert forall|j: int| 0 <= j < before.items().len() implies loaded_by(
                *load,
                before.items()[j],
                #[trigger] self.items()[j],
            ) by {}
            assert forall|j: int| 0 <= j < before@.entries.len() implies (
            #[trigger] self@.entries[j]).aliases == before@.entries[j].aliases
                && self@.entries[j].filename_stem == before@.entries[j].filename_stem
                && self@.entries[j].id == before@.entries[j].id by {
                assert(loaded_by(*load, before.items()[j], self.items()[j]));
            }
            lemma_same_aliases(before@, self@);
        }
        match &self.entries[i].parsed {
            LoadState::Loaded(_) => true,
            _ => false,
        }
    }

    /// The spec for a command, or why there is none. Candidates are loaded in
    /// order of precedence, and none after the first that loads.
    pub fn get_result<F: Fn(&SpecSource) -> Result<Arc<CompletionSpec>, String>>(
        &mut self,
        command: &str,
        load: &F,
    ) -> (r: Result<&CompletionSpec, SpecLookupError>)
        requires
            old(self).wf(),
            forall|s: &SpecSource| #[trigger] call_requires(*load, (s,)),
        ensures
            Self::advanced(*old(self), *final(self), *load),
            forall|i: int|
                0 <= i < old(self).items().len() ==> if consulted(final(self)@, command@, i) {
                    !((#[trigger] final(self).items()[i]).parsed is Untouched)
                } else {
                    final(self).items()[i] == old(self).items()[i]
                },
            match r {
                Ok(s) => lookup(final(self)@, command@) matches Ok(a) && *a == *s,
                Err(e) => lookup(final(self)@, command@) == Err::<
                    Arc<CompletionSpec>,
                    LookupErrorView,
                >(e@),
            },
    {
        let ghost before = *self;
        let cands: Vec<usize> = match self.by_alias.get(command) {
            Some(c) => copy_indices(c),
            None => {
                return Err(SpecLookupError::NoSuchSpec { command: command.to_owned() });
            },
        };
        let ghost ix = alias_index::indices(cands@);
        let mut k: usize = 0;
        let mut found = false;
        while k < cands.len() && !found
            invariant
                k <= cands.len(),
                before.wf(),
                ix == alias_index::indices(cands@),
                before@.index.dom().contains(command@),
                before@.index[command@] == ix,
                forall|s: &SpecSource| #[trigger] call_requires(*load, (s,)),
                Self::advanced(before, *self, *load),
                forall|q: int|
                    0 <= q < k ==> self@.entries[#[trigger] ix[q]].parsed is Failed,
                found ==> k < cands.len() && self@.entries[ix[k as int]].parsed is Loaded,
                forall|i: int|
                    0 <= i < before.items().len() && (forall|q: int|
                        0 <= q < k + (if found {
                            1int
                        } else {
                            0
                        }) ==> #[trigger] ix[q] != i) ==> self.items()[i] == before.items()[i],
            decreases cands.len() - k, (if found { 0int } else { 1int }),
        {
            let ghost prior = *self;
            assert(before@.index[command@][k as int] == ix[k as int]);
            let i: usize = cands[k];
            assert(ix[k as int] == i as int);
            let ok = self.load_entry(i, load);
            proof {
                assert forall|j: int| 0 <= j < before.items().len() implies loaded_by(
                    *load,
                    before.items()[j],
                    #[trigger] self.items()[j],
                ) by {
                    assert(loaded_by(*load, before.items()[j], prior.items()[j]));
                    assert(loaded_by(*load, prior.items()[j], self.items()[j]));
                }
                assert(before@.index[command@].no_duplicates());
                assert forall|q: int| 0 <= q < k implies self@.entries[
                #[trigger] ix[q]].parsed is Failed by {
                    assert(ix[q] != ix[k as int]);
                    assert(before@.index[command@][q] == ix[q]);
                    assert(self.items()[ix[q]] == prior.items()[ix[q]]);
                    assert(prior@.entries[ix[q]].parsed is Failed);
                }
            }
            if ok {
                found = true;
            } else {
                k += 1;
            }
        }
        proof {
            let st = self@;
            lemma_first_loaded(st.entries, ix, 0);
            let w = first_loaded(st.entries, ix, 0);
            if found {
                if w < k {
                    assert(st.entries[ix[w]].parsed is Failed);
                }
                if w > k {
                    assert(!(st.entries[ix[k as int]].parsed is Loaded));
                }
                assert(w == k);
            } else {
                if w < cands.len() {
                    assert(st.entries[ix[w]].parsed is Failed);
                }
                assert(w == cands.len());
            }
            assert forall|i: int| 0 <= i < before.items().len() implies if consulted(
                st,
                command@,
                i,
            ) {
                !((#[trigger] self.items()[i]).parsed is Untouched)
            } else {
                self.items()[i] == before.items()[i]
            } by {
                if consulted(st, command@, i) {
                    let q = choose|q: int|
                        0 <= q < st.index[command@].len() && q <= first_loaded(
                            st.entries,
                            st.index[command@],
                            0,
                        ) && #[trigger] st.index[command@][q] == i;
                    assert(ix[q] == i);
                    assert(st.entries[ix[q]].parsed == self.items()[i].parsed);
                } else {
                    assert forall|q: int|
                        0 <= q < k + (if found {
                            1int
                        } else {
                            0
                        }) implies #[trigger] ix[q] != i by {
                        assert(st.index[command@][q] == ix[q]);
                    }
                }
            }
        }
        if found {
            let i: usize = cands[k];
            assert(ix[k as int] == i as int);
            assert(before@.index[command@][k as int] == ix[k as int]);
            match &self.entries[i].parsed {
                LoadState::Loaded(s) => Ok(&**s),
                _ => Err(SpecLookupError::NoSuchSpec { command: command.to_owned() }),
            }
        } else if cands.len() > 0 {
            let i: usize = cands[0];
            assert(ix[0] == i as int);
            assert(before@.index[command@][0] == ix[0]);
            let e = &self.entries[i];
            assert(self@.entries[i as int] == e@);
            Err(
                SpecLookupError::LoadFailed {
                    command: command.to_owned(),
                    id: e.id.clone(),
                    source: e.location(),
                    error: match &e.parsed {
                        LoadState::Failed(m) => m.clone(),
                        _ => String::new(),
                    },
                },
            )
        } else {
            Err(SpecLookupError::NoSuchSpec { command: command.to_owned() })
        }
    }

    /// The spec for a command.
    pub fn get<F: Fn(&SpecSource) -> Result<Arc<CompletionSpec>, String>>(
        &mut self,
        command: &str,
        load: &F,
    ) -> (r: Option<&CompletionSpec>)
        requires
            old(self).wf(),
            forall|s: &SpecSource| #[trigger] call_requires(*load, (s,)),
        ensures
            Self::advanced(*old(self), *final(self), *load),
            forall|i: int|
                0 <= i < old(self).items().len() ==> if consulted(final(self)@, command@, i) {
                    !((#[trigger] final(self).items()[i]).parsed is Untouched)
                } else {
                    final(self).items()[i] == old(self).items()[i]
                },
            match r {
                Some(s) => lookup(final(self)@, command@) matches Ok(a) && *a == *s,
                None => lookup(final(self)@, command@) is Err,
            },
    {
        match self.get_result(command, load) {
            Ok(s) => Some(s),
            Err(_) => None,
        }
    }

    /// Tries every entry that was not tried before.
    pub fn force_load_all<F: Fn(&SpecSource) -> Result<Arc<CompletionSpec>, String>>(
        &mut self,
        load: &F,
    )
        requires
            old(self).wf(),
            forall|s: &SpecSource| #[trigger] call_requires(*load, (s,)),
        ensures
            Self::advanced(*old(self), *final(self), *load),
            forall|i: int|
                0 <= i < final(self).items().len() ==> !((
                #[trigger] final(self).items()[i]).parsed is Untouched),
    {
        let ghost before = *self;
        let mut i: usize = 0;
        while i < self.entries.len()
            invariant
                i <= self.items().len(),
                forall|s: &SpecSource| #[trigger] call_requires(*load, (s,)),
                Self::advanced(before, *self, *load),
                forall|j: int|
                    0 <= j < i ==> !((#[trigger] self.items()[j]).parsed is Untouched),
            decreases self.items().len() - i,
        {
            let ghost prior = *self;
            self.load_entry(i, load);
            proof {
                assert forall|j: int| 0 <= j < before.items().len() implies loaded_by(
                    *load,
                    before.items()[j],
                    #[trigger] self.items()[j],
                ) by {
                    assert(loaded_by(*load, before.items()[j], prior.items()[j]));
                    assert(loaded_by(*load, prior.items()[j], self.items()[j]));
                }
                assert forall|j: int| 0 <= j < i + 1 implies !((
                #[trigger] self.items()[j]).parsed is Untouched) by {
                    if j < i {
                        assert(self.items()[j] == prior.items()[j]);
                    }
                }
            }
            i += 1;
        }
    }
}

// ---------------------------------------------------------------------------
// Diagnostics
// ---------------------------------------------------------------------------
/// The entries that failed to load, in order.
pub open spec fn failures(entries: Seq<SpecEntryView>) -> Seq<LoadErrorView>
    decreases entries.len(),
{
    if entries.len() == 0 {
        Seq::empty()
    } else {
        let rest = failures(entries.drop_last());
        let e = entries.last();
        match e.parsed {
            LoadState::Failed(m) => rest.push(
                LoadErrorView { id: e.id, source: location_of(e), error: m@ },
            ),
            _ => rest,
        }
    }
}

/// The indices below `n` that some alias resolves to, in order.
pub open spec fn resolved_below(st: StoreView, n: int) -> Seq<int>
    decreases n,
{
    if n <= 0 {
        Seq::empty()
    } else if is_resolved(st, n - 1) {
        resolved_below(st, n - 1).push(n - 1)
    } else {
        resolved_below(st, n - 1)
    }
}

/// The aliases none of whose candidates loads.
pub open spec fn dead_aliases(st: StoreView) -> Set<Seq<char>> {
    st.index.dom().filter(
        |a: Seq<char>| first_loaded(st.entries, st.index[a], 0) >= st.index[a].len(),
    )
}

/// Stem and path of every entry that is a file, in order.
pub open spec fn file_paths(entries: Seq<SpecEntryView>) -> Seq<(Seq<char>, Seq<char>)>
    decreases entries.len(),
{
    if entries.len() == 0 {
        Seq::empty()
    } else {
        let rest = file_paths(entries.drop_last());
        match entries.last().source {
            SourceView::Filesystem(path) => rest.push((entries.last().filename_stem, path)),
            SourceView::Embedded(_) => rest,
        }
    }
}

impl SpecStore {
    /// The position of the first loaded candidate.
    fn winner(&self, cands: &Vec<usize>) -> (r: usize)
        requires
            forall|k: int| 0 <= k < cands.len() ==> (#[trigger] cands@[k]) < self.items().len(),
        ensures
            r == first_loaded(self@.entries, alias_index::indices(cands@), 0),
            r <= cands.len(),
    {
        let mut k: usize = 0;
        let ghost ix = alias_index::indices(cands@);
        while k < cands.len()
            invariant
                k <= cands.len(),
                ix == alias_index::indices(cands@),
                forall|q: int| 0 <= q < cands.len() ==> (#[trigger] cands@[q]) < self.items().len(),
                first_loaded(self@.entries, ix, 0) == first_loaded(self@.entries, ix, k as int),
            decreases cands.len() - k,
        {
            assert(ix[k as int] == cands@[k as int]);
            assert(self@.entries[ix[k as int]] == self.entries@[cands@[k as int] as int]@);
            if let LoadState::Loaded(_) = &self.entries[cands[k]].parsed {
                return k;
            }
            k += 1;
        }
        k
    }

    /// Tries every entry and lists those that failed.
    pub fn force_load_errors<F: Fn(&SpecSource) -> Result<Arc<CompletionSpec>, String>>(
        &mut self,
        load: &F,
    ) -> (r: Vec<SpecEntryLoadError>)
        requires
            old(self).wf(),
            forall|s: &SpecSource| #[trigger] call_requires(*load, (s,)),
        ensures
            Self::advanced(*old(self), *final(self), *load),
            forall|i: int|
                0 <= i < final(self).items().len() ==> !((
                #[trigger] final(self).items()[i]).parsed is Untouched),
            r@.map_values(|e: SpecEntryLoadError| e@) == failures(final(self)@.entries),
    {
        self.force_load_all(load);
        let mut out: Vec<SpecEntryLoadError> = Vec::new();
        let ghost all = self@.entries;
        let mut i: usize = 0;
        assert(all.take(0) =~= Seq::empty());
        while i < self.entries.len()
            invariant
                i <= self.entries.len(),
                all == self@.entries,
                out@.map_values(|e: SpecEntryLoadError| e@) == failures(all.take(i as int)),
            decreases self.entries.len() - i,
        {
            proof {
                assert(all.take(i + 1).drop_last() =~= all.take(i as int));
                assert(all.take(i + 1).last() == self.entries@[i as int]@);
            }
            let e = &self.entries[i];
            if let LoadState::Failed(m) = &e.parsed {
                let ghost before = out@;
                let x = SpecEntryLoadError {
                    id: e.id.clone(),
                    source: e.location(),
                    error: m.clone(),
                };
                out.push(x);
                assert(out@.map_values(|e: SpecEntryLoadError| e@) =~= before.map_values(
                    |e: SpecEntryLoadError| e@,
                ).push(x@));
            }
            i += 1;
        }
        assert(all.take(all.len() as int) =~= all);
        out
    }

    /// Marks the entries that some alias resolves to.
    fn resolved_flags(&self) -> (r: Vec<bool>)
        requires
            self.wf(),
        ensures
            r.len() == self.items().len(),
            forall|i: int| 0 <= i < r.len() ==> #[trigger] r@[i] == is_resolved(self@, i),
    {
        let mut flags: Vec<bool> = Vec::new();
        while flags.len() < self.entries.len()
            invariant
                flags.len() <= self.items().len(),
                forall|i: int| 0 <= i < flags.len() ==> !(#[trigger] flags@[i]),
            decreases self.items().len() - flags.len(),
        {
            flags.push(false);
        }
        let slots: usize = self.by_alias.len();
        let mut j: usize = 0;
        while j < slots
            invariant
                self.wf(),
                j <= slots,
                slots == self.by_alias.size(),
                flags.len() == self.items().len(),
                forall|i: int|
                    0 <= i < flags.len() ==> #[trigger] flags@[i] == exists|q: int|
                        0 <= q < j && #[trigger] resolves_to(self@, self.by_alias.key(q), i),
            decreases slots - j,
        {
            let cands = self.by_alias.candidates_at(j);
            let ghost a = self.by_alias.key(j as int);
            let ghost before = flags@;
            proof {
                assert forall|k: int| 0 <= k < cands.len() implies (#[trigger] cands@[k])
                    < self.items().len() by {
                    assert(self@.index[a][k] == cands@[k] as int);
                }
            }
            let w = self.winner(cands);
            if w < cands.len() {
                assert(self@.index[a][w as int] == cands@[w as int] as int);
                let hit: usize = cands[w];
                flags[hit] = true;
                assert(resolves_to(self@, a, hit as int));
            }
            proof {
                assert forall|i: int| 0 <= i < flags.len() implies #[trigger] flags@[i] == (
                exists|q: int|
                    0 <= q < j + 1 && #[trigger] resolves_to(self@, self.by_alias.key(q), i)) by {
                    let had = exists|q: int|
                        0 <= q < j && #[trigger] resolves_to(self@, self.by_alias.key(q), i);
                    assert(before[i] == had);
                    if had {
                        let q = choose|q: int|
                            0 <= q < j && #[trigger] resolves_to(self@, self.by_alias.key(q), i);
                        assert(resolves_to(self@, self.by_alias.key(q), i));
                    }
                    if flags@[i] && !had {
                        assert(resolves_to(self@, self.by_alias.key(j as int), i));
                    }
                    if !flags@[i] {
                        assert(!resolves_to(self@, self.by_alias.key(j as int), i));
                    }
                }
            }
            j += 1;
        }
        proof {
            self.by_alias.lemma_keys();
            assert forall|i: int| 0 <= i < flags.len() implies #[trigger] flags@[i] == is_resolved(
                self@,
                i,
            ) by {
                if is_resolved(self@, i) {
                    let a = choose|a: Seq<char>| #[trigger] resolves_to(self@, a, i);
                    assert(self.by_alias@.dom().contains(a));
                    let q = choose|q: int|
                        0 <= q < self.by_alias.size() && #[trigger] self.by_alias.key(q) == a;
                    assert(resolves_to(self@, self.by_alias.key(q), i));
                }
            }
        }
        flags
    }

    /// The entries that aliases resolve to, each once, in registration order.
    pub fn resolved_entries<F: Fn(&SpecSource) -> Result<Arc<CompletionSpec>, String>>(
        &mut self,
        load: &F,
    ) -> (r: Vec<&SpecEntry>)
        requires
            old(self).wf(),
            forall|s: &SpecSource| #[trigger] call_requires(*load, (s,)),
        ensures
            Self::advanced(*old(self), *final(self), *load),
            forall|i: int|
                0 <= i < final(self).items().len() ==> !((
                #[trigger] final(self).items()[i]).parsed is Untouched),
            r@.map_values(|e: &SpecEntry| *e) == resolved_below(
                final(self)@,
                final(self).items().len() as int,
            ).map_values(|i: int| final(self).items()[i]),
    {
        self.force_load_all(load);
        let flags = self.resolved_flags();
        let mut out: Vec<&SpecEntry> = Vec::new();
        let ghost st = self@;
        let ghost items = self.items();
        let mut i: usize = 0;
        assert(out@.map_values(|e: &SpecEntry| *e) =~= resolved_below(st, 0).map_values(
            |i: int| items[i],
        ));
        while i < self.entries.len()
            invariant
                i <= self.entries.len(),
                items == self.items(),
                st == self@,
                flags.len() == items.len(),
                forall|q: int| 0 <= q < flags.len() ==> #[trigger] flags@[q] == is_resolved(st, q),
                out@.map_values(|e: &SpecEntry| *e) == resolved_below(st, i as int).map_values(
                    |q: int| items[q],
                ),
            decreases self.entries.len() - i,
        {
            if flags[i] {
                let ghost before = out@;
                let e = &self.entries[i];
                out.push(e);
                proof {
                    assert(out@.map_values(|e: &SpecEntry| *e) =~= before.map_values(
                        |e: &SpecEntry| *e,
                    ).push(items[i as int]));
                    assert(resolved_below(st, i + 1).map_values(|q: int| items[q])
                        =~= resolved_below(st, i as int).map_values(|q: int| items[q]).push(
                        items[i as int],
                    ));
                }
            }
            i += 1;
        }
        out
    }

    /// Id and spec of every entry that some alias resolves to.
    pub fn iter<F: Fn(&SpecSource) -> Result<Arc<CompletionSpec>, String>>(
        &mut self,
        load: &F,
    ) -> (r: Vec<(&str, &CompletionSpec)>)
        requires
            old(self).wf(),
            forall|s: &SpecSource| #[trigger] call_requires(*load, (s,)),
        ensures
            Self::advanced(*old(self), *final(self), *load),
            forall|i: int|
                0 <= i < final(self).items().len() ==> !((
                #[trigger] final(self).items()[i]).parsed is Untouched),
            ({
                let ids = resolved_below(final(self)@, final(self).items().len() as int);
                &&& r.len() == ids.len()
                &&& forall|k: int|
                    0 <= k < ids.len() ==> {
                        &&& (#[trigger] r@[k]).0@ == final(self)@.entries[ids[k]].id
                        &&& final(self)@.entries[ids[k]].parsed matches LoadState::Loaded(a)
                        &&& *a == *r@[k].1
                    }
            }),
    {
        self.force_load_all(load);
        let flags = self.resolved_flags();
        let mut out: Vec<(&str, &CompletionSpec)> = Vec::new();
        let ghost st = self@;
        let mut i: usize = 0;
        while i < self.entries.len()
            invariant
                self.wf(),
                i <= self.entries.len(),
                st == self@,
                flags.len() == self.items().len(),
                forall|q: int| 0 <= q < flags.len() ==> #[trigger] flags@[q] == is_resolved(st, q),
                out.len() == resolved_below(st, i as int).len(),
                forall|q: int|
                    0 <= q < out.len() ==> {
                        &&& (#[trigger] out@[q]).0@ == st.entries[resolved_below(st, i as int)[q]].id
                        &&& st.entries[resolved_below(st, i as int)[q]].parsed matches LoadState::Loaded(a)
                        &&& *a == *out@[q].1
                    },
            decreases self.entries.len() - i,
        {
            let e = &self.entries[i];
            assert(st.entries[i as int] == e@);
            if flags[i] {
                proof {
                    lemma_resolved_below(st, i + 1);
                    let ids = resolved_below(st, i + 1);
                    assert(ids[ids.len() - 1] == i);
                }
                if let LoadState::Loaded(s) = &e.parsed {
                    out.push((e.id.as_str(), &**s));
                }
            }
            i += 1;
        }
        out
    }

    /// The number of entries.
    pub fn len(&self) -> (r: usize)
        ensures
            r == self@.entries.len(),
    {
        self.entries.len()
    }

    pub fn is_empty(&self) -> (r: bool)
        ensures
            r == (self@.entries.len() == 0),
    {
        self.entries.len() == 0
    }

    /// The entries in registration order.
    pub fn entries(&self) -> (r: &Vec<SpecEntry>)
        ensures
            r@ == self.items(),
            entry_views(r@) == self@.entries,
    {
        &self.entries
    }

    /// The number of aliases.
    pub fn aliases_count(&self) -> (r: usize)
        requires
            self.wf(),
        ensures
            r == self@.index.dom().len(),
    {
        self.by_alias.len()
    }

    /// The number of aliases none of whose candidates loads.
    pub fn nonfunctional_aliases_count<
        F: Fn(&SpecSource) -> Result<Arc<CompletionSpec>, String>,
    >(&mut self, load: &F) -> (r: usize)
        requires
            old(self).wf(),
            forall|s: &SpecSource| #[trigger] call_requires(*load, (s,)),
        ensures
            Self::advanced(*old(self), *final(self), *load),
            forall|i: int|
                0 <= i < final(self).items().len() ==> !((
                #[trigger] final(self).items()[i]).parsed is Untouched),
            r == dead_aliases(final(self)@).len(),
    {
        self.force_load_all(load);
        let slots: usize = self.by_alias.len();
        let mut count: usize = 0;
        let mut j: usize = 0;
        let ghost st = self@;
        let ghost mut dead: Set<Seq<char>> = Set::empty();
        while j < slots
            invariant
                self.wf(),
                st == self@,
                j <= slots,
                count <= j,
                slots == self.by_alias.size(),
                dead.finite(),
                dead.len() == count,
                forall|a: Seq<char>| #[trigger]
                    dead.contains(a) <==> dead_aliases(st).contains(a) && exists|q: int|
                        0 <= q < j && #[trigger] self.by_alias.key(q) == a,
            decreases slots - j,
        {
            let cands = self.by_alias.candidates_at(j);
            let ghost a = self.by_alias.key(j as int);
            let ghost before = dead;
            proof {
                assert forall|k: int| 0 <= k < cands.len() implies (#[trigger] cands@[k])
                    < self.items().len() by {
                    assert(self@.index[a][k] == cands@[k] as int);
                }
                self.by_alias.lemma_keys();
                assert(!dead.contains(a)) by {
                    if dead.contains(a) {
                        let q = choose|q: int| 0 <= q < j && #[trigger] self.by_alias.key(q) == a;
                        assert(self.by_alias.key(q) != self.by_alias.key(j as int));
                    }
                }
            }
            let w = self.winner(cands);
            if w >= cands.len() {
                count += 1;
                proof {
                    dead = dead.insert(a);
                }
            }
            proof {
                assert forall|b: Seq<char>| #[trigger] dead.contains(b) <==> dead_aliases(
                    st,
                ).contains(b) && exists|q: int|
                    0 <= q < j + 1 && #[trigger] self.by_alias.key(q) == b by {
                    if before.contains(b) {
                        let q = choose|q: int| 0 <= q < j && #[trigger] self.by_alias.key(q) == b;
                        assert(self.by_alias.key(q) == b);
                    }
                    if b == a {
                        assert(self.by_alias.key(j as int) == b);
                    } else if dead_aliases(st).contains(b) && exists|q: int|
                        0 <= q < j + 1 && #[trigger] self.by_alias.key(q) == b {
                        let q = choose|q: int|
                            0 <= q < j + 1 && #[trigger] self.by_alias.key(q) == b;
                        assert(q < j);
                        assert(before.contains(b));
                    }
                }
            }
            j += 1;
        }
        proof {
            self.by_alias.lemma_keys();
            assert(dead =~= dead_aliases(st));
        }
        count
    }

    /// The alias collisions met so far.
    pub fn conflicts(&self) -> (r: &Vec<AliasConflict>)
        ensures
            conflict_views(r@) == self@.conflicts,
    {
        &self.conflicts
    }

    /// The location of every entry, in registration order.
    pub fn locations(&self) -> (r: Vec<SpecLocation>)
        ensures
            r@.map_values(|l: SpecLocation| l@) == self@.entries.map_values(
                |e: SpecEntryView| location_of(e),
            ),
    {
        let mut out: Vec<SpecLocation> = Vec::new();
        let mut i: usize = 0;
        while i < self.entries.len()
            invariant
                i <= self.entries.len(),
                out.len() == i,
                forall|j: int| 0 <= j < i ==> (#[trigger] out@[j])@ == location_of(self@.entries[j]),
            decreases self.entries.len() - i,
        {
            out.push(self.entries[i].location());
            i += 1;
        }
        assert(out@.map_values(|l: SpecLocation| l@) =~= self@.entries.map_values(
            |e: SpecEntryView| location_of(e),
        ));
        out
    }

    /// Stem and path of every entry that is a file, in registration order.
    pub fn filesystem_paths(&self) -> (r: Vec<(String, String)>)
        ensures
            r@.map_values(|p: (String, String)| (p.0@, p.1@)) == file_paths(self@.entries),
    {
        let mut out: Vec<(String, String)> = Vec::new();
        let ghost all = self@.entries;
        let mut i: usize = 0;
        assert(all.take(0) =~= Seq::empty());
        while i < self.entries.len()
            invariant
                i <= self.entries.len(),
                all == self@.entries,
                out@.map_values(|p: (String, String)| (p.0@, p.1@)) == file_paths(
                    all.take(i as int),
                ),
            decreases self.entries.len() - i,
        {
            proof {
                assert(all.take(i + 1).drop_last() =~= all.take(i as int));
                assert(all.take(i + 1).last() == self.entries@[i as int]@);
            }
            let e = &self.entries[i];
            if let SpecSource::Filesystem(path) = &e.source {
                let ghost before = out@;
                let pair = (e.filename_stem.clone(), path.clone());
                out.push(pair);
                assert(out@.map_values(|p: (String, String)| (p.0@, p.1@)) =~= before.map_values(
                    |p: (String, String)| (p.0@, p.1@),
                ).push((pair.0@, pair.1@)));
            }
            i += 1;
        }
        assert(all.take(all.len() as int) =~= all);
        out
    }

    /// Stem and path of every entry that is a file, in registration order.
    pub fn canonical_paths(&self) -> (r: Vec<(String, String)>)
        ensures
            r@.map_values(|p: (String, String)| (p.0@, p.1@)) == file_paths(self@.entries),
    {
        self.filesystem_paths()
    }
}

/// The resolved entries are loaded ones.
pub proof fn lemma_resolved_below(st: StoreView, n: int)
    requires
        consistent(st),
        n <= st.entries.len(),
    ensures
        forall|k: int|
            0 <= k < resolved_below(st, n).len() ==> 0 <= #[trigger] resolved_below(st, n)[k] < n
                && st.entries[resolved_below(st, n)[k]].parsed is Loaded,
    decreases n,
{
    if n > 0 {
        lemma_resolved_below(st, n - 1);
        if is_resolved(st, n - 1) {
            let a = choose|a: Seq<char>| #[trigger] resolves_to(st, a, n - 1);
            lemma_first_loaded(st.entries, st.index[a], 0);
        }
    }
}

} // verus!
