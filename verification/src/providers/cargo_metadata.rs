//! Cargo targets, features and workspace members, from what `cargo metadata`
//! prints as JSON.
use crate::providers::context::{Provider, ProviderCtx};
use crate::providers::keyed_cache;
use crate::providers::keyed_cache::{get_fresh, CacheKey, KeyedCache, Slot, Timed};
use crate::providers::listing;
use crate::providers::paths;
use crate::text;
use crate::text_map;
use crate::types;
use crate::types::{provider_value, Suggestion, SuggestionView};
use vstd::prelude::*;
use vstd::string::*;

verus! {

/// How long an output is kept, in milliseconds.
pub const CARGO_METADATA_TTL_MS: u64 = 300000;

/// What the command prints, as far as it is read.
#[derive(Debug)]
pub struct CargoMetadataOutput {
    pub packages: Vec<CargoPackage>,
    /// The identifiers of the packages of the workspace.
    pub workspace_members: Vec<String>,
}

/// One package.
#[derive(Debug)]
pub struct CargoPackage {
    pub id: String,
    pub name: String,
    pub manifest_path: Option<String>,
    /// The names of the features, in order.
    pub features: Vec<String>,
    pub targets: Vec<CargoTarget>,
}

/// One target of a package.
#[derive(Debug)]
pub struct CargoTarget {
    pub name: String,
    pub kind: Vec<String>,
}

/// The content of a [`CargoTarget`].
#[verifier::ext_equal]
pub struct TargetView {
    pub name: Seq<char>,
    pub kind: Seq<Seq<char>>,
}

/// The content of a [`CargoPackage`].
#[verifier::ext_equal]
pub struct PackageView {
    pub id: Seq<char>,
    pub name: Seq<char>,
    pub manifest_path: Option<Seq<char>>,
    pub features: Seq<Seq<char>>,
    pub targets: Seq<TargetView>,
}

/// The content of a [`CargoMetadataOutput`].
#[verifier::ext_equal]
pub struct MetadataView {
    pub packages: Seq<PackageView>,
    pub workspace_members: Seq<Seq<char>>,
}

impl View for CargoTarget {
    type V = TargetView;

    open spec fn view(&self) -> TargetView {
        TargetView { name: self.name@, kind: text::views(self.kind@) }
    }
}

impl View for CargoPackage {
    type V = PackageView;

    open spec fn view(&self) -> PackageView {
        PackageView {
            id: self.id@,
            name: self.name@,
            manifest_path: text::opt_view(self.manifest_path),
            features: text::views(self.features@),
            targets: listing::views_of(self.targets@),
        }
    }
}

impl View for CargoMetadataOutput {
    type V = MetadataView;

    open spec fn view(&self) -> MetadataView {
        MetadataView {
            packages: listing::views_of(self.packages@),
            workspace_members: text::views(self.workspace_members@),
        }
    }
}

// ---------------------------------------------------------------------------
// Members
// ---------------------------------------------------------------------------
/// The last of the first `n` packages with an identifier.
pub open spec fn last_with_id(packages: Seq<PackageView>, id: Seq<char>, n: int) -> Option<int>
    decreases n,
{
    if n <= 0 {
        None
    } else if packages[n - 1].id == id {
        Some(n - 1)
    } else {
        last_with_id(packages, id, n - 1)
    }
}

/// The package with an identifier.
pub open spec fn package_at(packages: Seq<PackageView>, id: Seq<char>) -> Option<int> {
    last_with_id(packages, id, packages.len() as int)
}

/// The members of the workspace as positions among the packages. Where no
/// members are named, every package is one; unknown ones are left out.
pub open spec fn member_indices(m: MetadataView) -> Seq<int> {
    if m.workspace_members.len() == 0 {
        Seq::new(m.packages.len(), |i: int| i)
    } else {
        listing::picked(m.workspace_members, |id: Seq<char>| package_at(m.packages, id))
    }
}

proof fn lemma_last_with_id(packages: Seq<PackageView>, id: Seq<char>, n: int)
    requires
        0 <= n <= packages.len(),
    ensures
        last_with_id(packages, id, n) matches Some(i) ==> 0 <= i < n && packages[i].id == id,
    decreases n,
{
    if n > 0 {
        lemma_last_with_id(packages, id, n - 1);
    }
}

/// Every member is one of the packages.
pub proof fn law_members_are_packages(m: MetadataView)
    ensures
        forall|k: int|
            0 <= k < member_indices(m).len() ==> 0 <= #[trigger] member_indices(m)[k]
                < m.packages.len(),
{
    let f = |id: Seq<char>| package_at(m.packages, id);
    listing::law_picked(m.workspace_members, f);
    assert forall|k: int| 0 <= k < member_indices(m).len() implies 0 <= #[trigger] member_indices(
        m,
    )[k] < m.packages.len() by {
        if m.workspace_members.len() > 0 {
            let picked = listing::picked(m.workspace_members, f);
            assert(picked[k] == member_indices(m)[k]);
            let j = choose|j: int|
                0 <= j < m.workspace_members.len() && f(#[trigger] m.workspace_members[j]) == Some(
                    picked[k],
                );
            lemma_last_with_id(m.packages, m.workspace_members[j], m.packages.len() as int);
        }
    }
}

/// The positions as mathematical numbers.
pub open spec fn positions(v: Seq<usize>) -> Seq<int> {
    v.map_values(|i: usize| i as int)
}

fn index_of(packages: &Vec<CargoPackage>, id: &str) -> (r: Option<usize>)
    ensures
        match r {
            Some(i) => package_at(listing::views_of(packages@), id@) == Some(i as int),
            None => package_at(listing::views_of(packages@), id@) is None,
        },
{
    let ghost all = listing::views_of(packages@);
    let mut n: usize = packages.len();
    while n > 0
        invariant
            n <= packages.len(),
            all == listing::views_of(packages@),
            package_at(all, id@) == last_with_id(all, id@, n as int),
        decreases n,
    {
        assert(all[n - 1] == packages@[n - 1]@);
        if text::same(&packages[n - 1].id, id) {
            return Some(n - 1);
        }
        n -= 1;
    }
    None
}

/// The members of the workspace as positions among the packages.
pub fn workspace_member_indices(m: &CargoMetadataOutput) -> (r: Vec<usize>)
    ensures
        positions(r@) == member_indices(m@),
        forall|k: int| 0 <= k < r@.len() ==> #[trigger] r@[k] < m.packages@.len(),
{
    let ghost ms = m@.workspace_members;
    let mut out: Vec<usize> = Vec::new();
    proof {
        law_members_are_packages(m@);
        assert(ms.len() == m.workspace_members@.len());
        assert(positions(out@) =~= Seq::empty());
    }
    if m.workspace_members.len() == 0 {
        let mut i: usize = 0;
        while i < m.packages.len()
            invariant
                i <= m.packages.len(),
                out.len() == i,
                forall|k: int| 0 <= k < i ==> #[trigger] out@[k] == k,
            decreases m.packages.len() - i,
        {
            out.push(i);
            i += 1;
        }
        assert(positions(out@) =~= member_indices(m@));
        return out;
    }
    let ghost f = |id: Seq<char>| package_at(m@.packages, id);
    let mut i: usize = 0;
    assert(ms.take(0) =~= Seq::empty());
    while i < m.workspace_members.len()
        invariant
            i <= m.workspace_members.len(),
            ms == text::views(m.workspace_members@),
            f == (|id: Seq<char>| package_at(m@.packages, id)),
            positions(out@) == listing::picked(ms.take(i as int), f),
        decreases m.workspace_members.len() - i,
    {
        proof {
            assert(ms.take(i + 1).drop_last() =~= ms.take(i as int));
            assert(ms.take(i + 1).last() == m.workspace_members@[i as int]@);
        }
        if let Some(p) = index_of(&m.packages, &m.workspace_members[i]) {
            let ghost before = out@;
            out.push(p);
            assert(positions(out@) =~= positions(before).push(p as int));
        }
        i += 1;
    }
    proof {
        assert(ms.take(ms.len() as int) =~= ms);
        assert forall|k: int| 0 <= k < out@.len() implies #[trigger] out@[k] < m.packages@.len() by {
            assert(positions(out@)[k] == member_indices(m@)[k]);
        }
    }
    out
}

/// The packages of the workspace, in order.
pub open spec fn members(m: MetadataView) -> Seq<PackageView> {
    member_indices(m).map_values(|i: int| m.packages[i])
}

fn member_refs<'a>(m: &'a CargoMetadataOutput) -> (r: Vec<&'a CargoPackage>)
    ensures
        r@.map_values(|p: &'a CargoPackage| p@) == members(m@),
{
    let indices = workspace_member_indices(m);
    let mut out: Vec<&'a CargoPackage> = Vec::new();
    let mut i: usize = 0;
    while i < indices.len()
        invariant
            i <= indices.len(),
            out.len() == i,
            forall|k: int| 0 <= k < indices@.len() ==> #[trigger] indices@[k] < m.packages@.len(),
            forall|k: int|
                0 <= k < i ==> (#[trigger] out@[k])@ == m.packages@[indices@[k] as int]@,
        decreases indices.len() - i,
    {
        out.push(&m.packages[indices[i]]);
        i += 1;
    }
    proof {
        let got = out@.map_values(|p: &'a CargoPackage| p@);
        assert(positions(indices@).len() == indices@.len());
        assert forall|k: int| 0 <= k < got.len() implies got[k] == members(m@)[k] by {
            assert(out@[k]@ == m.packages@[indices@[k] as int]@);
            assert(positions(indices@)[k] == indices@[k] as int);
        }
        assert(got =~= members(m@));
    }
    out
}

/// The suggestion for a package.
pub open spec fn package_shown(p: PackageView) -> Option<SuggestionView> {
    if p.name.len() == 0 {
        None
    } else {
        Some(types::provided(p.name, None))
    }
}

/// The packages of the workspace as suggestions.
pub fn member_suggestions(m: &CargoMetadataOutput) -> (r: Vec<Suggestion>)
    ensures
        types::shown(r@) == listing::picked(members(m@), |p: PackageView| package_shown(p)),
{
    let found = member_refs(m);
    let ghost all = members(m@);
    let ghost f = |p: PackageView| package_shown(p);
    let mut out: Vec<Suggestion> = Vec::new();
    let mut i: usize = 0;
    proof {
        assert(all.take(0) =~= Seq::empty());
        assert(types::shown(out@) =~= Seq::empty());
    }
    while i < found.len()
        invariant
            i <= found.len(),
            all == found@.map_values(|p: &CargoPackage| p@),
            f == (|p: PackageView| package_shown(p)),
            types::shown(out@) == listing::picked(all.take(i as int), f),
        decreases found.len() - i,
    {
        let p = found[i];
        proof {
            assert(all.take(i + 1).drop_last() =~= all.take(i as int));
            assert(all.take(i + 1).last() == p@);
        }
        if !p.name.as_str().is_empty() {
            let ghost before = out@;
            let s = provider_value(p.name.clone(), None);
            out.push(s);
            assert(types::shown(out@) =~= types::shown(before).push(s@));
        }
        i += 1;
    }
    assert(all.take(all.len() as int) =~= all);
    out
}

// ---------------------------------------------------------------------------
// Targets
// ---------------------------------------------------------------------------
/// The targets so far with one more, if it has a name, is of the kind, and is
/// not there already.
pub open spec fn with_target(
    out: Seq<(Seq<char>, Seq<char>)>,
    t: TargetView,
    package: Seq<char>,
    kind: Seq<char>,
) -> Seq<(Seq<char>, Seq<char>)> {
    if t.name.len() == 0 || !t.kind.contains(kind) || listing::firsts(out).contains(t.name) {
        out
    } else {
        out.push((t.name, package))
    }
}

pub open spec fn with_targets(
    out: Seq<(Seq<char>, Seq<char>)>,
    targets: Seq<TargetView>,
    package: Seq<char>,
    kind: Seq<char>,
) -> Seq<(Seq<char>, Seq<char>)>
    decreases targets.len(),
{
    if targets.len() == 0 {
        out
    } else {
        with_target(
            with_targets(out, targets.drop_last(), package, kind),
            targets.last(),
            package,
            kind,
        )
    }
}

pub open spec fn targets_of(packages: Seq<PackageView>, kind: Seq<char>) -> Seq<
    (Seq<char>, Seq<char>),
>
    decreases packages.len(),
{
    if packages.len() == 0 {
        Seq::empty()
    } else {
        with_targets(
            targets_of(packages.drop_last(), kind),
            packages.last().targets,
            packages.last().name,
            kind,
        )
    }
}

/// The targets of a kind, each with the first package that has it.
pub open spec fn workspace_targets(m: MetadataView, kind: Seq<char>) -> Seq<
    (Seq<char>, Seq<char>),
> {
    if kind.len() == 0 {
        Seq::empty()
    } else {
        targets_of(members(m), kind)
    }
}

proof fn lemma_with_targets(
    out: Seq<(Seq<char>, Seq<char>)>,
    targets: Seq<TargetView>,
    package: Seq<char>,
    kind: Seq<char>,
)
    requires
        listing::firsts(out).no_duplicates(),
    ensures
        listing::firsts(with_targets(out, targets, package, kind)).no_duplicates(),
    decreases targets.len(),
{
    if targets.len() > 0 {
        lemma_with_targets(out, targets.drop_last(), package, kind);
        let before = with_targets(out, targets.drop_last(), package, kind);
        let r = with_targets(out, targets, package, kind);
        if r.len() > before.len() {
            assert(listing::firsts(r) =~= listing::firsts(before).push(targets.last().name));
        }
    }
}

proof fn lemma_targets_of(packages: Seq<PackageView>, kind: Seq<char>)
    ensures
        listing::firsts(targets_of(packages, kind)).no_duplicates(),
    decreases packages.len(),
{
    if packages.len() > 0 {
        lemma_targets_of(packages.drop_last(), kind);
        lemma_with_targets(
            targets_of(packages.drop_last(), kind),
            packages.last().targets,
            packages.last().name,
            kind,
        );
    }
}

/// No target is suggested twice.
pub proof fn law_targets_distinct(m: MetadataView, kind: Seq<char>)
    ensures
        listing::firsts(workspace_targets(m, kind)).no_duplicates(),
{
    lemma_targets_of(members(m), kind);
}

/// The targets of a kind as suggestions, each with its package.
pub fn target_suggestions(m: &CargoMetadataOutput, kind: &str) -> (r: Vec<Suggestion>)
    ensures
        types::shown(r@) == listing::pairs_shown(workspace_targets(m@, kind@)),
{
    let mut out: Vec<Suggestion> = Vec::new();
    let ghost mut pairs: Seq<(Seq<char>, Seq<char>)> = Seq::empty();
    assert(types::shown(out@) =~= listing::pairs_shown(pairs));
    if kind.is_empty() {
        return out;
    }
    let found = member_refs(m);
    let ghost all = members(m@);
    let mut i: usize = 0;
    assert(all.take(0) =~= Seq::empty());
    while i < found.len()
        invariant
            i <= found.len(),
            all == found@.map_values(|p: &CargoPackage| p@),
            pairs == targets_of(all.take(i as int), kind@),
            types::shown(out@) == listing::pairs_shown(pairs),
        decreases found.len() - i,
    {
        let p = found[i];
        proof {
            assert(all.take(i + 1).drop_last() =~= all.take(i as int));
            assert(all.take(i + 1).last() == p@);
        }
        let ghost ts = p@.targets;
        let ghost start = pairs;
        let mut k: usize = 0;
        assert(ts.take(0) =~= Seq::empty());
        while k < p.targets.len()
            invariant
                k <= p.targets.len(),
                ts == listing::views_of(p.targets@),
                pairs == with_targets(start, ts.take(k as int), p.name@, kind@),
                types::shown(out@) == listing::pairs_shown(pairs),
            decreases p.targets.len() - k,
        {
            let t = &p.targets[k];
            proof {
                assert(ts.take(k + 1).drop_last() =~= ts.take(k as int));
                assert(ts.take(k + 1).last() == t@);
            }
            if !t.name.as_str().is_empty() && text::lists(&t.kind, kind) && !listing::knows(
                &out,
                &t.name,
                Ghost(pairs),
            ) {
                let ghost before = out@;
                let s = provider_value(t.name.clone(), Some(p.name.clone()));
                out.push(s);
                proof {
                    let q = (t.name@, p.name@);
                    assert(types::shown(out@) =~= types::shown(before).push(s@));
                    assert(listing::pairs_shown(pairs.push(q)) =~= listing::pairs_shown(
                        pairs,
                    ).push(types::provided(q.0, Some(q.1))));
                    pairs = pairs.push(q);
                }
            }
            k += 1;
        }
        assert(ts.take(ts.len() as int) =~= ts);
        i += 1;
    }
    assert(all.take(all.len() as int) =~= all);
    out
}

/// The kind of target that is asked for: the parameter `kind`, or `bin`.
pub open spec fn wanted_kind(params: Seq<(Seq<char>, Seq<char>)>) -> Seq<char> {
    match text_map::value_of(params, "kind"@) {
        Some(k) => k,
        None => "bin"@,
    }
}

/// The kind of target that is asked for.
pub fn target_kind(ctx: &ProviderCtx) -> (r: &str)
    ensures
        r@ == wanted_kind(ctx.params.items()),
{
    match ctx.params.get("kind") {
        Some(k) => k,
        None => "bin",
    }
}

// ---------------------------------------------------------------------------
// Features
// ---------------------------------------------------------------------------
/// The depth of a package's directory, if `cwd` lies in it.
pub open spec fn covering_depth(p: PackageView, cwd: Seq<char>) -> Option<nat> {
    match p.manifest_path {
        Some(path) => match paths::parent(path) {
            Some(dir) => if paths::is_under(cwd, dir) {
                Some(paths::depth(dir))
            } else {
                None
            },
            None => None,
        },
        None => None,
    }
}

/// The position of the deepest of the first `n` packages whose directory `cwd`
/// lies in. Of equally deep ones the first counts.
pub open spec fn deepest(packages: Seq<PackageView>, cwd: Seq<char>, n: int) -> Option<int>
    decreases n,
{
    if n <= 0 {
        None
    } else {
        let before = deepest(packages, cwd, n - 1);
        match covering_depth(packages[n - 1], cwd) {
            Some(d) => match before {
                Some(b) => if d > covering_depth(packages[b], cwd)->Some_0 {
                    Some(n - 1)
                } else {
                    before
                },
                None => Some(n - 1),
            },
            None => before,
        }
    }
}

/// The package that is worked on: the deepest one that `cwd` lies in, or else
/// the first.
pub open spec fn active_package(m: MetadataView, cwd: Seq<char>) -> Option<PackageView> {
    let all = members(m);
    match deepest(all, cwd, all.len() as int) {
        Some(i) => Some(all[i]),
        None => if all.len() > 0 {
            Some(all[0])
        } else {
            None
        },
    }
}

proof fn lemma_deepest(packages: Seq<PackageView>, cwd: Seq<char>, n: int)
    requires
        0 <= n <= packages.len(),
    ensures
        match deepest(packages, cwd, n) {
            Some(b) => 0 <= b < n && covering_depth(packages[b], cwd) is Some && forall|i: int|
                0 <= i < n && #[trigger] covering_depth(packages[i], cwd) is Some
                    ==> covering_depth(packages[i], cwd)->Some_0 <= covering_depth(
                    packages[b],
                    cwd,
                )->Some_0,
            None => forall|i: int|
                0 <= i < n ==> #[trigger] covering_depth(packages[i], cwd) is None,
        },
    decreases n,
{
    if n > 0 {
        lemma_deepest(packages, cwd, n - 1);
    }
}

/// No package of the workspace that `cwd` lies in is deeper than the one that
/// is worked on.
pub proof fn law_active_is_deepest(m: MetadataView, cwd: Seq<char>, p: PackageView)
    requires
        members(m).contains(p),
        covering_depth(p, cwd) is Some,
    ensures
        active_package(m, cwd) matches Some(a) && covering_depth(a, cwd) matches Some(d)
            && covering_depth(p, cwd)->Some_0 <= d,
{
    let all = members(m);
    lemma_deepest(all, cwd, all.len() as int);
    let k = choose|k: int| 0 <= k < all.len() && all[k] == p;
    assert(covering_depth(all[k], cwd) is Some);
}

fn depth_covering(p: &CargoPackage, cwd: &str) -> (r: Option<u128>)
    ensures
        match r {
            Some(d) => covering_depth(p@, cwd@) == Some(d as nat),
            None => covering_depth(p@, cwd@) is None,
        },
{
    match &p.manifest_path {
        Some(path) => match paths::parent_of(path) {
            Some(dir) => if paths::lies_under(cwd, &dir) {
                Some(paths::depth_of(&dir))
            } else {
                None
            },
            None => None,
        },
        None => None,
    }
}

/// The package that is worked on.
pub fn active_package_for_cwd<'a>(m: &'a CargoMetadataOutput, cwd: &str) -> (r: Option<
    &'a CargoPackage,
>)
    ensures
        match r {
            Some(p) => active_package(m@, cwd@) == Some(p@),
            None => active_package(m@, cwd@) is None,
        },
{
    let found = member_refs(m);
    let ghost all = members(m@);
    let mut best: Option<(u128, usize)> = None;
    let mut i: usize = 0;
    while i < found.len()
        invariant
            i <= found.len(),
            all == found@.map_values(|p: &CargoPackage| p@),
            match best {
                Some(b) => b.1 < i && deepest(all, cwd@, i as int) == Some(b.1 as int)
                    && covering_depth(all[b.1 as int], cwd@) == Some(b.0 as nat),
                None => deepest(all, cwd@, i as int) is None,
            },
        decreases found.len() - i,
    {
        assert(all[i as int] == found@[i as int]@);
        if let Some(d) = depth_covering(found[i], cwd) {
            let deeper = match best {
                Some(b) => d > b.0,
                None => true,
            };
            if deeper {
                best = Some((d, i));
            }
        }
        i += 1;
    }
    assert(all.len() == found@.len());
    match best {
        Some(b) => {
            assert(all[b.1 as int] == found@[b.1 as int]@);
            Some(found[b.1])
        },
        None => if found.len() > 0 {
            assert(all[0] == found@[0]@);
            Some(found[0])
        } else {
            None
        },
    }
}

/// The suggestion for a feature.
pub open spec fn feature_shown(name: Seq<char>) -> Option<SuggestionView> {
    if name.len() == 0 {
        None
    } else {
        Some(types::provided(name, None))
    }
}

fn feature_of(name: &String) -> (r: Option<Suggestion>)
    ensures
        listing::opt_shown(r) == feature_shown(name@),
{
    if name.as_str().is_empty() {
        None
    } else {
        Some(provider_value(name.clone(), None))
    }
}

/// The features of the package that is worked on, as suggestions.
pub fn feature_suggestions(m: &CargoMetadataOutput, cwd: &str) -> (r: Vec<Suggestion>)
    ensures
        types::shown(r@) == (match active_package(m@, cwd@) {
            Some(p) => listing::picked(p.features, |n: Seq<char>| feature_shown(n)),
            None => Seq::empty(),
        }),
{
    match active_package_for_cwd(m, cwd) {
        Some(p) => {
            assert(listing::views_of(p.features@) =~= text::views(p.features@));
            listing::pick(&p.features, feature_of, Ghost(|n: Seq<char>| feature_shown(n)))
        },
        None => {
            let none: Vec<Suggestion> = Vec::new();
            assert(types::shown(none@) =~= Seq::empty());
            none
        },
    }
}

// ---------------------------------------------------------------------------
// From the output
// ---------------------------------------------------------------------------
/// The packages of the workspace, from what the command printed. `parse`
/// reads it; where it fails there are none.
pub fn parse_cargo_workspace_members<F: FnOnce(&str) -> Option<CargoMetadataOutput>>(
    stdout: &str,
    parse: F,
) -> (r: Vec<Suggestion>)
    requires
        call_requires(parse, (stdout,)),
    ensures
        exists|m: Option<CargoMetadataOutput>| #[trigger]
            call_ensures(parse, (stdout,), m) && types::shown(r@) == (match m {
                Some(v) => listing::picked(members(v@), |p: PackageView| package_shown(p)),
                None => Seq::empty(),
            }),
{
    let m = parse(stdout);
    let ghost got = m;
    assert(call_ensures(parse, (stdout,), got));
    match m {
        Some(v) => member_suggestions(&v),
        None => {
            let none: Vec<Suggestion> = Vec::new();
            assert(types::shown(none@) =~= Seq::empty());
            none
        },
    }
}

/// The targets of a kind, from what the command printed.
pub fn parse_cargo_targets<F: FnOnce(&str) -> Option<CargoMetadataOutput>>(
    stdout: &str,
    kind: &str,
    parse: F,
) -> (r: Vec<Suggestion>)
    requires
        call_requires(parse, (stdout,)),
    ensures
        exists|m: Option<CargoMetadataOutput>| #[trigger]
            call_ensures(parse, (stdout,), m) && types::shown(r@) == (match m {
                Some(v) => listing::pairs_shown(workspace_targets(v@, kind@)),
                None => Seq::empty(),
            }),
{
    let m = parse(stdout);
    let ghost got = m;
    assert(call_ensures(parse, (stdout,), got));
    match m {
        Some(v) => target_suggestions(&v, kind),
        None => {
            let none: Vec<Suggestion> = Vec::new();
            assert(types::shown(none@) =~= Seq::empty());
            none
        },
    }
}

/// The features of the package that is worked on, from what the command
/// printed.
pub fn parse_cargo_features<F: FnOnce(&str) -> Option<CargoMetadataOutput>>(
    stdout: &str,
    cwd: &str,
    parse: F,
) -> (r: Vec<Suggestion>)
    requires
        call_requires(parse, (stdout,)),
    ensures
        exists|m: Option<CargoMetadataOutput>| #[trigger]
            call_ensures(parse, (stdout,), m) && types::shown(r@) == (match m {
                Some(v) => match active_package(v@, cwd@) {
                    Some(p) => listing::picked(p.features, |n: Seq<char>| feature_shown(n)),
                    None => Seq::empty(),
                },
                None => Seq::empty(),
            }),
{
    let m = parse(stdout);
    let ghost got = m;
    assert(call_ensures(parse, (stdout,), got));
    match m {
        Some(v) => feature_suggestions(&v, cwd),
        None => {
            let none: Vec<Suggestion> = Vec::new();
            assert(types::shown(none@) =~= Seq::empty());
            none
        },
    }
}

// ---------------------------------------------------------------------------
// The cache
// ---------------------------------------------------------------------------
/// Where the command was run, and which one.
#[derive(Debug)]
pub struct CargoMetadataKey {
    pub cwd: String,
    pub binary: String,
}

impl CacheKey for CargoMetadataKey {
    type Id = (Seq<char>, Seq<char>);

    open spec fn id(self) -> (Seq<char>, Seq<char>) {
        (self.cwd@, self.binary@)
    }

    fn is_same(&self, other: &Self) -> (r: bool) {
        text::same(&self.cwd, &other.cwd) && text::same(&self.binary, &other.binary)
    }
}

/// Recent outputs of the command.
pub type CargoMetadataCache = KeyedCache<CargoMetadataKey, Timed<String>>;

/// The recent output for a key, if there is one.
pub fn recent_stdout<'a>(cache: &'a CargoMetadataCache, key: &CargoMetadataKey, now: u64) -> (r:
    Option<&'a String>)
    ensures
        match r {
            Some(s) => keyed_cache::fresh_value(cache.items(), key.id(), now, CARGO_METADATA_TTL_MS)
                == Some(*s),
            None => keyed_cache::fresh_value(cache.items(), key.id(), now, CARGO_METADATA_TTL_MS)
                is None,
        },
{
    get_fresh(cache, key, now, CARGO_METADATA_TTL_MS)
}

/// Keeps an output.
pub fn keep_stdout(cache: &mut CargoMetadataCache, key: CargoMetadataKey, stdout: String, now: u64)
    ensures
        final(cache).items() == keyed_cache::with_slot(
            old(cache).items(),
            Slot { key, value: Timed { stored_at: now, value: stdout } },
        ),
{
    cache.store(key, Timed { stored_at: now, value: stdout });
}

/// An output that was kept is found for its key until its time has passed.
pub proof fn law_kept_output(
    s: Seq<Slot<CargoMetadataKey, Timed<String>>>,
    key: CargoMetadataKey,
    stdout: String,
    stored_at: u64,
    now: u64,
)
    ensures
        keyed_cache::fresh_value(
            keyed_cache::with_slot(s, Slot { key, value: Timed { stored_at, value: stdout } }),
            key.id(),
            now,
            CARGO_METADATA_TTL_MS,
        ) == (if keyed_cache::is_fresh(stored_at, now, CARGO_METADATA_TTL_MS) {
            Some(stdout)
        } else {
            None
        }),
{
    keyed_cache::law_stored_value(s, Slot { key, value: Timed { stored_at, value: stdout } });
}

// ---------------------------------------------------------------------------
// The providers
// ---------------------------------------------------------------------------
/// Cargo targets of the kind that the parameters name.
pub struct CargoTargets;

impl Provider for CargoTargets {
    open spec fn provider_name(&self) -> Seq<char> {
        "cargo_targets"@
    }

    fn name(&self) -> (r: &'static str) {
        "cargo_targets"
    }
}

/// Features of the active Cargo package.
pub struct CargoFeatures;

impl Provider for CargoFeatures {
    open spec fn provider_name(&self) -> Seq<char> {
        "cargo_features"@
    }

    fn name(&self) -> (r: &'static str) {
        "cargo_features"
    }
}

/// Packages of the Cargo workspace.
pub struct CargoWorkspaceMembers;

impl Provider for CargoWorkspaceMembers {
    open spec fn provider_name(&self) -> Seq<char> {
        "cargo_workspace_members"@
    }

    fn name(&self) -> (r: &'static str) {
        "cargo_workspace_members"
    }
}

} // verus!
