//! Which packages, targets, features, dependencies and scripts a project has.
use crate::providers::cargo_metadata;
use crate::providers::cargo_metadata::{MetadataView, PackageView, TargetView};
use crate::providers::keyed_cache;
use crate::providers::keyed_cache::{CacheKey, Slot};
use crate::providers::listing;
use crate::providers::local_project::mtime_cache::FileMeta;
use crate::providers::local_project::npm_scripts;
use crate::providers::local_project::npm_scripts::ScriptView;
use crate::providers::npm_local;
use crate::providers::npm_local::{NpmCacheEntry, NpmCacheKey, NpmDependencyMode};
use crate::providers::path_laws;
use crate::providers::paths;
use crate::text;
use crate::text_map;
use crate::types;
use crate::types::SuggestionView;
use vstd::prelude::*;
use vstd::string::*;

verus! {

// ---------------------------------------------------------------------------
// Members
// ---------------------------------------------------------------------------
/// Without named members every package is one, in order.
pub proof fn law_all_packages_are_members(m: MetadataView)
    requires
        m.workspace_members.len() == 0,
    ensures
        cargo_metadata::members(m) == m.packages,
{
    assert(cargo_metadata::members(m) =~= m.packages);
}

proof fn lemma_found(packages: Seq<PackageView>, id: Seq<char>, n: int, k: int)
    requires
        0 <= k < n <= packages.len(),
        packages[k].id == id,
        forall|j: int| k < j < n ==> (#[trigger] packages[j]).id != id,
    ensures
        cargo_metadata::last_with_id(packages, id, n) == Some(k),
    decreases n,
{
    if k < n - 1 {
        lemma_found(packages, id, n - 1, k);
    }
}

proof fn lemma_not_found(packages: Seq<PackageView>, id: Seq<char>, n: int)
    requires
        0 <= n <= packages.len(),
        forall|j: int| 0 <= j < n ==> (#[trigger] packages[j]).id != id,
    ensures
        cargo_metadata::last_with_id(packages, id, n) is None,
    decreases n,
{
    if n > 0 {
        lemma_not_found(packages, id, n - 1);
    }
}

/// A named member is the package with that identifier, in the order in which
/// the members are named; one that no package has is left out.
pub proof fn law_named_members(
    packages: Seq<PackageView>,
    a: Seq<Seq<char>>,
    id: Seq<char>,
    b: Seq<Seq<char>>,
    k: int,
)
    ensures
        a.len() > 0 && b.len() > 0 && 0 <= k < packages.len() && packages[k].id == id && (forall|
            j: int,
        |
            k < j < packages.len() ==> (#[trigger] packages[j]).id != id)
            ==> cargo_metadata::members(
            (MetadataView { packages, workspace_members: a + seq![id] + b }),
        ) == cargo_metadata::members((MetadataView { packages, workspace_members: a })) + seq![
            packages[k],
        ] + cargo_metadata::members((MetadataView { packages, workspace_members: b })),
        0 <= k < packages.len() && packages[k].id == id && (forall|j: int|
            k < j < packages.len() ==> (#[trigger] packages[j]).id != id)
            ==> cargo_metadata::members(
            (MetadataView { packages, workspace_members: seq![id] }),
        ) == seq![packages[k]],
        (forall|j: int| 0 <= j < packages.len() ==> (#[trigger] packages[j]).id != id)
            ==> cargo_metadata::members(
            (MetadataView { packages, workspace_members: seq![id] }),
        ).len() == 0,
{
    let f = |x: Seq<char>| cargo_metadata::package_at(packages, x);
    let g = |i: int| packages[i];
    listing::law_picked_apart(a, seq![id], id, f);
    listing::law_picked_apart(a + seq![id], b, id, f);
    if 0 <= k < packages.len() && packages[k].id == id && (forall|j: int|
        k < j < packages.len() ==> (#[trigger] packages[j]).id != id) {
        lemma_found(packages, id, packages.len() as int, k);
        let one = MetadataView { packages, workspace_members: seq![id] };
        assert(cargo_metadata::members(one) =~= seq![packages[k]]);
        if a.len() > 0 && b.len() > 0 {
            let all = MetadataView { packages, workspace_members: a + seq![id] + b };
            let ma = MetadataView { packages, workspace_members: a };
            let mb = MetadataView { packages, workspace_members: b };
            assert(cargo_metadata::members(all) =~= cargo_metadata::members(ma) + seq![packages[k]]
                + cargo_metadata::members(mb));
        }
    }
    if forall|j: int| 0 <= j < packages.len() ==> (#[trigger] packages[j]).id != id {
        lemma_not_found(packages, id, packages.len() as int);
    }
}

/// A package is suggested under its name, if it has one.
pub proof fn law_package_shown(p: PackageView)
    ensures
        p.name.len() > 0 ==> cargo_metadata::package_shown(p) == Some(
            types::provided(p.name, None),
        ),
        p.name.len() == 0 ==> cargo_metadata::package_shown(p) is None,
{
}

// ---------------------------------------------------------------------------
// Targets
// ---------------------------------------------------------------------------
/// Whether a package has a target of the name that is of the kind.
pub open spec fn has_target(p: PackageView, name: Seq<char>, kind: Seq<char>) -> bool {
    exists|i: int|
        0 <= i < p.targets.len() && (#[trigger] p.targets[i]).name == name
            && p.targets[i].kind.contains(kind)
}

proof fn lemma_pushed(pairs: Seq<(Seq<char>, Seq<char>)>, p: (Seq<char>, Seq<char>), n: Seq<char>)
    ensures
        listing::firsts(pairs.push(p)).contains(n) <==> listing::firsts(pairs).contains(n) || n
            == p.0,
{
    let f = listing::firsts(pairs);
    assert(listing::firsts(pairs.push(p)) =~= f.push(p.0));
    if f.contains(n) {
        let k = choose|k: int| 0 <= k < f.len() && f[k] == n;
        assert(f.push(p.0)[k] == n);
    }
    if n == p.0 {
        assert(f.push(p.0)[f.len() as int] == n);
    }
}

proof fn lemma_with_targets(
    out: Seq<(Seq<char>, Seq<char>)>,
    targets: Seq<TargetView>,
    package: Seq<char>,
    kind: Seq<char>,
    n: Seq<char>,
)
    ensures
        listing::firsts(cargo_metadata::with_targets(out, targets, package, kind)).contains(n)
            <==> listing::firsts(out).contains(n) || (n.len() > 0 && exists|i: int|
            0 <= i < targets.len() && (#[trigger] targets[i]).name == n && targets[i].kind.contains(
                kind,
            )),
    decreases targets.len(),
{
    if targets.len() > 0 {
        let d = targets.drop_last();
        let t = targets.last();
        lemma_with_targets(out, d, package, kind, n);
        lemma_with_targets(out, d, package, kind, t.name);
        let before = cargo_metadata::with_targets(out, d, package, kind);
        lemma_pushed(before, (t.name, package), n);
        assert(targets[targets.len() - 1] == t);
        if exists|i: int|
            0 <= i < d.len() && (#[trigger] d[i]).name == n && d[i].kind.contains(kind) {
            let i = choose|i: int|
                0 <= i < d.len() && (#[trigger] d[i]).name == n && d[i].kind.contains(kind);
            assert(targets[i] == d[i]);
        }
        if exists|i: int|
            0 <= i < targets.len() && (#[trigger] targets[i]).name == n && targets[i].kind.contains(
                kind,
            ) {
            let i = choose|i: int|
                0 <= i < targets.len() && (#[trigger] targets[i]).name == n
                    && targets[i].kind.contains(kind);
            if i < d.len() {
                assert(d[i] == targets[i]);
            }
        }
    }
}

/// The targets of a kind are exactly those that some package of the workspace
/// has, each by its name.
pub proof fn law_every_target(packages: Seq<PackageView>, kind: Seq<char>, n: Seq<char>)
    ensures
        listing::firsts(cargo_metadata::targets_of(packages, kind)).contains(n) <==> n.len() > 0
            && exists|k: int| 0 <= k < packages.len() && has_target(#[trigger] packages[k], n, kind),
    decreases packages.len(),
{
    if packages.len() > 0 {
        let d = packages.drop_last();
        let p = packages.last();
        law_every_target(d, kind, n);
        lemma_with_targets(
            cargo_metadata::targets_of(d, kind),
            p.targets,
            p.name,
            kind,
            n,
        );
        assert(packages[packages.len() - 1] == p);
        if exists|k: int| 0 <= k < d.len() && has_target(#[trigger] d[k], n, kind) {
            let k = choose|k: int| 0 <= k < d.len() && has_target(#[trigger] d[k], n, kind);
            assert(packages[k] == d[k]);
        }
        if exists|k: int| 0 <= k < packages.len() && has_target(#[trigger] packages[k], n, kind) {
            let k = choose|k: int|
                0 <= k < packages.len() && has_target(#[trigger] packages[k], n, kind);
            if k < d.len() {
                assert(d[k] == packages[k]);
            }
        }
    }
}

/// A target is told apart by the package that has it.
pub proof fn law_target_package(p: PackageView, t: TargetView, kind: Seq<char>)
    requires
        p.targets == seq![t],
        t.name.len() > 0,
        t.kind.contains(kind),
    ensures
        cargo_metadata::targets_of(seq![p], kind) == seq![(t.name, p.name)],
{
    assert(seq![p].drop_last() =~= Seq::empty());
    assert(cargo_metadata::targets_of(seq![p].drop_last(), kind) =~= Seq::empty());
    assert(p.targets.drop_last() =~= Seq::empty());
    let e = Seq::<(Seq<char>, Seq<char>)>::empty();
    assert(cargo_metadata::with_targets(e, p.targets.drop_last(), p.name, kind) == e);
    assert(listing::firsts(e) =~= Seq::empty());
    assert(p.targets.last() == t);
    assert(cargo_metadata::targets_of(seq![p], kind) =~= seq![(t.name, p.name)]);
}

/// Targets are those of the members of the workspace; without a kind there are
/// none. The kind is the one that is asked for, or that of programs.
pub proof fn law_wanted_targets(m: MetadataView, kind: Seq<char>, params: Seq<(Seq<char>, Seq<char>)>)
    ensures
        kind.len() > 0 ==> cargo_metadata::workspace_targets(m, kind) == cargo_metadata::targets_of(
            cargo_metadata::members(m),
            kind,
        ),
        kind.len() == 0 ==> cargo_metadata::workspace_targets(m, kind).len() == 0,
        text_map::value_of(params, "kind"@) matches Some(k) ==> cargo_metadata::wanted_kind(params)
            == k,
        text_map::value_of(params, "kind"@) is None ==> cargo_metadata::wanted_kind(params)
            == "bin"@,
{
}

// ---------------------------------------------------------------------------
// The active package
// ---------------------------------------------------------------------------
/// The package whose directory is worked in, or lies above it, covers the
/// place; a package without a manifest covers none.
pub proof fn law_covering(p: PackageView, dir: Seq<char>, below: Seq<char>)
    requires
        path_laws::ends_in_name(dir),
        path_laws::is_name(below),
    ensures
        p.manifest_path == Some(dir + seq!['/'] + "Cargo.toml"@) ==> cargo_metadata::covering_depth(
            p,
            dir,
        ) == Some(paths::depth(dir)),
        p.manifest_path == Some(dir + seq!['/'] + "Cargo.toml"@) ==> cargo_metadata::covering_depth(
            p,
            dir + seq!['/'] + below,
        ) == Some(paths::depth(dir)),
        p.manifest_path == Some(dir + seq!['/'] + below + seq!['/'] + "Cargo.toml"@)
            ==> cargo_metadata::covering_depth(p, dir) is None,
        p.manifest_path is None ==> cargo_metadata::covering_depth(p, dir) is None,
{
    reveal_strlit("Cargo.toml");
    let f = "Cargo.toml"@;
    assert(path_laws::is_name(f)) by {
        assert(f.len() == 10);
        if f.contains('/') {
            let k = choose|k: int| 0 <= k < f.len() && f[k] == '/';
        }
    }
    path_laws::law_parent(dir, f);
    path_laws::law_under(dir, below);
    let d = dir + seq!['/'] + below;
    assert(path_laws::ends_in_name(d)) by {
        let n = below.len() as int;
        assert(d[d.len() - 1] == below[n - 1]);
        assert(below.contains(below[n - 1]));
        if d[d.len() - 1] == '.' && d[d.len() - 2] == '/' {
            if n > 1 {
                assert(d[d.len() - 2] == below[n - 2]);
                assert(below.contains(below[n - 2]));
            } else {
                assert(below =~= seq!['.']);
            }
        }
    }
    path_laws::law_parent(d, f);
}

/// Where no package covers the place, the first one of the workspace is worked
/// on; where one alone does, that one is.
pub proof fn law_active_package(m: MetadataView, cwd: Seq<char>, k: int)
    ensures
        cargo_metadata::members(m).len() > 0 && (forall|i: int|
            0 <= i < cargo_metadata::members(m).len() ==> cargo_metadata::covering_depth(
                #[trigger] cargo_metadata::members(m)[i],
                cwd,
            ) is None) ==> cargo_metadata::active_package(m, cwd) == Some(
            cargo_metadata::members(m)[0],
        ),
        0 <= k < cargo_metadata::members(m).len() && cargo_metadata::covering_depth(
            cargo_metadata::members(m)[k],
            cwd,
        ) is Some && (forall|i: int|
            0 <= i < cargo_metadata::members(m).len() && i != k ==> cargo_metadata::covering_depth(
                #[trigger] cargo_metadata::members(m)[i],
                cwd,
            ) is None) ==> cargo_metadata::active_package(m, cwd) == Some(
            cargo_metadata::members(m)[k],
        ),
        cargo_metadata::members(m).len() == 0 ==> cargo_metadata::active_package(m, cwd) is None,
{
    let all = cargo_metadata::members(m);
    let n = all.len() as int;
    if forall|i: int|
        0 <= i < n ==> cargo_metadata::covering_depth(#[trigger] all[i], cwd) is None {
        lemma_none_covers(all, cwd, n);
    }
    if 0 <= k < n && cargo_metadata::covering_depth(all[k], cwd) is Some && (forall|i: int|
        0 <= i < n && i != k ==> cargo_metadata::covering_depth(#[trigger] all[i], cwd) is None) {
        lemma_one_covers(all, cwd, n, k);
    }
}

proof fn lemma_none_covers(all: Seq<PackageView>, cwd: Seq<char>, n: int)
    requires
        0 <= n <= all.len(),
        forall|i: int| 0 <= i < n ==> cargo_metadata::covering_depth(#[trigger] all[i], cwd) is None,
    ensures
        cargo_metadata::deepest(all, cwd, n) is None,
    decreases n,
{
    if n > 0 {
        lemma_none_covers(all, cwd, n - 1);
        assert(cargo_metadata::covering_depth(all[n - 1], cwd) is None);
    }
}

proof fn lemma_one_covers(all: Seq<PackageView>, cwd: Seq<char>, n: int, k: int)
    requires
        0 <= k < n <= all.len(),
        cargo_metadata::covering_depth(all[k], cwd) is Some,
        forall|i: int|
            0 <= i < n && i != k ==> cargo_metadata::covering_depth(#[trigger] all[i], cwd) is None,
    ensures
        cargo_metadata::deepest(all, cwd, n) == Some(k),
    decreases n,
{
    if k == n - 1 {
        lemma_none_covers(all, cwd, n - 1);
    } else {
        lemma_one_covers(all, cwd, n - 1, k);
        assert(cargo_metadata::covering_depth(all[n - 1], cwd) is None);
    }
}

/// A feature is suggested under its name, if it has one. What was kept counts
/// for less than five minutes.
pub proof fn law_feature(name: Seq<char>, stored_at: u64, now: u64)
    requires
        stored_at <= now,
    ensures
        name.len() > 0 ==> cargo_metadata::feature_shown(name) == Some(types::provided(name, None)),
        name.len() == 0 ==> cargo_metadata::feature_shown(name) is None,
        keyed_cache::is_fresh(stored_at, now, cargo_metadata::CARGO_METADATA_TTL_MS) <==> now
            - stored_at < 300000,
{
}

// ---------------------------------------------------------------------------
// Dependencies
// ---------------------------------------------------------------------------
proof fn lemma_member(
    members: Seq<(Seq<char>, Option<Seq<(Seq<char>, Option<Seq<char>>)>>)>,
    name: Seq<char>,
    i: int,
    k: int,
)
    requires
        0 <= i <= k <= members.len(),
        k < members.len() ==> members[k].0 == name,
        forall|j: int| i <= j < k ==> (#[trigger] members[j]).0 != name,
    ensures
        npm_local::member_position(members, name, i) == k,
    decreases k - i,
{
    if i < k {
        lemma_member(members, name, i + 1, k);
    }
}

/// The entries of a field are those of the first member of that name, if it is
/// an object, and else none.
pub proof fn law_member_entries(
    members: Seq<(Seq<char>, Option<Seq<(Seq<char>, Option<Seq<char>>)>>)>,
    name: Seq<char>,
    k: int,
)
    ensures
        0 <= k < members.len() && members[k].0 == name && (forall|j: int|
            0 <= j < k ==> (#[trigger] members[j]).0 != name) ==> npm_local::member_entries(
            members,
            name,
        ) == (match members[k].1 {
            Some(e) => e,
            None => Seq::empty(),
        }),
        (forall|j: int| 0 <= j < members.len() ==> (#[trigger] members[j]).0 != name)
            ==> npm_local::member_entries(members, name).len() == 0,
{
    if 0 <= k < members.len() && members[k].0 == name && (forall|j: int|
        0 <= j < k ==> (#[trigger] members[j]).0 != name) {
        lemma_member(members, name, 0, k);
    }
    if forall|j: int| 0 <= j < members.len() ==> (#[trigger] members[j]).0 != name {
        lemma_member(members, name, 0, members.len() as int);
    }
}

proof fn lemma_with_entries(
    out: Seq<(Seq<char>, Seq<char>)>,
    entries: Seq<(Seq<char>, Option<Seq<char>>)>,
    n: Seq<char>,
)
    ensures
        listing::firsts(npm_local::with_entries(out, entries)).contains(n) <==> listing::firsts(
            out,
        ).contains(n) || (n.len() > 0 && exists|i: int|
            0 <= i < entries.len() && (#[trigger] entries[i]).0 == n && entries[i].1 is Some),
    decreases entries.len(),
{
    if entries.len() > 0 {
        let d = entries.drop_last();
        let e = entries.last();
        lemma_with_entries(out, d, n);
        lemma_with_entries(out, d, e.0);
        let before = npm_local::with_entries(out, d);
        if let Some(v) = e.1 {
            lemma_pushed(before, (e.0, v), n);
        }
        assert(entries[entries.len() - 1] == e);
        if exists|i: int| 0 <= i < d.len() && (#[trigger] d[i]).0 == n && d[i].1 is Some {
            let i = choose|i: int| 0 <= i < d.len() && (#[trigger] d[i]).0 == n && d[i].1 is Some;
            assert(entries[i] == d[i]);
        }
        if exists|i: int|
            0 <= i < entries.len() && (#[trigger] entries[i]).0 == n && entries[i].1 is Some {
            let i = choose|i: int|
                0 <= i < entries.len() && (#[trigger] entries[i]).0 == n && entries[i].1 is Some;
            if i < d.len() {
                assert(d[i] == entries[i]);
            }
        }
    }
}

/// Whether a field lists a dependency with a version that is a text.
pub open spec fn lists(entries: Seq<(Seq<char>, Option<Seq<char>>)>, n: Seq<char>) -> bool {
    exists|i: int| 0 <= i < entries.len() && (#[trigger] entries[i]).0 == n && entries[i].1 is Some
}

/// Every dependency of the wanted fields is suggested, and no other: plain
/// ones are those of the one field, those for development of the other, and
/// all of them those of both.
pub proof fn law_every_dependency(
    members: Seq<(Seq<char>, Option<Seq<(Seq<char>, Option<Seq<char>>)>>)>,
    n: Seq<char>,
)
    requires
        n.len() > 0,
    ensures
        listing::firsts(
            npm_local::dependencies(Some(members), NpmDependencyMode::Dependencies),
        ).contains(n) <==> lists(npm_local::member_entries(members, "dependencies"@), n),
        listing::firsts(
            npm_local::dependencies(Some(members), NpmDependencyMode::DevDependencies),
        ).contains(n) <==> lists(npm_local::member_entries(members, "devDependencies"@), n),
        listing::firsts(
            npm_local::dependencies(Some(members), NpmDependencyMode::AllDependencies),
        ).contains(n) <==> lists(npm_local::member_entries(members, "dependencies"@), n) || lists(
            npm_local::member_entries(members, "devDependencies"@),
            n,
        ),
        npm_local::dependencies(None, NpmDependencyMode::AllDependencies).len() == 0,
{
    let e = Seq::<(Seq<char>, Seq<char>)>::empty();
    assert(listing::firsts(e) =~= Seq::empty());
    let a = "dependencies"@;
    let b = "devDependencies"@;
    assert(seq![a].drop_last() =~= Seq::empty());
    assert(seq![b].drop_last() =~= Seq::empty());
    assert(seq![a, b].drop_last() =~= seq![a]);
    assert(npm_local::with_fields(members, Seq::empty()) == e);
    lemma_with_entries(e, npm_local::member_entries(members, a), n);
    lemma_with_entries(e, npm_local::member_entries(members, b), n);
    lemma_with_entries(
        npm_local::with_entries(e, npm_local::member_entries(members, a)),
        npm_local::member_entries(members, b),
        n,
    );
    assert(npm_local::with_fields(members, seq![a]) == npm_local::with_entries(
        e,
        npm_local::member_entries(members, a),
    ));
    assert(npm_local::with_fields(members, seq![b]) == npm_local::with_entries(
        e,
        npm_local::member_entries(members, b),
    ));
    assert(npm_local::with_fields(members, seq![a, b]) == npm_local::with_entries(
        npm_local::with_fields(members, seq![a]),
        npm_local::member_entries(members, b),
    ));
}

/// A new dependency goes behind those that are there, with its version.
pub proof fn law_dependency_version(
    out: Seq<(Seq<char>, Seq<char>)>,
    n: Seq<char>,
    v: Seq<char>,
)
    requires
        n.len() > 0,
    ensures
        !listing::firsts(out).contains(n) ==> npm_local::with_entries(out, seq![(n, Some(v))])
            == out.push((n, v)),
        listing::firsts(out).contains(n) ==> npm_local::with_entries(out, seq![(n, Some(v))])
            == out,
{
    let one = seq![(n, Some(v))];
    assert(one.drop_last() =~= Seq::empty());
    assert(npm_local::with_entries(out, one.drop_last()) == out);
}

// ---------------------------------------------------------------------------
// Scripts
// ---------------------------------------------------------------------------
proof fn lemma_scripts(a: Seq<ScriptView>, b: Seq<ScriptView>)
    ensures
        npm_scripts::scripts_of(a + b) == npm_scripts::scripts_of(a) + npm_scripts::scripts_of(b),
    decreases b.len(),
{
    if b.len() == 0 {
        assert(a + b =~= a);
        assert(npm_scripts::scripts_of(a) + npm_scripts::scripts_of(b) =~= npm_scripts::scripts_of(
            a,
        ));
    } else {
        lemma_scripts(a, b.drop_last());
        assert((a + b).drop_last() =~= a + b.drop_last());
        assert((a + b).last() == b.last());
        assert(npm_scripts::scripts_of(a + b) =~= npm_scripts::scripts_of(a)
            + npm_scripts::scripts_of(b));
    }
}

/// Every member that is a text is a script, in order, under its name and with
/// its command, which is shortened where it is long. Other members are none.
pub proof fn law_scripts(a: Seq<ScriptView>, f: ScriptView, b: Seq<ScriptView>)
    ensures
        f.command matches Some(c) ==> npm_scripts::scripts_of(a + seq![f] + b)
            == npm_scripts::scripts_of(a) + seq![
            (ScriptView { name: f.name, command: Some(text::shortened(c)) }),
        ] + npm_scripts::scripts_of(b),
        f.command is None ==> npm_scripts::scripts_of(a + seq![f] + b) == npm_scripts::scripts_of(a)
            + npm_scripts::scripts_of(b),
{
    lemma_scripts(a + seq![f], b);
    lemma_scripts(a, seq![f]);
    assert(seq![f].drop_last() =~= Seq::empty());
    assert(npm_scripts::scripts_of(seq![f].drop_last()) =~= Seq::empty());
    if let Some(c) = f.command {
        assert(npm_scripts::scripts_of(seq![f]) =~= seq![
            (ScriptView { name: f.name, command: Some(text::shortened(c)) }),
        ]);
    } else {
        assert(npm_scripts::scripts_of(seq![f]) =~= Seq::empty());
        assert(npm_scripts::scripts_of(a) + Seq::<ScriptView>::empty() =~= npm_scripts::scripts_of(
            a,
        ));
    }
}

/// A manifest that cannot be read gives nothing and changes nothing that is
/// kept. One that is read gives its dependencies; without a time of change
/// they are not kept, and with one they are what the next lookup finds for a
/// file that looks the same.
pub proof fn law_read_dependencies(
    s: Seq<Slot<NpmCacheKey, NpmCacheEntry>>,
    id: (Seq<char>, NpmDependencyMode),
    meta: FileMeta,
    bytes: Option<Vec<u8>>,
    r: Option<Seq<SuggestionView>>,
    after: Seq<Slot<NpmCacheKey, NpmCacheEntry>>,
)
    ensures
        npm_local::read_result(s, id, meta, bytes, r, after) ==> ({
            &&& bytes is None ==> r is None && after == s
            &&& bytes is Some ==> r is Some
            &&& bytes is Some && meta.mtime is None ==> after == s
            &&& bytes is Some && meta.mtime is Some ==> npm_local::kept_suggestions(
                after,
                id,
                meta,
            ) == r
        }),
{
    if npm_local::read_result(s, id, meta, bytes, r, after) && bytes is Some && meta.mtime is Some {
        let t = meta.mtime->Some_0;
        let found = r->Some_0;
        let e = choose|e: Slot<NpmCacheKey, NpmCacheEntry>| #[trigger]
            npm_local::stored_as(s, e, id, t, meta.size, found, after);
        keyed_cache::law_stored_value(s, e);
    }
}

proof fn lemma_deepest_first(all: Seq<PackageView>, cwd: Seq<char>, n: int)
    requires
        0 <= n <= all.len(),
    ensures
        match cargo_metadata::deepest(all, cwd, n) {
            Some(b) => 0 <= b < n && cargo_metadata::covering_depth(all[b], cwd) is Some && (forall|
                i: int,
            |
                0 <= i < n && (#[trigger] cargo_metadata::covering_depth(all[i], cwd)) is Some
                    ==> cargo_metadata::covering_depth(all[i], cwd)->Some_0
                    <= cargo_metadata::covering_depth(all[b], cwd)->Some_0) && (forall|i: int|
                0 <= i < b && (#[trigger] cargo_metadata::covering_depth(all[i], cwd)) is Some
                    ==> cargo_metadata::covering_depth(all[i], cwd)->Some_0
                    < cargo_metadata::covering_depth(all[b], cwd)->Some_0),
            None => forall|i: int|
                0 <= i < n ==> (#[trigger] cargo_metadata::covering_depth(all[i], cwd)) is None,
        },
    decreases n,
{
    if n > 0 {
        lemma_deepest_first(all, cwd, n - 1);
    }
}

/// Of equally deep packages around a directory the first one is worked on.
pub proof fn law_first_of_deepest(m: MetadataView, cwd: Seq<char>, k: int)
    requires
        0 <= k < cargo_metadata::members(m).len(),
        cargo_metadata::covering_depth(cargo_metadata::members(m)[k], cwd) is Some,
        forall|i: int|
            0 <= i < cargo_metadata::members(m).len() && (
            #[trigger] cargo_metadata::covering_depth(cargo_metadata::members(m)[i], cwd)) is Some
                ==> cargo_metadata::covering_depth(cargo_metadata::members(m)[i], cwd)->Some_0
                <= cargo_metadata::covering_depth(cargo_metadata::members(m)[k], cwd)->Some_0,
        forall|i: int|
            0 <= i < k && (#[trigger] cargo_metadata::covering_depth(
                cargo_metadata::members(m)[i],
                cwd,
            )) is Some ==> cargo_metadata::covering_depth(
                cargo_metadata::members(m)[i],
                cwd,
            )->Some_0 < cargo_metadata::covering_depth(cargo_metadata::members(m)[k], cwd)->Some_0,
    ensures
        cargo_metadata::active_package(m, cwd) == Some(cargo_metadata::members(m)[k]),
{
    let all = cargo_metadata::members(m);
    lemma_deepest_first(all, cwd, all.len() as int);
    let b = cargo_metadata::deepest(all, cwd, all.len() as int)->Some_0;
    assert(cargo_metadata::covering_depth(all[k], cwd) is Some);
    assert(cargo_metadata::covering_depth(all[b], cwd) is Some);
}

} // verus!
