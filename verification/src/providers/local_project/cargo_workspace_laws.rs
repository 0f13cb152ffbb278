//! Which packages a Cargo workspace has, and which observations it rests on.
use crate::providers::listing;
use crate::providers::local_project::cargo_workspace;
use crate::providers::local_project::cargo_workspace::{
    CandidateScan, CargoTomlMin, MemberView, PackageView, PatternScan, ResolvedView, RootScan,
    StampRecord, StampState, WorkspaceScan,
};
use crate::providers::local_project::mtime_cache::FileTime;
use crate::providers::path_laws;
use crate::providers::paths;
use crate::sorting;
use crate::text;
use crate::text_laws;
use vstd::prelude::*;
use vstd::string::*;

verus! {

// ---------------------------------------------------------------------------
// Packages
// ---------------------------------------------------------------------------
/// A package is suggested under its name, if that is a name that Cargo takes,
/// whatever else its manifest says.
pub proof fn law_package(p: PackageView)
    ensures
        p.name matches Some(n) ==> cargo_workspace::is_package_name(n) ==> (
        cargo_workspace::member_of(p) matches Some(m) && m.name == n),
        p.name matches Some(n) ==> !cargo_workspace::is_package_name(n)
            ==> cargo_workspace::member_of(p) is None,
        p.name is None ==> cargo_workspace::member_of(p) is None,
        cargo_workspace::member_of(p) matches Some(m) ==> (p.version matches Some(v) ==> (
        p.description matches Some(d) ==> m.description == Some(
            text::shortened(v + seq![' ', '\u{2014}', ' '] + d),
        ))),
        cargo_workspace::member_of(p) matches Some(m) ==> (p.version matches Some(v)
            ==> p.description is None ==> m.description == Some(seq!['v'] + v)),
        cargo_workspace::member_of(p) matches Some(m) ==> p.version is None ==> (
        p.description matches Some(d) ==> m.description == Some(text::shortened(d))),
        cargo_workspace::member_of(p) matches Some(m) ==> p.version is None && p.description is None
            ==> m.description is None,
{
    reveal_strlit(" \u{2014} ");
    reveal_strlit("v");
    assert(" \u{2014} "@ =~= seq![' ', '\u{2014}', ' ']);
    assert("v"@ =~= seq!['v']);
}

/// Cargo takes every name of ASCII letters, digits, dashes and underscores
/// that does not begin with a dash, but for the underscore alone. The first
/// character may be a digit. The empty name, and one with any other ASCII
/// character, it does not take. This is said of the two Unicode properties as
/// they are among the ASCII characters.
pub proof fn law_package_names(n: Seq<char>)
    ensures
        (forall|c: char|
            c <= '\u{7f}' ==> #[trigger] cargo_workspace::xid_start(c) == ('a' <= c <= 'z' || 'A'
                <= c <= 'Z')) && (forall|c: char|
            c <= '\u{7f}' ==> #[trigger] cargo_workspace::xid_continue(c) == ('a' <= c <= 'z'
                || 'A' <= c <= 'Z' || '0' <= c <= '9' || c == '_')) && (forall|i: int|
            0 <= i < n.len() ==> #[trigger] n[i] <= '\u{7f}') ==> (
        cargo_workspace::is_package_name(n) <==> n.len() > 0 && n != seq!['_'] && n[0] != '-'
            && forall|i: int|
            0 <= i < n.len() ==> ('a' <= #[trigger] n[i] <= 'z' || 'A' <= n[i] <= 'Z' || '0' <= n[i]
                <= '9' || n[i] == '_' || n[i] == '-')),
{
    if cargo_workspace::is_package_name(n) && (forall|c: char|
        c <= '\u{7f}' ==> #[trigger] cargo_workspace::xid_start(c) == ('a' <= c <= 'z' || 'A' <= c
            <= 'Z')) && (forall|c: char|
        c <= '\u{7f}' ==> #[trigger] cargo_workspace::xid_continue(c) == ('a' <= c <= 'z' || 'A'
            <= c <= 'Z' || '0' <= c <= '9' || c == '_')) && (forall|i: int|
        0 <= i < n.len() ==> #[trigger] n[i] <= '\u{7f}') {
        assert forall|i: int| 0 <= i < n.len() implies ('a' <= #[trigger] n[i] <= 'z' || 'A' <= n[i]
            <= 'Z' || '0' <= n[i] <= '9' || n[i] == '_' || n[i] == '-') by {
            if i >= 1 {
                assert(n[i] == '-' || cargo_workspace::xid_continue(n[i]));
            }
        }
    }
}

// ---------------------------------------------------------------------------
// Members
// ---------------------------------------------------------------------------
/// The directories that a pattern led to, in order.
pub open spec fn led_to(p: PatternScan) -> Seq<CandidateScan> {
    match p {
        PatternScan::Glob { children, .. } => children@,
        PatternScan::Literal(c) => seq![c],
        PatternScan::Unsupported => Seq::empty(),
    }
}

/// The directories that all patterns led to, pattern by pattern.
pub open spec fn all_led_to(ps: Seq<PatternScan>) -> Seq<CandidateScan>
    decreases ps.len(),
{
    if ps.len() == 0 {
        Seq::empty()
    } else {
        led_to(ps[0]) + all_led_to(ps.skip(1))
    }
}

/// The package of a directory that holds a manifest and is not excluded.
pub open spec fn package_in(c: CandidateScan) -> Option<MemberView> {
    match c.member {
        Some(m) => match m.package {
            Some(p) => if c.is_file {
                cargo_workspace::member_of(p@)
            } else {
                None
            },
            None => None,
        },
        None => None,
    }
}

proof fn lemma_stamps_only(r: ResolvedView, cs: Seq<CandidateScan>)
    ensures
        cargo_workspace::with_candidate_stamps(r, cs).members == r.members,
    decreases cs.len(),
{
    if cs.len() > 0 {
        lemma_stamps_only(r, cs.drop_last());
    }
}

proof fn lemma_members(r: ResolvedView, cs: Seq<CandidateScan>)
    ensures
        cargo_workspace::with_members(r, cs).members == r.members + listing::picked(
            cs,
            |c: CandidateScan| package_in(c),
        ),
    decreases cs.len(),
{
    let f = |c: CandidateScan| package_in(c);
    if cs.len() == 0 {
        assert(r.members + listing::picked(cs, f) =~= r.members);
    } else {
        lemma_members(r, cs.drop_last());
        let before = listing::picked(cs.drop_last(), f);
        if let Some(m) = package_in(cs.last()) {
            assert((r.members + before).push(m) =~= r.members + before.push(m));
        }
    }
}

/// A pattern adds the packages of the directories that it led to, behind
/// those that were there, and whatever was there: an earlier pattern has no
/// say in what a later one adds.
pub proof fn law_pattern_adds(r: ResolvedView, p: PatternScan)
    ensures
        cargo_workspace::with_pattern(r, p).members == r.members + listing::picked(
            led_to(p),
            |c: CandidateScan| package_in(c),
        ),
{
    let f = |c: CandidateScan| package_in(c);
    match p {
        PatternScan::Glob { prefix_dir, state, children } => {
            let a = cargo_workspace::with_stamp(r, prefix_dir@, state);
            let b = cargo_workspace::with_candidate_stamps(a, children@);
            lemma_stamps_only(a, children@);
            lemma_members(b, children@);
        },
        PatternScan::Literal(c) => {
            listing::law_picked_apart(seq![c], seq![c], c, f);
            if let Some(m) = package_in(c) {
                assert(r.members.push(m) =~= r.members + seq![m]);
            } else {
                assert(r.members + Seq::<MemberView>::empty() =~= r.members);
            }
        },
        PatternScan::Unsupported => {
            assert(r.members + Seq::<MemberView>::empty() =~= r.members);
        },
    }
}

proof fn lemma_all_led_to(a: Seq<PatternScan>, b: Seq<PatternScan>)
    ensures
        all_led_to(a + b) == all_led_to(a) + all_led_to(b),
    decreases a.len(),
{
    if a.len() == 0 {
        assert(a + b =~= b);
        assert(all_led_to(a) + all_led_to(b) =~= all_led_to(b));
    } else {
        lemma_all_led_to(a.skip(1), b);
        assert((a + b).skip(1) =~= a.skip(1) + b);
        assert((a + b)[0] == a[0]);
        assert(all_led_to(a + b) =~= all_led_to(a) + all_led_to(b));
    }
}

proof fn lemma_patterns(r: ResolvedView, ps: Seq<PatternScan>)
    ensures
        cargo_workspace::with_patterns(r, ps).members == r.members + listing::picked(
            all_led_to(ps),
            |c: CandidateScan| package_in(c),
        ),
    decreases ps.len(),
{
    let f = |c: CandidateScan| package_in(c);
    if ps.len() == 0 {
        assert(r.members + listing::picked(all_led_to(ps), f) =~= r.members);
    } else {
        let d = ps.drop_last();
        lemma_patterns(r, d);
        law_pattern_adds(cargo_workspace::with_patterns(r, d), ps.last());
        assert(d + seq![ps.last()] =~= ps);
        lemma_all_led_to(d, seq![ps.last()]);
        assert(seq![ps.last()].skip(1) =~= Seq::empty());
        assert(all_led_to(Seq::<PatternScan>::empty()) =~= Seq::empty());
        assert(seq![ps.last()][0] == ps.last());
        assert(all_led_to(seq![ps.last()]) =~= led_to(ps.last()));
        if led_to(ps.last()).len() > 0 {
            listing::law_picked_apart(
                all_led_to(d),
                led_to(ps.last()),
                led_to(ps.last())[0],
                f,
            );
            assert(cargo_workspace::with_patterns(r, ps).members =~= r.members + listing::picked(
                all_led_to(ps),
                f,
            ));
        } else {
            assert(all_led_to(ps) =~= all_led_to(d));
            assert(cargo_workspace::with_patterns(r, ps).members =~= r.members + listing::picked(
                all_led_to(d),
                f,
            ));
        }
    }
}

/// The packages of a workspace are those of the directories that its patterns
/// led to, pattern by pattern, in order and as often as they occur.
pub proof fn law_workspace_members(scan: WorkspaceScan)
    ensures
        scan.root matches RootScan::Workspace(ps) ==> cargo_workspace::assembled(scan).members
            == listing::picked(all_led_to(ps@), |c: CandidateScan| package_in(c)),
        scan.root matches RootScan::Package(p) ==> (p matches Some(pkg) ==> (
        cargo_workspace::member_of(pkg@) matches Some(m) ==> cargo_workspace::assembled(scan).members
            == seq![m])),
        scan.root is Unreadable ==> cargo_workspace::assembled(scan).members
            == Seq::<MemberView>::empty(),
        scan.root == RootScan::Package(None) ==> cargo_workspace::assembled(scan).members
            == Seq::<MemberView>::empty(),
{
    let start = cargo_workspace::with_stamp(
        ResolvedView { members: Seq::empty(), stamps: Seq::empty() },
        scan.manifest@,
        scan.state,
    );
    let f = |c: CandidateScan| package_in(c);
    if let RootScan::Workspace(ps) = scan.root {
        lemma_patterns(start, ps@);
        assert(Seq::<MemberView>::empty() + listing::picked(all_led_to(ps@), f)
            =~= listing::picked(all_led_to(ps@), f));
    }
    if let RootScan::Package(Some(pkg)) = scan.root {
        if let Some(m) = cargo_workspace::member_of(pkg@) {
            assert(Seq::<MemberView>::empty().push(m) =~= seq![m]);
        }
    }
}

/// The workspace lists the package of every directory that some pattern led
/// to, that holds a manifest, is not excluded, and declares a package with a
/// name that Cargo takes.
pub proof fn law_every_member_is_listed(scan: WorkspaceScan, i: int, k: int)
    requires
        scan.root matches RootScan::Workspace(ps) && 0 <= i < ps.len() && 0 <= k < led_to(
            ps@[i],
        ).len(),
    ensures
        scan.root matches RootScan::Workspace(ps) ==> ({
            let c = led_to(ps@[i])[k];
            c.is_file ==> (c.member matches Some(m) ==> (m.package matches Some(p) ==> (
            p@.name matches Some(n) ==> cargo_workspace::is_package_name(n) ==> exists|j: int|
                0 <= j < cargo_workspace::assembled(scan).members.len() && (
                #[trigger] cargo_workspace::assembled(scan).members[j]).name == n)))
        }),
{
    law_workspace_members(scan);
    if let RootScan::Workspace(ps) = scan.root {
        let f = |c: CandidateScan| package_in(c);
        let all = all_led_to(ps@);
        let c = led_to(ps@[i])[k];
        lemma_led_to(ps@, i, k);
        listing::law_all_picked(all, f);
        let j = choose|j: int| 0 <= j < all.len() && all[j] == c;
        if let Some(m) = f(all[j]) {
            assert(listing::picked(all, f).contains(m));
            let q = choose|q: int|
                0 <= q < listing::picked(all, f).len() && listing::picked(all, f)[q] == m;
            assert(cargo_workspace::assembled(scan).members[q].name == m.name);
        }
    }
}

proof fn lemma_led_to(ps: Seq<PatternScan>, i: int, k: int)
    requires
        0 <= i < ps.len(),
        0 <= k < led_to(ps[i]).len(),
    ensures
        all_led_to(ps).contains(led_to(ps[i])[k]),
    decreases ps.len(),
{
    if i == 0 {
        assert(all_led_to(ps)[k] == led_to(ps[0])[k]);
    } else {
        let rest = ps.skip(1);
        assert(rest[i - 1] == ps[i]);
        lemma_led_to(rest, i - 1, k);
        let x = led_to(ps[i])[k];
        let j = choose|j: int| 0 <= j < all_led_to(rest).len() && all_led_to(rest)[j] == x;
        assert(all_led_to(ps)[led_to(ps[0]).len() + j] == x);
    }
}

// ---------------------------------------------------------------------------
// Looking at the disk
// ---------------------------------------------------------------------------
/// A pattern `prefix/*` stands for the directories below the prefix; one
/// without a wildcard for the directory of that path; any other for none.
pub proof fn law_patterns<
    P: Fn(&str) -> StampState,
    F: Fn(&str) -> bool,
    L: Fn(&str) -> Vec<String>,
    R: Fn(&str) -> Option<CargoTomlMin>,
>(
    probe: P,
    is_file: F,
    list: L,
    read: R,
    root: Seq<char>,
    exclude: Seq<Seq<char>>,
    pattern: Seq<char>,
    s: PatternScan,
)
    ensures
        cargo_workspace::pattern_seen(
            probe,
            is_file,
            list,
            read,
            root,
            exclude,
            pattern + seq!['/', '*'],
            s,
        ) ==> (s matches PatternScan::Glob { prefix_dir, children, .. } && prefix_dir@
            == paths::joined(root, pattern) && cargo_workspace::listing_seen(
            list,
            prefix_dir@,
            children@,
        )),
        cargo_workspace::pattern_seen(probe, is_file, list, read, root, exclude, pattern, s)
            && !pattern.contains('*') && !pattern.contains('?') && !pattern.contains('[') ==> (
        s matches PatternScan::Literal(c) && c.dir@ == paths::joined(root, pattern)),
        cargo_workspace::pattern_seen(probe, is_file, list, read, root, exclude, pattern, s) && (
        pattern.contains('?') || pattern.contains('[') || pattern.contains('*')) && !(pattern.len()
            >= 2 && pattern[pattern.len() - 2] == '/' && pattern[pattern.len() - 1] == '*')
            ==> s is Unsupported,
{
    reveal_strlit("/*");
    let e = seq!['/', '*'];
    assert("/*"@ =~= e);
    let g = pattern + e;
    assert(g.subrange(g.len() - 2, g.len() as int) =~= e);
    assert(e.is_suffix_of(g));
    assert(g.take(g.len() - 2) =~= pattern);
    if e.is_suffix_of(pattern) {
        let n = pattern.len();
        assert(pattern[n - 1] == e[1]);
        assert(pattern[n - 2] == e[0]);
        assert(pattern.contains('*'));
    }
}

/// Every listed directory is looked at, as often as it is listed, and no
/// other.
pub proof fn law_every_directory_is_looked_at<L: Fn(&str) -> Vec<String>>(
    list: L,
    prefix_dir: Seq<char>,
    children: Seq<CandidateScan>,
)
    requires
        cargo_workspace::listing_seen(list, prefix_dir, children),
    ensures
        exists|got: Vec<String>| #[trigger]
            cargo_workspace::was_listed(list, prefix_dir, got) && children.map_values(
                |c: CandidateScan| c.dir@,
            ).to_multiset() == text::views(got@).to_multiset() && forall|i: int, j: int|
                0 <= i < j < children.len() ==> !text::lex_lt(
                    (#[trigger] children[j]).dir@,
                    (#[trigger] children[i]).dir@,
                ),
{
    let got = choose|got: Vec<String>| #[trigger]
        cargo_workspace::was_listed(list, prefix_dir, got) && children.len() == got.len() && forall|
            i: int,
        |
            0 <= i < children.len() ==> (#[trigger] children[i]).dir@ == sorting::sorted(got@)[i]@;
    let sorted = sorting::sorted(got@);
    sorting::law_sorted(got@);
    assert(sorted.len() == got@.len());
    assert(children.map_values(|c: CandidateScan| c.dir@) =~= text::views(sorted));
    sorting::lemma_mapped(sorted, got@, |s: String| s@);
    assert(text::views(sorted) =~= sorted.map_values(|s: String| s@));
    assert(text::views(got@) =~= got@.map_values(|s: String| s@));
}

/// The manifest of a directory counts exactly if it is there and the workspace
/// does not exclude the directory, and it counts with the package that was
/// read from it.
pub proof fn law_candidate<
    P: Fn(&str) -> StampState,
    F: Fn(&str) -> bool,
    R: Fn(&str) -> Option<CargoTomlMin>,
>(probe: P, is_file: F, read: R, excluded: bool, c: CandidateScan)
    requires
        cargo_workspace::candidate_seen(probe, is_file, read, excluded, c),
    ensures
        c.member is Some <==> c.is_file && !excluded,
        paths::answered(is_file, paths::joined(c.dir@, "Cargo.toml"@), c.is_file),
        c.member matches Some(m) ==> exists|got: Option<CargoTomlMin>| #[trigger]
            cargo_workspace::was_read(read, paths::joined(c.dir@, "Cargo.toml"@), got)
                && m.package == (match got {
                Some(t) => t.package,
                None => None,
            }),
{
}

/// A directory is excluded exactly if it is the same path as one that the
/// workspace excludes, taken from the root.
pub proof fn law_excluded(
    root: Seq<char>,
    a: Seq<Seq<char>>,
    x: Seq<char>,
    b: Seq<Seq<char>>,
    dir: Seq<char>,
)
    ensures
        cargo_workspace::is_excluded(root, a + seq![x] + b, dir) <==> cargo_workspace::is_excluded(
            root,
            a,
            dir,
        ) || paths::is_same_path(paths::joined(root, x), dir) || cargo_workspace::is_excluded(
            root,
            b,
            dir,
        ),
        !cargo_workspace::is_excluded(root, Seq::empty(), dir),
{
    let all = a + seq![x] + b;
    let n = a.len() as int;
    assert(all[n] == x);
    if cargo_workspace::is_excluded(root, a, dir) {
        let i = choose|i: int|
            0 <= i < a.len() && paths::is_same_path(paths::joined(root, #[trigger] a[i]), dir);
        assert(all[i] == a[i]);
    }
    if cargo_workspace::is_excluded(root, b, dir) {
        let i = choose|i: int|
            0 <= i < b.len() && paths::is_same_path(paths::joined(root, #[trigger] b[i]), dir);
        assert(all[n + 1 + i] == b[i]);
    }
    if cargo_workspace::is_excluded(root, all, dir) {
        let i = choose|i: int|
            0 <= i < all.len() && paths::is_same_path(paths::joined(root, #[trigger] all[i]), dir);
        if i < n {
            assert(a[i] == all[i]);
        } else if i > n {
            assert(b[i - n - 1] == all[i]);
        }
    }
}

// ---------------------------------------------------------------------------
// Stamps
// ---------------------------------------------------------------------------
/// A path counts as unchanged exactly if it is absent both times, or a file of
/// the same known time and size, or a directory of the same known time.
pub proof fn law_unchanged(a: FileTime, b: FileTime, s: u64, t: u64)
    ensures
        cargo_workspace::unchanged(StampState::AbsentOrUnreadable, StampState::AbsentOrUnreadable),
        cargo_workspace::unchanged(
            StampState::File { mtime: Some(a), size: s },
            StampState::File { mtime: Some(b), size: t },
        ) <==> a == b && s == t,
        cargo_workspace::unchanged(
            StampState::Dir { mtime: Some(a) },
            StampState::Dir { mtime: Some(b) },
        ) <==> a == b,
        !cargo_workspace::unchanged(
            StampState::AbsentOrUnreadable,
            StampState::File { mtime: Some(a), size: s },
        ),
        !cargo_workspace::unchanged(
            StampState::File { mtime: Some(a), size: s },
            StampState::AbsentOrUnreadable,
        ),
        !cargo_workspace::unchanged(
            StampState::AbsentOrUnreadable,
            StampState::Dir { mtime: Some(a) },
        ),
        !cargo_workspace::unchanged(
            StampState::Dir { mtime: Some(a) },
            StampState::AbsentOrUnreadable,
        ),
        !cargo_workspace::unchanged(
            StampState::File { mtime: Some(a), size: s },
            StampState::Dir { mtime: Some(b) },
        ),
        !cargo_workspace::unchanged(
            StampState::Dir { mtime: Some(b) },
            StampState::File { mtime: Some(a), size: s },
        ),
{
}

/// Whether no path is noted twice.
pub open spec fn each_once(s: Seq<(Seq<char>, StampState)>) -> bool {
    forall|i: int, j: int| 0 <= i < j < s.len() ==> (#[trigger] s[i]).0 != (#[trigger] s[j]).0
}

proof fn lemma_position(s: Seq<(Seq<char>, StampState)>, path: Seq<char>, i: int)
    requires
        0 <= i <= s.len(),
    ensures
        i <= cargo_workspace::stamp_position(s, path, i) <= s.len(),
        cargo_workspace::stamp_position(s, path, i) < s.len() ==> s[cargo_workspace::stamp_position(
            s,
            path,
            i,
        )].0 == path,
        forall|j: int|
            i <= j < cargo_workspace::stamp_position(s, path, i) ==> (#[trigger] s[j]).0 != path,
    decreases s.len() - i,
{
    if i < s.len() && s[i].0 != path {
        lemma_position(s, path, i + 1);
    }
}

/// Noting a state puts it down for its path, in place of an earlier one, and
/// leaves what is noted of every other path.
pub proof fn law_recorded(s: Seq<(Seq<char>, StampState)>, path: Seq<char>, state: StampState)
    requires
        each_once(s),
    ensures
        each_once(cargo_workspace::recorded(s, path, state)),
        cargo_workspace::recorded(s, path, state).contains((path, state)),
        forall|q: Seq<char>, t: StampState|
            q != path ==> (#[trigger] cargo_workspace::recorded(s, path, state).contains((q, t))
                <==> s.contains((q, t))),
        forall|t: StampState| #[trigger]
            cargo_workspace::recorded(s, path, state).contains((path, t)) ==> t == state,
{
    let n = cargo_workspace::recorded(s, path, state);
    let k = cargo_workspace::stamp_position(s, path, 0);
    lemma_position(s, path, 0);
    assert(n[k] == (path, state));
    assert forall|q: Seq<char>, t: StampState| q != path implies (#[trigger] n.contains((q, t))
        <==> s.contains((q, t))) by {
        if n.contains((q, t)) {
            let i = choose|i: int| 0 <= i < n.len() && n[i] == (q, t);
            assert(s[i] == (q, t));
        }
        if s.contains((q, t)) {
            let i = choose|i: int| 0 <= i < s.len() && s[i] == (q, t);
            assert(n[i] == (q, t));
        }
    }
    assert forall|t: StampState| #[trigger] n.contains((path, t)) implies t == state by {
        let i = choose|i: int| 0 <= i < n.len() && n[i] == (path, t);
        if i != k {
            assert(s[i].0 == path);
            if k < s.len() {
                if i < k {
                    assert(s[i].0 != s[k].0);
                } else {
                    assert(s[k].0 != s[i].0);
                }
            }
        }
    }
    assert forall|i: int, j: int| 0 <= i < j < n.len() implies (#[trigger] n[i]).0 != (
    #[trigger] n[j]).0 by {
        if i == k {
            if k < s.len() {
                assert(s[i].0 != s[j].0);
            }
        } else if j == k {
            if k < s.len() {
                assert(s[i].0 != s[j].0);
            } else {
                assert(s[i].0 != path);
            }
        } else {
            assert(s[i].0 != s[j].0);
        }
    }
}

/// Whether a pattern saw a path in a state.
pub open spec fn pattern_saw(p: PatternScan, path: Seq<char>, state: StampState) -> bool {
    ||| p matches PatternScan::Glob { prefix_dir, state: s, .. } && path == prefix_dir@ && state
        == s
    ||| exists|k: int|
        0 <= k < led_to(p).len() && path == paths::joined(
            (#[trigger] led_to(p)[k]).dir@,
            "Cargo.toml"@,
        ) && (state == led_to(p)[k].state || (led_to(p)[k].member matches Some(m) && state
            == m.state))
}

/// Whether a scan saw a path in a state.
pub open spec fn saw(scan: WorkspaceScan, path: Seq<char>, state: StampState) -> bool {
    ||| path == scan.manifest@ && state == scan.state
    ||| scan.root matches RootScan::Workspace(ps) && exists|i: int|
        0 <= i < ps.len() && pattern_saw(#[trigger] ps@[i], path, state)
}

spec fn grounded(
    r: ResolvedView,
    old_r: ResolvedView,
    p: PatternScan,
) -> bool {
    forall|j: int|
        0 <= j < r.stamps.len() ==> old_r.stamps.contains(#[trigger] r.stamps[j]) || pattern_saw(
            p,
            r.stamps[j].0,
            r.stamps[j].1,
        )
}

proof fn lemma_grounded_stamp(
    r: ResolvedView,
    old_r: ResolvedView,
    p: PatternScan,
    path: Seq<char>,
    state: StampState,
)
    requires
        grounded(r, old_r, p),
        each_once(r.stamps),
        pattern_saw(p, path, state),
    ensures
        grounded(cargo_workspace::with_stamp(r, path, state), old_r, p),
        each_once(cargo_workspace::with_stamp(r, path, state).stamps),
{
    law_recorded(r.stamps, path, state);
    let n = cargo_workspace::with_stamp(r, path, state);
    assert forall|j: int| 0 <= j < n.stamps.len() implies old_r.stamps.contains(
        #[trigger] n.stamps[j],
    ) || pattern_saw(p, n.stamps[j].0, n.stamps[j].1) by {
        let (q, t) = n.stamps[j];
        assert(n.stamps.contains((q, t)));
        if q != path {
            assert(r.stamps.contains((q, t)));
            let i = choose|i: int| 0 <= i < r.stamps.len() && r.stamps[i] == (q, t);
            assert(old_r.stamps.contains(r.stamps[i]) || pattern_saw(p, q, t));
        } else {
            assert(n.stamps.contains((path, t)));
        }
    }
}

proof fn lemma_grounded_candidates(
    r: ResolvedView,
    old_r: ResolvedView,
    p: PatternScan,
    n: int,
)
    requires
        grounded(r, old_r, p),
        each_once(r.stamps),
        0 <= n <= led_to(p).len(),
    ensures
        grounded(
            cargo_workspace::with_candidate_stamps(r, led_to(p).take(n)),
            old_r,
            p,
        ),
        each_once(cargo_workspace::with_candidate_stamps(r, led_to(p).take(n)).stamps),
    decreases n,
{
    if n > 0 {
        lemma_grounded_candidates(r, old_r, p, n - 1);
        let cs = led_to(p).take(n);
        assert(cs.drop_last() =~= led_to(p).take(n - 1));
        assert(cs.last() == led_to(p)[n - 1]);
        let c = led_to(p)[n - 1];
        assert(pattern_saw(p, cargo_workspace::manifest_of(c.dir@), c.state));
        lemma_grounded_stamp(
            cargo_workspace::with_candidate_stamps(r, cs.drop_last()),
            old_r,
            p,
            cargo_workspace::manifest_of(c.dir@),
            c.state,
        );
    }
}

proof fn lemma_grounded_member(r: ResolvedView, old_r: ResolvedView, p: PatternScan, k: int)
    requires
        grounded(r, old_r, p),
        each_once(r.stamps),
        0 <= k < led_to(p).len(),
    ensures
        grounded(cargo_workspace::with_member(r, led_to(p)[k]), old_r, p),
        each_once(cargo_workspace::with_member(r, led_to(p)[k]).stamps),
{
    let c = led_to(p)[k];
    if c.is_file {
        if let Some(m) = c.member {
            assert(pattern_saw(p, cargo_workspace::manifest_of(c.dir@), m.state));
            lemma_grounded_stamp(r, old_r, p, cargo_workspace::manifest_of(c.dir@), m.state);
            let s = cargo_workspace::with_stamp(r, cargo_workspace::manifest_of(c.dir@), m.state);
            assert(cargo_workspace::with_member(r, c).stamps == s.stamps);
        }
    }
}

proof fn lemma_grounded_members(r: ResolvedView, old_r: ResolvedView, p: PatternScan, n: int)
    requires
        grounded(r, old_r, p),
        each_once(r.stamps),
        0 <= n <= led_to(p).len(),
    ensures
        grounded(cargo_workspace::with_members(r, led_to(p).take(n)), old_r, p),
        each_once(cargo_workspace::with_members(r, led_to(p).take(n)).stamps),
    decreases n,
{
    if n > 0 {
        lemma_grounded_members(r, old_r, p, n - 1);
        let cs = led_to(p).take(n);
        assert(cs.drop_last() =~= led_to(p).take(n - 1));
        assert(cs.last() == led_to(p)[n - 1]);
        lemma_grounded_member(
            cargo_workspace::with_members(r, cs.drop_last()),
            old_r,
            p,
            n - 1,
        );
    }
}

proof fn lemma_grounded_pattern(r: ResolvedView, p: PatternScan)
    requires
        each_once(r.stamps),
    ensures
        grounded(cargo_workspace::with_pattern(r, p), r, p),
        each_once(cargo_workspace::with_pattern(r, p).stamps),
{
    assert(grounded(r, r, p)) by {
        assert forall|j: int| 0 <= j < r.stamps.len() implies r.stamps.contains(
            #[trigger] r.stamps[j],
        ) by {}
    }
    let n = led_to(p).len() as int;
    assert(led_to(p).take(n) =~= led_to(p));
    match p {
        PatternScan::Glob { prefix_dir, state, children } => {
            assert(pattern_saw(p, prefix_dir@, state));
            lemma_grounded_stamp(r, r, p, prefix_dir@, state);
            let a = cargo_workspace::with_stamp(r, prefix_dir@, state);
            lemma_grounded_candidates(a, r, p, n);
            lemma_grounded_members(
                cargo_workspace::with_candidate_stamps(a, children@),
                r,
                p,
                n,
            );
        },
        PatternScan::Literal(c) => {
            assert(led_to(p)[0] == c);
            assert(pattern_saw(p, cargo_workspace::manifest_of(c.dir@), c.state));
            lemma_grounded_stamp(r, r, p, cargo_workspace::manifest_of(c.dir@), c.state);
            lemma_grounded_member(
                cargo_workspace::with_stamp(r, cargo_workspace::manifest_of(c.dir@), c.state),
                r,
                p,
                0,
            );
        },
        PatternScan::Unsupported => {},
    }
}

proof fn lemma_grounded_patterns(scan: WorkspaceScan, r: ResolvedView, ps: Seq<PatternScan>, n: int)
    requires
        scan.root matches RootScan::Workspace(v) && v@ == ps,
        each_once(r.stamps),
        forall|j: int|
            0 <= j < r.stamps.len() ==> saw(scan, (#[trigger] r.stamps[j]).0, r.stamps[j].1),
        0 <= n <= ps.len(),
    ensures
        ({
            let s = cargo_workspace::with_patterns(r, ps.take(n)).stamps;
            each_once(s) && forall|j: int|
                0 <= j < s.len() ==> saw(scan, (#[trigger] s[j]).0, s[j].1)
        }),
    decreases n,
{
    if n == 0 {
        assert(ps.take(0) =~= Seq::empty());
    } else {
        lemma_grounded_patterns(scan, r, ps, n - 1);
        assert(ps.take(n).drop_last() =~= ps.take(n - 1));
        assert(ps.take(n).last() == ps[n - 1]);
        let mid = cargo_workspace::with_patterns(r, ps.take(n - 1));
        lemma_grounded_pattern(mid, ps[n - 1]);
        let s = cargo_workspace::with_pattern(mid, ps[n - 1]).stamps;
        assert forall|j: int| 0 <= j < s.len() implies saw(scan, (#[trigger] s[j]).0, s[j].1) by {
            if mid.stamps.contains(s[j]) {
                let i = choose|i: int| 0 <= i < mid.stamps.len() && mid.stamps[i] == s[j];
                assert(saw(scan, mid.stamps[i].0, mid.stamps[i].1));
            } else {
                assert(pattern_saw(ps[n - 1], s[j].0, s[j].1));
            }
        }
    }
}

/// Every path is noted once, and in a state in which it was seen.
pub proof fn law_stamps_are_seen(scan: WorkspaceScan)
    ensures
        each_once(cargo_workspace::assembled(scan).stamps),
        forall|j: int|
            0 <= j < cargo_workspace::assembled(scan).stamps.len() ==> saw(
                scan,
                (#[trigger] cargo_workspace::assembled(scan).stamps[j]).0,
                cargo_workspace::assembled(scan).stamps[j].1,
            ),
{
    let empty = ResolvedView { members: Seq::empty(), stamps: Seq::empty() };
    law_recorded(empty.stamps, scan.manifest@, scan.state);
    let start = cargo_workspace::with_stamp(empty, scan.manifest@, scan.state);
    assert forall|j: int| 0 <= j < start.stamps.len() implies saw(
        scan,
        (#[trigger] start.stamps[j]).0,
        start.stamps[j].1,
    ) by {
        let (q, t) = start.stamps[j];
        assert(start.stamps.contains((q, t)));
    }
    if let RootScan::Workspace(ps) = scan.root {
        lemma_grounded_patterns(scan, start, ps@, ps@.len() as int);
        assert(ps@.take(ps@.len() as int) =~= ps@);
    } else {
        assert(cargo_workspace::assembled(scan).stamps == start.stamps);
    }
}

/// Blanks, then `[workspace` and a bracket, a dot or a blank open a workspace,
/// whatever follows.
pub proof fn law_opens_workspace(a: Seq<char>, c: char, rest: Seq<char>)
    requires
        forall|i: int| 0 <= i < a.len() ==> text::is_white(#[trigger] a[i]),
    ensures
        c == ']' || c == '.' || text::is_white(c) ==> cargo_workspace::opens_workspace(
            a + "[workspace"@ + seq![c] + rest,
        ),
        c != ']' && c != '.' && !text::is_white(c) ==> !cargo_workspace::opens_workspace(
            a + "[workspace"@ + seq![c] + rest,
        ),
        !cargo_workspace::opens_workspace(a + "[workspace"@),
{
    reveal_strlit("[workspace");
    let w = "[workspace"@;
    let s = a + w + seq![c] + rest;
    assert(w.len() == 10);
    assert(s[a.len() as int] == w[0]);
    text_laws::lemma_white_end(s, 0, a.len() as int);
    assert(s.skip(a.len() as int) =~= w + seq![c] + rest);
    assert((w + seq![c] + rest).subrange(0, 10) =~= w);
    assert((w + seq![c] + rest)[10] == c);
    let t = a + w;
    assert(t[a.len() as int] == w[0]);
    text_laws::lemma_white_end(t, 0, a.len() as int);
    assert(t.skip(a.len() as int) =~= w);
}

/// A line that starts otherwise opens no workspace.
pub proof fn law_opens_no_workspace(a: Seq<char>, t: Seq<char>)
    requires
        forall|i: int| 0 <= i < a.len() ==> text::is_white(#[trigger] a[i]),
        t.len() > 0,
        !text::is_white(t[0]),
        !"[workspace"@.is_prefix_of(t),
    ensures
        !cargo_workspace::opens_workspace(a + t),
{
    let s = a + t;
    assert(s[a.len() as int] == t[0]);
    text_laws::lemma_white_end(s, 0, a.len() as int);
    assert(s.skip(a.len() as int) =~= t);
}

/// The manifest of a directory is its `Cargo.toml`, and the directory of that
/// manifest is the directory again.
pub proof fn law_manifest(start: Seq<char>, k: int, d: Seq<char>)
    requires
        paths::ancestor(start, k) == Some(d),
        path_laws::ends_in_name(d),
    ensures
        cargo_workspace::manifest_at(start, k) == d + "/Cargo.toml"@,
        cargo_workspace::root_dir(d + "/Cargo.toml"@) == d,
        cargo_workspace::root_dir("Cargo.toml"@) == Seq::<char>::empty(),
        cargo_workspace::root_dir("/Cargo.toml"@) == "/"@,
{
    reveal_strlit("Cargo.toml");
    reveal_strlit("/Cargo.toml");
    reveal_strlit("/");
    let n = "Cargo.toml"@;
    assert(n.len() == 10);
    assert(path_laws::is_name(n)) by {
        assert(!n.contains('/'));
        assert(n != seq!['.']);
    }
    assert("/Cargo.toml"@ =~= seq!['/'] + n);
    assert(d + "/Cargo.toml"@ =~= d + seq!['/'] + n);
    path_laws::law_joined(d, n, n);
    path_laws::law_parent(d, n);
    assert("/"@ =~= seq!['/']);
}

/// A workspace root is a manifest with a workspace, and no nearer manifest has
/// one. A nearest manifest has none nearer than it. Where there is no root, no
/// manifest in the start and the directories above it, thirty-two in all, has
/// a workspace.
pub proof fn law_root<F: Fn(&str) -> bool, W: Fn(&str) -> bool>(
    is_file: F,
    has_workspace: W,
    file: spec_fn(Seq<char>) -> bool,
    workspace: spec_fn(Seq<char>) -> bool,
    start: Seq<char>,
    k: int,
    i: int,
)
    requires
        path_laws::answers_by(is_file, file),
        path_laws::answers_by(has_workspace, workspace),
        0 <= i,
    ensures
        cargo_workspace::is_workspace_root(is_file, has_workspace, start, k) ==> file(
            cargo_workspace::manifest_at(start, k),
        ) && workspace(cargo_workspace::manifest_at(start, k)) && (i < k ==> !(file(
            cargo_workspace::manifest_at(start, i),
        ) && workspace(cargo_workspace::manifest_at(start, i)))),
        cargo_workspace::is_nearest(is_file, start, k) ==> file(
            cargo_workspace::manifest_at(start, k),
        ) && (i < k ==> !file(cargo_workspace::manifest_at(start, i))),
        cargo_workspace::no_root(is_file, has_workspace, start) && i < 32 && paths::ancestor(
            start,
            i,
        ) is Some ==> !(file(cargo_workspace::manifest_at(start, i)) && workspace(
            cargo_workspace::manifest_at(start, i),
        )),
{
    let m = cargo_workspace::manifest_at(start, k);
    let n = cargo_workspace::manifest_at(start, i);
    if cargo_workspace::is_workspace_root(is_file, has_workspace, start, k) {
        path_laws::law_answers(is_file, file, m, true);
        path_laws::law_answers(has_workspace, workspace, m, true);
        if i < k {
            assert(cargo_workspace::no_root_at(is_file, has_workspace, start, i));
            if paths::answered(is_file, n, false) {
                path_laws::law_answers(is_file, file, n, false);
            } else {
                path_laws::law_answers(has_workspace, workspace, n, false);
            }
        }
    }
    if cargo_workspace::is_nearest(is_file, start, k) {
        path_laws::law_answers(is_file, file, m, true);
        if i < k {
            assert(paths::answered(is_file, cargo_workspace::manifest_at(start, i), false));
            path_laws::law_answers(is_file, file, n, false);
        }
    }
    if cargo_workspace::no_root(is_file, has_workspace, start) && i < 32 && paths::ancestor(
        start,
        i,
    ) is Some {
        assert(cargo_workspace::no_root_at(is_file, has_workspace, start, i));
        if paths::answered(is_file, n, false) {
            path_laws::law_answers(is_file, file, n, false);
        } else {
            path_laws::law_answers(has_workspace, workspace, n, false);
        }
    }
}

/// What a workspace is read from: where the manifest cannot be read, nothing
/// else is looked at; where it has no workspace, its own package counts; where
/// it has one, every member pattern is looked at, in order, from the directory
/// of the manifest and with the exclusions of that workspace.
pub proof fn law_scanned<
    P: Fn(&str) -> StampState,
    F: Fn(&str) -> bool,
    L: Fn(&str) -> Vec<String>,
    R: Fn(&str) -> Option<CargoTomlMin>,
>(
    probe: P,
    is_file: F,
    list: L,
    read: R,
    manifest: Seq<char>,
    got: Option<CargoTomlMin>,
    scan: WorkspaceScan,
)
    requires
        forall|q: &str, g: Option<CargoTomlMin>|
            q@ == manifest && #[trigger] call_ensures(read, (q,), g) ==> g == got,
        cargo_workspace::workspace_seen(probe, is_file, list, read, manifest, scan),
    ensures
        scan.manifest@ == manifest,
        cargo_workspace::probed(probe, manifest, scan.state),
        got is None ==> scan.root is Unreadable,
        got matches Some(t) ==> (t.workspace is None ==> scan.root == RootScan::Package(t.package)),
        got matches Some(t) ==> (t.workspace matches Some(ws) ==> (scan.root matches
            RootScan::Workspace(ps) && ps.len() == ws.members.len() && forall|i: int|
            0 <= i < ws.members.len() ==> cargo_workspace::pattern_seen(
                probe,
                is_file,
                list,
                read,
                cargo_workspace::root_dir(manifest),
                text::views(ws.exclude@),
                ws.members@[i]@,
                #[trigger] ps@[i],
            ))),
{
}

/// Kept members hold as long as every path that they rest on looks as it did;
/// one that looks otherwise is enough for them to be read anew.
pub proof fn law_kept_members<P: Fn(&str) -> StampState>(
    probe: P,
    now: spec_fn(Seq<char>) -> StampState,
    stamps: Seq<StampRecord>,
)
    requires
        forall|q: &str, s: StampState| #[trigger] call_ensures(probe, (q,), s) ==> s == now(q@),
    ensures
        cargo_workspace::all_hold_still(probe, stamps) ==> forall|i: int|
            0 <= i < stamps.len() ==> cargo_workspace::unchanged(
                (#[trigger] stamps[i]).state,
                now(stamps[i].path@),
            ),
        cargo_workspace::some_changed(probe, stamps) ==> exists|i: int|
            0 <= i < stamps.len() && !cargo_workspace::unchanged(
                (#[trigger] stamps[i]).state,
                now(stamps[i].path@),
            ),
{
    if cargo_workspace::all_hold_still(probe, stamps) {
        assert forall|i: int| 0 <= i < stamps.len() implies cargo_workspace::unchanged(
            (#[trigger] stamps[i]).state,
            now(stamps[i].path@),
        ) by {
            assert(cargo_workspace::holds_still(probe, stamps[i]));
        }
    }
    if cargo_workspace::some_changed(probe, stamps) {
        let i = choose|i: int|
            0 <= i < stamps.len() && #[trigger] cargo_workspace::has_changed(probe, stamps[i]);
        assert(!cargo_workspace::unchanged(stamps[i].state, now(stamps[i].path@)));
    }
}

} // verus!
