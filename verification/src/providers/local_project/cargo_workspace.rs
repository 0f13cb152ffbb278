//! Packages of the nearest Cargo workspace.
use crate::providers::context::Provider;
use crate::providers::local_project::fifo;
use crate::providers::local_project::fifo::{FifoMap, Kept};
use crate::providers::local_project::mtime_cache::FileTime;
use crate::providers::paths;
use crate::providers::paths::MAX_ANCESTOR_WALK;
use crate::sorting;
use crate::sorting::Keyed;
use crate::text;
use crate::types;
use crate::types::{provider_value, Suggestion};
use vstd::prelude::*;
use vstd::string::*;

verus! {

// ---------------------------------------------------------------------------
// Package names
// ---------------------------------------------------------------------------
/// The Unicode property `XID_Start`.
pub uninterp spec fn xid_start(c: char) -> bool;

/// The Unicode property `XID_Continue`.
pub uninterp spec fn xid_continue(c: char) -> bool;

/// `unicode_ident::is_xid_start`: the Unicode property `XID_Start`. Among the
/// ASCII characters it holds of the letters.
#[verifier::external_body]
fn is_xid_start(c: char) -> (r: bool)
    ensures
        r == xid_start(c),
        c <= '\u{7f}' ==> r == ('a' <= c <= 'z' || 'A' <= c <= 'Z'),
{
    unicode_ident::is_xid_start(c)
}

/// `unicode_ident::is_xid_continue`: the Unicode property `XID_Continue`.
/// Among the ASCII characters it holds of the letters, the digits and `_`.
#[verifier::external_body]
fn is_xid_continue(c: char) -> (r: bool)
    ensures
        r == xid_continue(c),
        c <= '\u{7f}' ==> r == ('a' <= c <= 'z' || 'A' <= c <= 'Z' || '0' <= c <= '9' || c == '_'),
{
    unicode_ident::is_xid_continue(c)
}

/// What Cargo takes as a package name: a digit, `_` or `XID_Start` character,
/// then `-` and `XID_Continue` characters, and not `_` alone.
pub open spec fn is_package_name(s: Seq<char>) -> bool {
    &&& s.len() > 0
    &&& s != seq!['_']
    &&& (text::is_digit(s[0]) || s[0] == '_' || xid_start(s[0]))
    &&& forall|i: int| 1 <= i < s.len() ==> (#[trigger] s[i] == '-' || xid_continue(s[i]))
}

/// A name that Cargo takes.
#[derive(Debug)]
pub struct CargoPackageName {
    text: String,
}

impl View for CargoPackageName {
    type V = Seq<char>;

    closed spec fn view(&self) -> Seq<char> {
        self.text@
    }
}

impl CargoPackageName {
    /// The name, if Cargo takes it.
    pub fn new(s: String) -> (r: Option<CargoPackageName>)
        ensures
            match r {
                Some(n) => is_package_name(s@) && n@ == s@,
                None => !is_package_name(s@),
            },
    {
        let x = text::chars_of(&s);
        if x.len() == 0 {
            return None;
        }
        if x.len() == 1 && x[0] == '_' {
            assert(s@ =~= seq!['_']);
            return None;
        }
        if !(text::char_is_digit(x[0]) || x[0] == '_' || is_xid_start(x[0])) {
            return None;
        }
        let mut i: usize = 1;
        while i < x.len()
            invariant
                1 <= i <= x.len(),
                x@ == s@,
                forall|j: int| 1 <= j < i ==> (#[trigger] s@[j] == '-' || xid_continue(s@[j])),
            decreases x.len() - i,
        {
            if !(x[i] == '-' || is_xid_continue(x[i])) {
                assert(!(s@[i as int] == '-' || xid_continue(s@[i as int])));
                return None;
            }
            i += 1;
        }
        assert(s@ != seq!['_']) by {
            if s@ == seq!['_'] {
                assert(s@.len() == 1 && s@[0] == '_');
            }
        }
        Some(CargoPackageName { text: s })
    }

    /// The name as text.
    pub fn as_str(&self) -> (r: &str)
        ensures
            r@ == self@,
    {
        self.text.as_str()
    }

    fn copy(&self) -> (r: CargoPackageName)
        ensures
            r@ == self@,
    {
        CargoPackageName { text: self.text.clone() }
    }
}

// ---------------------------------------------------------------------------
// Manifests
// ---------------------------------------------------------------------------
/// The `[package]` table of a manifest, as far as it is read. A value that is
/// inherited from the workspace is not known here.
#[derive(Debug)]
pub struct PackageMin {
    pub name: Option<String>,
    pub version: Option<String>,
    pub description: Option<String>,
}

/// The `[workspace]` table of a manifest, as far as it is read.
#[derive(Debug)]
pub struct WorkspaceMin {
    pub members: Vec<String>,
    pub exclude: Vec<String>,
}

/// A manifest, as far as it is read.
#[derive(Debug)]
pub struct CargoTomlMin {
    pub package: Option<PackageMin>,
    pub workspace: Option<WorkspaceMin>,
}

/// A package to suggest.
#[derive(Debug)]
pub struct MemberInfo {
    pub name: CargoPackageName,
    pub description: Option<String>,
}

#[verifier::ext_equal]
pub struct PackageView {
    pub name: Option<Seq<char>>,
    pub version: Option<Seq<char>>,
    pub description: Option<Seq<char>>,
}

#[verifier::ext_equal]
pub struct MemberView {
    pub name: Seq<char>,
    pub description: Option<Seq<char>>,
}

impl View for PackageMin {
    type V = PackageView;

    open spec fn view(&self) -> PackageView {
        PackageView {
            name: text::opt_view(self.name),
            version: text::opt_view(self.version),
            description: text::opt_view(self.description),
        }
    }
}

impl View for MemberInfo {
    type V = MemberView;

    open spec fn view(&self) -> MemberView {
        MemberView { name: self.name@, description: text::opt_view(self.description) }
    }
}

pub open spec fn member_views(v: Seq<MemberInfo>) -> Seq<MemberView> {
    v.map_values(|m: MemberInfo| m@)
}

/// How a package is described: version and description as far as they are
/// known.
pub open spec fn package_description(p: PackageView) -> Option<Seq<char>> {
    match (p.version, p.description) {
        (Some(v), Some(d)) => Some(text::shortened(v + " \u{2014} "@ + d)),
        (Some(v), None) => Some("v"@ + v),
        (None, Some(d)) => Some(text::shortened(d)),
        (None, None) => None,
    }
}

/// The package to suggest, if it has a name that Cargo takes.
pub open spec fn member_of(p: PackageView) -> Option<MemberView> {
    match p.name {
        Some(n) => if is_package_name(n) {
            Some(MemberView { name: n, description: package_description(p) })
        } else {
            None
        },
        None => None,
    }
}

impl MemberInfo {
    /// The package to suggest, if it has a name that Cargo takes.
    pub fn from_package(pkg: &PackageMin) -> (r: Option<MemberInfo>)
        ensures
            match r {
                Some(m) => member_of(pkg@) == Some(m@),
                None => member_of(pkg@) is None,
            },
    {
        let raw = match &pkg.name {
            Some(n) => n.clone(),
            None => {
                return None;
            },
        };
        let name = match CargoPackageName::new(raw) {
            Some(n) => n,
            None => {
                return None;
            },
        };
        let description = match (&pkg.version, &pkg.description) {
            (Some(v), Some(d)) => {
                let mut s = v.clone();
                s.append(" \u{2014} ");
                s.append(d);
                Some(text::truncate_chars(&s))
            },
            (Some(v), None) => {
                let mut s = "v".to_owned();
                s.append(v);
                Some(s)
            },
            (None, Some(d)) => Some(text::truncate_chars(d)),
            (None, None) => None,
        };
        Some(MemberInfo { name, description })
    }

    fn copy(&self) -> (r: MemberInfo)
        ensures
            r@ == self@,
    {
        MemberInfo { name: self.name.copy(), description: text::clone_opt(&self.description) }
    }
}

/// Whether a line opens the `[workspace]` table or one below it.
pub open spec fn opens_workspace(line: Seq<char>) -> bool {
    let t = line.skip(text::skip_white(line, 0));
    "[workspace"@.is_prefix_of(t) && t.len() > 10 && (t[10] == ']' || t[10] == '.'
        || text::is_white(t[10]))
}

/// Whether some line looks like a `[workspace]` table. Lines inside of strings
/// are not told apart.
pub fn line_scan_has_workspace(s: &str) -> (r: bool)
    ensures
        r == exists|i: int|
            0 <= i < text::lines(s@).len() && opens_workspace(#[trigger] text::lines(s@)[i]),
{
    let found = text::lines_of(s);
    let ghost all = text::lines(s@);
    let mut i: usize = 0;
    while i < found.len()
        invariant
            i <= found.len(),
            all == text::views(found@),
            all == text::lines(s@),
            forall|j: int| 0 <= j < i ==> !opens_workspace(#[trigger] all[j]),
        decreases found.len() - i,
    {
        let ghost line = all[i as int];
        assert(line == found@[i as int]@);
        let x = text::chars_of(&found[i]);
        let a = text::white_end(&x, 0);
        let t = text::string_of(&x, a, x.len());
        assert(t@ =~= line.skip(a as int));
        proof {
            reveal_strlit("[workspace");
        }
        if text::starts_with(&t, "[workspace") {
            let y = text::chars_of(&t);
            if y.len() > 10 && (y[10] == ']' || y[10] == '.' || text::char_is_white(y[10])) {
                assert(opens_workspace(all[i as int]));
                return true;
            }
        }
        i += 1;
    }
    false
}

/// Whether a manifest declares a workspace. `declares` parses it, and is asked
/// only about text in which some line looks like it.
pub fn has_workspace_section<P: FnOnce(&str) -> bool>(s: &str, declares: P) -> (r: bool)
    requires
        call_requires(declares, (s,)),
    ensures
        if exists|i: int|
            0 <= i < text::lines(s@).len() && opens_workspace(#[trigger] text::lines(s@)[i]) {
            call_ensures(declares, (s,), r)
        } else {
            !r
        },
{
    if !line_scan_has_workspace(s) {
        return false;
    }
    declares(s)
}

/// The manifest in the directory `k` levels up.
pub open spec fn manifest_at(start: Seq<char>, k: int) -> Seq<char> {
    paths::joined(paths::ancestor(start, k)->Some_0, "Cargo.toml"@)
}

/// That there is no manifest `k` levels up, or one without a workspace.
pub open spec fn no_root_at<F: Fn(&str) -> bool, W: Fn(&str) -> bool>(
    is_file: F,
    has_workspace: W,
    start: Seq<char>,
    k: int,
) -> bool {
    let m = manifest_at(start, k);
    ||| paths::answered(is_file, m, false)
    ||| paths::answered(is_file, m, true) && paths::answered(has_workspace, m, false)
}

/// That the manifest `k` levels up is the first one with a workspace.
pub open spec fn is_workspace_root<F: Fn(&str) -> bool, W: Fn(&str) -> bool>(
    is_file: F,
    has_workspace: W,
    start: Seq<char>,
    k: int,
) -> bool {
    let m = manifest_at(start, k);
    &&& paths::answered(is_file, m, true)
    &&& paths::answered(has_workspace, m, true)
    &&& forall|i: int| 0 <= i < k ==> #[trigger] no_root_at(is_file, has_workspace, start, i)
}

/// That the manifest `k` levels up is the nearest one.
pub open spec fn is_nearest<F: Fn(&str) -> bool>(is_file: F, start: Seq<char>, k: int) -> bool {
    &&& paths::answered(is_file, manifest_at(start, k), true)
    &&& forall|i: int|
        0 <= i < k ==> paths::answered(is_file, #[trigger] manifest_at(start, i), false)
}

/// That no directory within the limit holds a manifest with a workspace.
pub open spec fn no_root<F: Fn(&str) -> bool, W: Fn(&str) -> bool>(
    is_file: F,
    has_workspace: W,
    start: Seq<char>,
) -> bool {
    forall|k: int|
        0 <= k < MAX_ANCESTOR_WALK && #[trigger] paths::ancestor(start, k) is Some ==> no_root_at(
            is_file,
            has_workspace,
            start,
            k,
        )
}

/// The first manifest with a workspace in `start` and above, or else the
/// nearest manifest.
pub fn find_cargo_root<F: Fn(&str) -> bool, W: Fn(&str) -> bool>(
    start: &str,
    is_file: F,
    has_workspace: W,
) -> (r: Option<String>)
    requires
        forall|q: &str| #[trigger] call_requires(is_file, (q,)),
        forall|q: &str| #[trigger] call_requires(has_workspace, (q,)),
    ensures
        match r {
            Some(p) => exists|k: int|
                0 <= k < MAX_ANCESTOR_WALK && paths::ancestor(start@, k) is Some && p@
                    == #[trigger] manifest_at(start@, k) && (is_workspace_root(
                    is_file,
                    has_workspace,
                    start@,
                    k,
                ) || (is_nearest(is_file, start@, k) && no_root(is_file, has_workspace, start@))),
            None => forall|k: int|
                0 <= k < MAX_ANCESTOR_WALK && #[trigger] paths::ancestor(start@, k) is Some
                    ==> paths::answered(is_file, manifest_at(start@, k), false),
        },
{
    let mut nearest: Option<String> = None;
    let ghost mut at: int = 0;
    let mut dir = start.to_owned();
    let mut k: usize = 0;
    let mut ended = false;
    while k < MAX_ANCESTOR_WALK && !ended
        invariant
            k <= MAX_ANCESTOR_WALK,
            forall|q: &str| #[trigger] call_requires(is_file, (q,)),
            forall|q: &str| #[trigger] call_requires(has_workspace, (q,)),
            !ended ==> paths::ancestor(start@, k as int) == Some(dir@),
            ended ==> paths::ancestor(start@, k as int) is None,
            forall|i: int|
                0 <= i < k ==> #[trigger] no_root_at(is_file, has_workspace, start@, i),
            match nearest {
                Some(p) => 0 <= at < k && paths::ancestor(start@, at) is Some && p@ == manifest_at(
                    start@,
                    at,
                ) && is_nearest(is_file, start@, at),
                None => forall|i: int|
                    0 <= i < k ==> paths::answered(is_file, #[trigger] manifest_at(start@, i), false),
            },
        decreases MAX_ANCESTOR_WALK - k, (if ended { 0int } else { 1int }),
    {
        let path = paths::join(&dir, "Cargo.toml");
        assert(path@ == manifest_at(start@, k as int));
        let q = path.as_str();
        let there = is_file(q);
        assert(call_ensures(is_file, (q,), there));
        assert(paths::answered(is_file, path@, there));
        if there {
            let rooted = has_workspace(q);
            assert(call_ensures(has_workspace, (q,), rooted));
            assert(paths::answered(has_workspace, path@, rooted));
            if rooted {
                assert(is_workspace_root(is_file, has_workspace, start@, k as int));
                return Some(path);
            }
            if nearest.is_none() {
                nearest = Some(path);
                proof {
                    at = k as int;
                }
            }
        }
        assert(no_root_at(is_file, has_workspace, start@, k as int));
        match paths::parent_of(&dir) {
            Some(d) => {
                dir = d;
            },
            None => {
                ended = true;
            },
        }
        k += 1;
    }
    proof {
        assert forall|m: int|
            0 <= m < MAX_ANCESTOR_WALK && #[trigger] paths::ancestor(start@, m) is Some implies m
            < k by {
            if m >= k {
                paths::lemma_no_ancestor(start@, k as int, m);
            }
        }
        if nearest is Some {
            assert(no_root(is_file, has_workspace, start@));
            assert(manifest_at(start@, at) == nearest->Some_0@);
        }
    }
    nearest
}

// ---------------------------------------------------------------------------
// Stamps
// ---------------------------------------------------------------------------
/// What was found at a path.
#[derive(Debug, Clone, Copy, PartialEq, Eq, Structural)]
pub enum StampState {
    /// Nothing, or nothing that could be looked at.
    AbsentOrUnreadable,
    File { mtime: Option<FileTime>, size: u64 },
    Dir { mtime: Option<FileTime> },
}

/// Whether the path is still as it was. Without a modification time on both
/// sides it is not taken to be.
pub open spec fn unchanged(stored: StampState, current: StampState) -> bool {
    match (stored, current) {
        (StampState::AbsentOrUnreadable, StampState::AbsentOrUnreadable) => true,
        (
            StampState::File { mtime: Some(a), size: sa },
            StampState::File { mtime: Some(b), size: sb },
        ) => a == b && sa == sb,
        (StampState::Dir { mtime: Some(a) }, StampState::Dir { mtime: Some(b) }) => a == b,
        _ => false,
    }
}

/// Whether the path is still as it was.
pub fn stamp_matches(stored: &StampState, current: &StampState) -> (r: bool)
    ensures
        r == unchanged(*stored, *current),
{
    match (stored, current) {
        (StampState::AbsentOrUnreadable, StampState::AbsentOrUnreadable) => true,
        (
            StampState::File { mtime: Some(a), size: sa },
            StampState::File { mtime: Some(b), size: sb },
        ) => *a == *b && *sa == *sb,
        (StampState::Dir { mtime: Some(a) }, StampState::Dir { mtime: Some(b) }) => *a == *b,
        _ => false,
    }
}

/// What was found at one path.
#[derive(Debug)]
pub struct StampRecord {
    pub path: String,
    pub state: StampState,
}

/// The packages of a workspace, and the state of every path that they were
/// found through.
#[derive(Debug)]
pub struct ResolvedRoot {
    pub members: Vec<MemberInfo>,
    pub stamps: Vec<StampRecord>,
}

#[verifier::ext_equal]
pub struct ResolvedView {
    pub members: Seq<MemberView>,
    pub stamps: Seq<(Seq<char>, StampState)>,
}

pub open spec fn stamp_views(v: Seq<StampRecord>) -> Seq<(Seq<char>, StampState)> {
    v.map_values(|s: StampRecord| (s.path@, s.state))
}

impl View for ResolvedRoot {
    type V = ResolvedView;

    open spec fn view(&self) -> ResolvedView {
        ResolvedView { members: member_views(self.members@), stamps: stamp_views(self.stamps@) }
    }
}

/// The position of a path from `i` on, or the number of stamps.
pub open spec fn stamp_position(
    s: Seq<(Seq<char>, StampState)>,
    path: Seq<char>,
    i: int,
) -> int
    decreases s.len() - i,
{
    if 0 <= i < s.len() && s[i].0 != path {
        stamp_position(s, path, i + 1)
    } else {
        i
    }
}

/// The stamps with the state of a path noted. A later observation replaces an
/// earlier one.
pub open spec fn recorded(
    s: Seq<(Seq<char>, StampState)>,
    path: Seq<char>,
    state: StampState,
) -> Seq<(Seq<char>, StampState)> {
    let i = stamp_position(s, path, 0);
    if i < s.len() {
        s.update(i, (path, state))
    } else {
        s.push((path, state))
    }
}

/// The resolution with one more stamp.
pub open spec fn with_stamp(r: ResolvedView, path: Seq<char>, state: StampState) -> ResolvedView {
    ResolvedView { stamps: recorded(r.stamps, path, state), ..r }
}

impl ResolvedRoot {
    /// No packages, and nothing looked at.
    pub fn new() -> (r: ResolvedRoot)
        ensures
            r@.members == Seq::<MemberView>::empty(),
            r@.stamps == Seq::<(Seq<char>, StampState)>::empty(),
    {
        let r = ResolvedRoot { members: Vec::new(), stamps: Vec::new() };
        assert(r@.members =~= Seq::<MemberView>::empty());
        assert(r@.stamps =~= Seq::<(Seq<char>, StampState)>::empty());
        r
    }

    /// Notes the state of a path.
    pub fn record(&mut self, path: &str, state: StampState)
        ensures
            final(self)@ == with_stamp(old(self)@, path@, state),
    {
        let ghost before = self@;
        let ghost s = stamp_views(self.stamps@);
        let mut i: usize = 0;
        while i < self.stamps.len() && !text::same(&self.stamps[i].path, path)
            invariant
                i <= self.stamps.len(),
                s == stamp_views(self.stamps@),
                self@ == before,
                stamp_position(s, path@, 0) == stamp_position(s, path@, i as int),
            decreases self.stamps.len() - i,
        {
            assert(s[i as int].0 == self.stamps@[i as int].path@);
            i += 1;
        }
        if i < self.stamps.len() {
            assert(s[i as int].0 == self.stamps@[i as int].path@);
            self.stamps[i] = StampRecord { path: path.to_owned(), state };
            assert(stamp_views(self.stamps@) =~= s.update(i as int, (path@, state)));
        } else {
            self.stamps.push(StampRecord { path: path.to_owned(), state });
            assert(stamp_views(self.stamps@) =~= s.push((path@, state)));
        }
    }

    /// A copy.
    pub fn copy(&self) -> (r: ResolvedRoot)
        ensures
            r@ == self@,
    {
        let mut members: Vec<MemberInfo> = Vec::new();
        let mut i: usize = 0;
        while i < self.members.len()
            invariant
                i <= self.members.len(),
                members.len() == i,
                forall|j: int| 0 <= j < i ==> (#[trigger] members@[j])@ == self.members@[j]@,
            decreases self.members.len() - i,
        {
            members.push(self.members[i].copy());
            i += 1;
        }
        let mut stamps: Vec<StampRecord> = Vec::new();
        let mut k: usize = 0;
        while k < self.stamps.len()
            invariant
                k <= self.stamps.len(),
                stamps.len() == k,
                forall|j: int|
                    0 <= j < k ==> (#[trigger] stamps@[j]).path@ == self.stamps@[j].path@
                        && stamps@[j].state == self.stamps@[j].state,
            decreases self.stamps.len() - k,
        {
            stamps.push(
                StampRecord { path: self.stamps[k].path.clone(), state: self.stamps[k].state },
            );
            k += 1;
        }
        let r = ResolvedRoot { members, stamps };
        assert(r@.members =~= self@.members);
        assert(r@.stamps =~= self@.stamps);
        r
    }
}

// ---------------------------------------------------------------------------
// Resolving a workspace
// ---------------------------------------------------------------------------
/// What was read of a member's manifest.
#[derive(Debug)]
pub struct MemberScan {
    pub state: StampState,
    pub package: Option<PackageMin>,
}

/// A directory that a pattern leads to.
#[derive(Debug)]
pub struct CandidateScan {
    pub dir: String,
    /// The state of the manifest in it.
    pub state: StampState,
    pub is_file: bool,
    /// What the manifest says, where there is one and the workspace does not
    /// exclude the directory.
    pub member: Option<MemberScan>,
}

/// What one entry of `members` leads to.
#[derive(Debug)]
pub enum PatternScan {
    /// `prefix/*`: the directories below the prefix, in order.
    Glob { prefix_dir: String, state: StampState, children: Vec<CandidateScan> },
    /// A plain path.
    Literal(CandidateScan),
    /// Any other pattern. It leads nowhere.
    Unsupported,
}

/// What the root manifest says.
#[derive(Debug)]
pub enum RootScan {
    Unreadable,
    /// There is no workspace: the manifest's own package.
    Package(Option<PackageMin>),
    Workspace(Vec<PatternScan>),
}

/// Everything that was looked at for a workspace.
#[derive(Debug)]
pub struct WorkspaceScan {
    pub manifest: String,
    pub state: StampState,
    pub root: RootScan,
}

/// The manifest in a directory.
pub open spec fn manifest_of(dir: Seq<char>) -> Seq<char> {
    paths::joined(dir, "Cargo.toml"@)
}

/// The resolution with a package more, if there is one to suggest.
pub open spec fn with_package(r: ResolvedView, p: Option<PackageMin>) -> ResolvedView {
    match p {
        Some(pkg) => match member_of(pkg@) {
            Some(m) => ResolvedView { members: r.members.push(m), ..r },
            None => r,
        },
        None => r,
    }
}

/// A candidate that counts as a member: its manifest's state, and its package.
pub open spec fn with_member(r: ResolvedView, c: CandidateScan) -> ResolvedView {
    if c.is_file {
        match c.member {
            Some(m) => with_package(with_stamp(r, manifest_of(c.dir@), m.state), m.package),
            None => r,
        }
    } else {
        r
    }
}

pub open spec fn with_candidate_stamps(r: ResolvedView, cs: Seq<CandidateScan>) -> ResolvedView
    decreases cs.len(),
{
    if cs.len() == 0 {
        r
    } else {
        with_stamp(
            with_candidate_stamps(r, cs.drop_last()),
            manifest_of(cs.last().dir@),
            cs.last().state,
        )
    }
}

pub open spec fn with_members(r: ResolvedView, cs: Seq<CandidateScan>) -> ResolvedView
    decreases cs.len(),
{
    if cs.len() == 0 {
        r
    } else {
        with_member(with_members(r, cs.drop_last()), cs.last())
    }
}

/// One pattern more: every path that it led to is noted, and its members are
/// added in order.
pub open spec fn with_pattern(r: ResolvedView, p: PatternScan) -> ResolvedView {
    match p {
        PatternScan::Glob { prefix_dir, state, children } => with_members(
            with_candidate_stamps(with_stamp(r, prefix_dir@, state), children@),
            children@,
        ),
        PatternScan::Literal(c) => with_member(with_stamp(r, manifest_of(c.dir@), c.state), c),
        PatternScan::Unsupported => r,
    }
}

pub open spec fn with_patterns(r: ResolvedView, ps: Seq<PatternScan>) -> ResolvedView
    decreases ps.len(),
{
    if ps.len() == 0 {
        r
    } else {
        with_pattern(with_patterns(r, ps.drop_last()), ps.last())
    }
}

/// What a scan comes to.
pub open spec fn assembled(scan: WorkspaceScan) -> ResolvedView {
    let start = with_stamp(
        ResolvedView { members: Seq::empty(), stamps: Seq::empty() },
        scan.manifest@,
        scan.state,
    );
    match scan.root {
        RootScan::Unreadable => start,
        RootScan::Package(p) => with_package(start, p),
        RootScan::Workspace(ps) => with_patterns(start, ps@),
    }
}

fn add_package(resolved: &mut ResolvedRoot, p: &Option<PackageMin>)
    ensures
        final(resolved)@ == with_package(old(resolved)@, *p),
{
    if let Some(pkg) = p {
        if let Some(m) = MemberInfo::from_package(pkg) {
            let ghost before = resolved.members@;
            resolved.members.push(m);
            assert(member_views(resolved.members@) =~= member_views(before).push(m@));
        }
    }
}

fn add_member(resolved: &mut ResolvedRoot, c: &CandidateScan)
    ensures
        final(resolved)@ == with_member(old(resolved)@, *c),
{
    if c.is_file {
        if let Some(m) = &c.member {
            let path = paths::join(&c.dir, "Cargo.toml");
            resolved.record(&path, m.state);
            add_package(resolved, &m.package);
        }
    }
}

fn add_pattern(resolved: &mut ResolvedRoot, p: &PatternScan)
    ensures
        final(resolved)@ == with_pattern(old(resolved)@, *p),
{
    match p {
        PatternScan::Glob { prefix_dir, state, children } => {
            resolved.record(prefix_dir, *state);
            let ghost r0 = resolved@;
            let mut i: usize = 0;
            assert(children@.take(0) =~= Seq::empty());
            while i < children.len()
                invariant
                    i <= children.len(),
                    resolved@ == with_candidate_stamps(r0, children@.take(i as int)),
                decreases children.len() - i,
            {
                proof {
                    assert(children@.take(i + 1).drop_last() =~= children@.take(i as int));
                }
                let path = paths::join(&children[i].dir, "Cargo.toml");
                resolved.record(&path, children[i].state);
                i += 1;
            }
            assert(children@.take(children@.len() as int) =~= children@);
            let ghost r1 = resolved@;
            let mut k: usize = 0;
            while k < children.len()
                invariant
                    k <= children.len(),
                    resolved@ == with_members(r1, children@.take(k as int)),
                decreases children.len() - k,
            {
                proof {
                    assert(children@.take(k + 1).drop_last() =~= children@.take(k as int));
                }
                add_member(resolved, &children[k]);
                k += 1;
            }
            assert(children@.take(children@.len() as int) =~= children@);
        },
        PatternScan::Literal(c) => {
            let path = paths::join(&c.dir, "Cargo.toml");
            resolved.record(&path, c.state);
            add_member(resolved, c);
        },
        PatternScan::Unsupported => {},
    }
}

/// The packages and stamps that a scan comes to.
pub fn assemble(scan: &WorkspaceScan) -> (r: ResolvedRoot)
    ensures
        r@ == assembled(*scan),
{
    let mut resolved = ResolvedRoot::new();
    assert(resolved@ =~= ResolvedView { members: Seq::empty(), stamps: Seq::empty() });
    resolved.record(&scan.manifest, scan.state);
    match &scan.root {
        RootScan::Unreadable => {},
        RootScan::Package(p) => add_package(&mut resolved, p),
        RootScan::Workspace(ps) => {
            let ghost r0 = resolved@;
            let mut i: usize = 0;
            assert(ps@.take(0) =~= Seq::empty());
            while i < ps.len()
                invariant
                    i <= ps.len(),
                    resolved@ == with_patterns(r0, ps@.take(i as int)),
                decreases ps.len() - i,
            {
                proof {
                    assert(ps@.take(i + 1).drop_last() =~= ps@.take(i as int));
                }
                add_pattern(&mut resolved, &ps[i]);
                i += 1;
            }
            assert(ps@.take(ps@.len() as int) =~= ps@);
        },
    }
    resolved
}

// ---------------------------------------------------------------------------
// Looking at the disk
// ---------------------------------------------------------------------------
/// That `probe` was asked about the path and answered so.
pub open spec fn probed<P: Fn(&str) -> StampState>(probe: P, path: Seq<char>, s: StampState) -> bool {
    exists|q: &str| q@ == path && #[trigger] call_ensures(probe, (q,), s)
}

/// That `read` was asked about the manifest and answered so.
pub open spec fn was_read<R: Fn(&str) -> Option<CargoTomlMin>>(
    read: R,
    path: Seq<char>,
    got: Option<CargoTomlMin>,
) -> bool {
    exists|q: &str| q@ == path && #[trigger] call_ensures(read, (q,), got)
}

/// That `list` was asked for the directories below the path and answered so.
pub open spec fn was_listed<L: Fn(&str) -> Vec<String>>(
    list: L,
    path: Seq<char>,
    got: Vec<String>,
) -> bool {
    exists|q: &str| q@ == path && #[trigger] call_ensures(list, (q,), got)
}

/// Whether the workspace excludes a directory.
pub open spec fn is_excluded(root: Seq<char>, exclude: Seq<Seq<char>>, dir: Seq<char>) -> bool {
    exists|i: int|
        0 <= i < exclude.len() && paths::is_same_path(
            paths::joined(root, #[trigger] exclude[i]),
            dir,
        )
}

/// A pattern that only stands for directories right below a prefix.
pub open spec fn is_glob(pattern: Seq<char>) -> bool {
    "/*"@.is_suffix_of(pattern)
}

/// A pattern with other wildcards.
pub open spec fn has_wildcard(pattern: Seq<char>) -> bool {
    pattern.contains('*') || pattern.contains('?') || pattern.contains('[')
}

impl Keyed for String {
    open spec fn key_view(self) -> Seq<char> {
        self@
    }

    fn key(&self) -> (r: &str) {
        self.as_str()
    }
}

/// What the disk said about a candidate.
pub open spec fn candidate_seen<
    P: Fn(&str) -> StampState,
    F: Fn(&str) -> bool,
    R: Fn(&str) -> Option<CargoTomlMin>,
>(probe: P, is_file: F, read: R, excluded: bool, c: CandidateScan) -> bool {
    let m = manifest_of(c.dir@);
    &&& probed(probe, m, c.state)
    &&& paths::answered(is_file, m, c.is_file)
    &&& match c.member {
        None => !c.is_file || excluded,
        Some(ms) => c.is_file && !excluded && probed(probe, m, ms.state) && exists|
            got: Option<CargoTomlMin>,
        | #[trigger]
            was_read(read, m, got) && ms.package == (match got {
                Some(t) => t.package,
                None => None,
            }),
    }
}

/// That the candidates are the listed directories, in order of their paths.
pub open spec fn listing_seen<L: Fn(&str) -> Vec<String>>(
    list: L,
    prefix_dir: Seq<char>,
    children: Seq<CandidateScan>,
) -> bool {
    exists|got: Vec<String>| #[trigger]
        was_listed(list, prefix_dir, got) && children.len() == got.len() && forall|i: int|
            0 <= i < children.len() ==> (#[trigger] children[i]).dir@ == sorting::sorted(got@)[i]@
}

/// What the disk said about all candidates.
pub open spec fn candidates_seen<
    P: Fn(&str) -> StampState,
    F: Fn(&str) -> bool,
    R: Fn(&str) -> Option<CargoTomlMin>,
>(
    probe: P,
    is_file: F,
    read: R,
    root: Seq<char>,
    exclude: Seq<Seq<char>>,
    children: Seq<CandidateScan>,
) -> bool {
    forall|i: int|
        0 <= i < children.len() ==> candidate_seen(
            probe,
            is_file,
            read,
            is_excluded(root, exclude, children[i].dir@),
            #[trigger] children[i],
        )
}

/// What the disk said about a pattern.
pub open spec fn pattern_seen<
    P: Fn(&str) -> StampState,
    F: Fn(&str) -> bool,
    L: Fn(&str) -> Vec<String>,
    R: Fn(&str) -> Option<CargoTomlMin>,
>(
    probe: P,
    is_file: F,
    list: L,
    read: R,
    root: Seq<char>,
    exclude: Seq<Seq<char>>,
    pattern: Seq<char>,
    s: PatternScan,
) -> bool {
    if is_glob(pattern) {
        match s {
            PatternScan::Glob { prefix_dir, state, children } => {
                &&& prefix_dir@ == paths::joined(root, pattern.take(pattern.len() - 2))
                &&& probed(probe, prefix_dir@, state)
                &&& listing_seen(list, prefix_dir@, children@)
                &&& candidates_seen(probe, is_file, read, root, exclude, children@)
            },
            _ => false,
        }
    } else if has_wildcard(pattern) {
        s is Unsupported
    } else {
        match s {
            PatternScan::Literal(c) => c.dir@ == paths::joined(root, pattern) && candidate_seen(
                probe,
                is_file,
                read,
                is_excluded(root, exclude, c.dir@),
                c,
            ),
            _ => false,
        }
    }
}

fn excludes(root: &str, exclude: &Vec<String>, dir: &str) -> (r: bool)
    ensures
        r == is_excluded(root@, text::views(exclude@), dir@),
{
    let ghost all = text::views(exclude@);
    let mut i: usize = 0;
    while i < exclude.len()
        invariant
            i <= exclude.len(),
            all == text::views(exclude@),
            forall|j: int|
                0 <= j < i ==> !paths::is_same_path(
                    paths::joined(root@, #[trigger] all[j]),
                    dir@,
                ),
        decreases exclude.len() - i,
    {
        assert(all[i as int] == exclude@[i as int]@);
        let path = paths::join(root, &exclude[i]);
        if paths::same_path(&path, dir) {
            assert(paths::is_same_path(paths::joined(root@, all[i as int]), dir@));
            return true;
        }
        i += 1;
    }
    false
}

fn look_at_candidate<
    P: Fn(&str) -> StampState,
    F: Fn(&str) -> bool,
    R: Fn(&str) -> Option<CargoTomlMin>,
>(dir: String, excluded: bool, probe: &P, is_file: &F, read: &R) -> (r: CandidateScan)
    requires
        forall|q: &str| #[trigger] call_requires(*probe, (q,)),
        forall|q: &str| #[trigger] call_requires(*is_file, (q,)),
        forall|q: &str| #[trigger] call_requires(*read, (q,)),
    ensures
        r.dir == dir,
        candidate_seen(*probe, *is_file, *read, excluded, r),
{
    let path = paths::join(&dir, "Cargo.toml");
    let q = path.as_str();
    let state = probe(q);
    assert(call_ensures(*probe, (q,), state));
    assert(probed(*probe, path@, state));
    let there = is_file(q);
    assert(call_ensures(*is_file, (q,), there));
    assert(paths::answered(*is_file, path@, there));
    let member = if there && !excluded {
        Some(read_member_info(q, probe, read))
    } else {
        None
    };
    CandidateScan { dir, state, is_file: there, member }
}

/// Looks at a member's manifest once more and reads its package.
fn read_member_info<P: Fn(&str) -> StampState, R: Fn(&str) -> Option<CargoTomlMin>>(
    q: &str,
    probe: &P,
    read: &R,
) -> (r: MemberScan)
    requires
        forall|q: &str| #[trigger] call_requires(*probe, (q,)),
        forall|q: &str| #[trigger] call_requires(*read, (q,)),
    ensures
        probed(*probe, q@, r.state),
        exists|got: Option<CargoTomlMin>| #[trigger]
            was_read(*read, q@, got) && r.package == (match got {
                Some(t) => t.package,
                None => None,
            }),
{
    let state = probe(q);
    assert(call_ensures(*probe, (q,), state));
    let got = read(q);
    let ghost g = got;
    assert(call_ensures(*read, (q,), g));
    assert(was_read(*read, q@, g));
    let package = match got {
        Some(t) => t.package,
        None => None,
    };
    MemberScan { state, package }
}

/// Follows one entry of `members`: the directories right below a prefix for
/// `prefix/*`, and the directory itself for a plain path.
fn expand_member_pattern<
    P: Fn(&str) -> StampState,
    F: Fn(&str) -> bool,
    L: Fn(&str) -> Vec<String>,
    R: Fn(&str) -> Option<CargoTomlMin>,
>(
    root: &str,
    pattern: &str,
    exclude: &Vec<String>,
    probe: &P,
    is_file: &F,
    list: &L,
    read: &R,
) -> (r: PatternScan)
    requires
        forall|q: &str| #[trigger] call_requires(*probe, (q,)),
        forall|q: &str| #[trigger] call_requires(*is_file, (q,)),
        forall|q: &str| #[trigger] call_requires(*list, (q,)),
        forall|q: &str| #[trigger] call_requires(*read, (q,)),
    ensures
        pattern_seen(
            *probe,
            *is_file,
            *list,
            *read,
            root@,
            text::views(exclude@),
            pattern@,
            r,
        ),
{
    if text::ends_with(pattern, "/*") {
        proof {
            reveal_strlit("/*");
        }
        let x = text::chars_of(pattern);
        let prefix = text::string_of(&x, 0, x.len() - 2);
        assert(prefix@ =~= pattern@.take(pattern@.len() - 2));
        let prefix_dir = paths::join(root, &prefix);
        let q = prefix_dir.as_str();
        let state = probe(q);
        assert(call_ensures(*probe, (q,), state));
        assert(probed(*probe, prefix_dir@, state));
        let got = list(q);
        let ghost listing = got;
        assert(call_ensures(*list, (q,), listing));
        assert(was_listed(*list, prefix_dir@, listing));
        proof {
            sorting::law_sorted(got@);
        }
        let dirs = sorting::sort(got);
        let mut children: Vec<CandidateScan> = Vec::new();
        let mut i: usize = 0;
        while i < dirs.len()
            invariant
                i <= dirs.len(),
                children.len() == i,
                forall|q: &str| #[trigger] call_requires(*probe, (q,)),
                forall|q: &str| #[trigger] call_requires(*is_file, (q,)),
                forall|q: &str| #[trigger] call_requires(*read, (q,)),
                forall|j: int| 0 <= j < i ==> (#[trigger] children@[j]).dir@ == dirs@[j]@,
                forall|j: int|
                    0 <= j < i ==> candidate_seen(
                        *probe,
                        *is_file,
                        *read,
                        is_excluded(root@, text::views(exclude@), children@[j].dir@),
                        #[trigger] children@[j],
                    ),
            decreases dirs.len() - i,
        {
            let excluded = excludes(root, exclude, &dirs[i]);
            children.push(
                look_at_candidate(dirs[i].clone(), excluded, probe, is_file, read),
            );
            i += 1;
        }
        proof {
            assert forall|j: int| 0 <= j < children.len() implies (#[trigger] children@[j]).dir@
                == sorting::sorted(listing@)[j]@ by {
                assert(dirs@[j] == sorting::sorted(listing@)[j]);
            }
            assert(listing_seen(*list, prefix_dir@, children@));
            assert(candidates_seen(
                *probe,
                *is_file,
                *read,
                root@,
                text::views(exclude@),
                children@,
            ));
        }
        return PatternScan::Glob { prefix_dir, state, children };
    }
    if text::contains_char(pattern, '*') || text::contains_char(pattern, '?')
        || text::contains_char(pattern, '[') {
        return PatternScan::Unsupported;
    }
    let dir = paths::join(root, pattern);
    let excluded = excludes(root, exclude, &dir);
    PatternScan::Literal(look_at_candidate(dir, excluded, probe, is_file, read))
}

/// What the disk said about a workspace.
pub open spec fn workspace_seen<
    P: Fn(&str) -> StampState,
    F: Fn(&str) -> bool,
    L: Fn(&str) -> Vec<String>,
    R: Fn(&str) -> Option<CargoTomlMin>,
>(probe: P, is_file: F, list: L, read: R, manifest: Seq<char>, scan: WorkspaceScan) -> bool {
    &&& scan.manifest@ == manifest
    &&& probed(probe, manifest, scan.state)
    &&& exists|got: Option<CargoTomlMin>| #[trigger]
        was_read(read, manifest, got) && match got {
            None => scan.root is Unreadable,
            Some(t) => match t.workspace {
                None => scan.root == RootScan::Package(t.package),
                Some(ws) => scan.root matches RootScan::Workspace(ps) && ps.len()
                    == ws.members.len() && forall|i: int|
                    0 <= i < ps.len() ==> pattern_seen(
                        probe,
                        is_file,
                        list,
                        read,
                        root_dir(manifest),
                        text::views(ws.exclude@),
                        ws.members@[i]@,
                        #[trigger] ps@[i],
                    ),
            },
        }
}

/// The directory of a manifest.
pub open spec fn root_dir(manifest: Seq<char>) -> Seq<char> {
    match paths::parent(manifest) {
        Some(d) => d,
        None => "."@,
    }
}

/// Looks at everything that decides which packages a workspace has.
pub fn scan_workspace<
    P: Fn(&str) -> StampState,
    F: Fn(&str) -> bool,
    L: Fn(&str) -> Vec<String>,
    R: Fn(&str) -> Option<CargoTomlMin>,
>(manifest: &str, probe: &P, is_file: &F, list: &L, read: &R) -> (r: WorkspaceScan)
    requires
        forall|q: &str| #[trigger] call_requires(*probe, (q,)),
        forall|q: &str| #[trigger] call_requires(*is_file, (q,)),
        forall|q: &str| #[trigger] call_requires(*list, (q,)),
        forall|q: &str| #[trigger] call_requires(*read, (q,)),
    ensures
        workspace_seen(*probe, *is_file, *list, *read, manifest@, r),
{
    let root = match paths::parent_of(manifest) {
        Some(d) => d,
        None => ".".to_owned(),
    };
    let state = probe(manifest);
    assert(call_ensures(*probe, (manifest,), state));
    let got = read(manifest);
    let ghost g = got;
    assert(call_ensures(*read, (manifest,), g));
    assert(was_read(*read, manifest@, g));
    let scanned = match got {
        None => RootScan::Unreadable,
        Some(t) => match t.workspace {
            None => RootScan::Package(t.package),
            Some(ws) => {
                let mut ps: Vec<PatternScan> = Vec::new();
                let mut i: usize = 0;
                while i < ws.members.len()
                    invariant
                        i <= ws.members.len(),
                        ps.len() == i,
                        root@ == root_dir(manifest@),
                        forall|q: &str| #[trigger] call_requires(*probe, (q,)),
                        forall|q: &str| #[trigger] call_requires(*is_file, (q,)),
                        forall|q: &str| #[trigger] call_requires(*list, (q,)),
                        forall|q: &str| #[trigger] call_requires(*read, (q,)),
                        forall|j: int|
                            0 <= j < i ==> pattern_seen(
                                *probe,
                                *is_file,
                                *list,
                                *read,
                                root@,
                                text::views(ws.exclude@),
                                ws.members@[j]@,
                                #[trigger] ps@[j],
                            ),
                    decreases ws.members.len() - i,
                {
                    ps.push(
                        expand_member_pattern(
                            &root,
                            &ws.members[i],
                            &ws.exclude,
                            probe,
                            is_file,
                            list,
                            read,
                        ),
                    );
                    i += 1;
                }
                RootScan::Workspace(ps)
            },
        },
    };
    WorkspaceScan { manifest: manifest.to_owned(), state, root: scanned }
}

/// The packages of the workspace with this root manifest, with the state of
/// every path that they were found through. A manifest without a workspace
/// stands for its own package.
pub fn resolve_workspace<
    P: Fn(&str) -> StampState,
    F: Fn(&str) -> bool,
    L: Fn(&str) -> Vec<String>,
    R: Fn(&str) -> Option<CargoTomlMin>,
>(manifest: &str, probe: &P, is_file: &F, list: &L, read: &R) -> (r: ResolvedRoot)
    requires
        forall|q: &str| #[trigger] call_requires(*probe, (q,)),
        forall|q: &str| #[trigger] call_requires(*is_file, (q,)),
        forall|q: &str| #[trigger] call_requires(*list, (q,)),
        forall|q: &str| #[trigger] call_requires(*read, (q,)),
    ensures
        exists|scan: WorkspaceScan| #[trigger]
            workspace_seen(*probe, *is_file, *list, *read, manifest@, scan) && r@ == assembled(
                scan,
            ),
{
    let scan = scan_workspace(manifest, probe, is_file, list, read);
    assert(workspace_seen(*probe, *is_file, *list, *read, manifest@, scan));
    assemble(&scan)
}

// ---------------------------------------------------------------------------
// The cache
// ---------------------------------------------------------------------------
/// Workspaces that were resolved recently.
#[derive(Debug)]
pub struct CargoCache {
    roots: FifoMap<ResolvedRoot>,
}

impl CargoCache {
    /// The entries, the oldest first.
    pub closed spec fn items(&self) -> Seq<Kept<ResolvedRoot>> {
        self.roots.items()
    }

    /// Each manifest once, and no more entries than allowed.
    pub open spec fn wf(&self) -> bool {
        fifo::bounded(self.items())
    }

    /// A cache without entries.
    pub fn new() -> (r: CargoCache)
        ensures
            r.wf(),
            r.items() == Seq::<Kept<ResolvedRoot>>::empty(),
    {
        CargoCache { roots: FifoMap::new() }
    }

    /// What was resolved for a manifest, if every path that it was found
    /// through is still as it was.
    pub fn get<P: Fn(&str) -> StampState>(&self, manifest: &str, probe: &P) -> (r: Option<
        ResolvedRoot,
    >)
        requires
            forall|q: &str| #[trigger] call_requires(*probe, (q,)),
        ensures
            match fifo::kept_for(self.items(), manifest@) {
                None => r is None,
                Some(kept) => match r {
                    Some(root) => root@ == kept@ && all_hold_still(*probe, kept.stamps@),
                    None => some_changed(*probe, kept.stamps@),
                },
            },
    {
        let kept = match self.roots.get(manifest) {
            Some(k) => k,
            None => {
                return None;
            },
        };
        let mut i: usize = 0;
        while i < kept.stamps.len()
            invariant
                i <= kept.stamps.len(),
                fifo::kept_for(self.items(), manifest@) == Some(*kept),
                forall|q: &str| #[trigger] call_requires(*probe, (q,)),
                forall|j: int|
                    0 <= j < i ==> #[trigger] holds_still(*probe, kept.stamps@[j]),
            decreases kept.stamps.len() - i,
        {
            let q = kept.stamps[i].path.as_str();
            let now = probe(q);
            assert(call_ensures(*probe, (q,), now));
            assert(probed(*probe, q@, now));
            if !stamp_matches(&kept.stamps[i].state, &now) {
                assert(has_changed(*probe, kept.stamps@[i as int]));
                assert(some_changed(*probe, kept.stamps@));
                return None;
            }
            assert(holds_still(*probe, kept.stamps@[i as int]));
            i += 1;
        }
        assert(all_hold_still(*probe, kept.stamps@));
        Some(kept.copy())
    }

    /// Keeps what was resolved for a manifest.
    pub fn store(&mut self, manifest: &str, resolved: ResolvedRoot)
        requires
            old(self).wf(),
        ensures
            final(self).wf(),
            exists|e: Kept<ResolvedRoot>|
                e.path@ == manifest@ && e.value == resolved && #[trigger] fifo::stored(
                    old(self).items(),
                    e,
                ) == final(self).items(),
    {
        self.roots.store(manifest, resolved);
    }

    /// Forgets everything.
    pub fn clear(&mut self)
        ensures
            final(self).items() == Seq::<Kept<ResolvedRoot>>::empty(),
            final(self).wf(),
    {
        self.roots.clear();
    }

    /// The number of entries.
    pub fn len(&self) -> (r: usize)
        ensures
            r == self.items().len(),
    {
        self.roots.len()
    }
}

/// That the path was looked at and is as it was.
pub open spec fn holds_still<P: Fn(&str) -> StampState>(probe: P, s: StampRecord) -> bool {
    exists|now: StampState| #[trigger] probed(probe, s.path@, now) && unchanged(s.state, now)
}

/// That the path was looked at and is not as it was.
pub open spec fn has_changed<P: Fn(&str) -> StampState>(probe: P, s: StampRecord) -> bool {
    exists|now: StampState| #[trigger] probed(probe, s.path@, now) && !unchanged(s.state, now)
}

/// That every path is as it was.
pub open spec fn all_hold_still<P: Fn(&str) -> StampState>(
    probe: P,
    stamps: Seq<StampRecord>,
) -> bool {
    forall|i: int| 0 <= i < stamps.len() ==> #[trigger] holds_still(probe, stamps[i])
}

/// That some path is not as it was.
pub open spec fn some_changed<P: Fn(&str) -> StampState>(
    probe: P,
    stamps: Seq<StampRecord>,
) -> bool {
    exists|i: int| 0 <= i < stamps.len() && #[trigger] has_changed(probe, stamps[i])
}

// ---------------------------------------------------------------------------
// The provider
// ---------------------------------------------------------------------------
/// The packages as suggestions.
pub fn member_suggestions(members: &Vec<MemberInfo>) -> (r: Vec<Suggestion>)
    ensures
        types::shown(r@) == member_views(members@).map_values(
            |m: MemberView| types::provided(m.name, m.description),
        ),
{
    let mut out: Vec<Suggestion> = Vec::new();
    let mut i: usize = 0;
    while i < members.len()
        invariant
            i <= members.len(),
            out.len() == i,
            forall|j: int|
                0 <= j < i ==> (#[trigger] out@[j])@ == types::provided(
                    members@[j]@.name,
                    members@[j]@.description,
                ),
        decreases members.len() - i,
    {
        out.push(
            provider_value(
                members[i].name.as_str().to_owned(),
                text::clone_opt(&members[i].description),
            ),
        );
        i += 1;
    }
    assert(types::shown(out@) =~= member_views(members@).map_values(
        |m: MemberView| types::provided(m.name, m.description),
    ));
    out
}

/// Packages of the nearest Cargo workspace.
pub struct CargoWorkspaceMembers;

impl Provider for CargoWorkspaceMembers {
    open spec fn provider_name(&self) -> Seq<char> {
        "cargo_workspace_members"@
    }

    fn name(&self) -> (r: &'static str) {
        "cargo_workspace_members"
    }
}

// ---------------------------------------------------------------------------
// Laws
// ---------------------------------------------------------------------------
/// A file or directory whose modification time is not known never counts as
/// unchanged.
pub proof fn law_unknown_mtime_is_a_change(size: u64, current: StampState)
    ensures
        !unchanged(StampState::File { mtime: None, size }, current),
        !unchanged(StampState::Dir { mtime: None }, current),
        !unchanged(current, StampState::File { mtime: None, size }),
        !unchanged(current, StampState::Dir { mtime: None }),
{
}

/// Whether the state of a path is noted.
pub open spec fn is_stamped(r: ResolvedView, path: Seq<char>) -> bool {
    exists|i: int| 0 <= i < r.stamps.len() && #[trigger] r.stamps[i].0 == path
}

/// Whether every path that a pattern led to is noted.
pub open spec fn pattern_stamped(r: ResolvedView, p: PatternScan) -> bool {
    match p {
        PatternScan::Glob { prefix_dir, children, .. } => is_stamped(r, prefix_dir@) && forall|
            i: int,
        |
            0 <= i < children.len() ==> is_stamped(r, manifest_of((#[trigger] children@[i]).dir@)),
        PatternScan::Literal(c) => is_stamped(r, manifest_of(c.dir@)),
        PatternScan::Unsupported => true,
    }
}

/// Whether all that is noted in `a` is noted in `b`.
spec fn keeps_stamps(a: ResolvedView, b: ResolvedView) -> bool {
    forall|path: Seq<char>| #[trigger] is_stamped(a, path) ==> is_stamped(b, path)
}

proof fn lemma_stamp_position(s: Seq<(Seq<char>, StampState)>, path: Seq<char>, i: int)
    requires
        0 <= i <= s.len(),
    ensures
        i <= stamp_position(s, path, i) <= s.len(),
        stamp_position(s, path, i) < s.len() ==> s[stamp_position(s, path, i)].0 == path,
    decreases s.len() - i,
{
    if i < s.len() && s[i].0 != path {
        lemma_stamp_position(s, path, i + 1);
    }
}

proof fn lemma_with_stamp(r: ResolvedView, path: Seq<char>, state: StampState)
    ensures
        is_stamped(with_stamp(r, path, state), path),
        keeps_stamps(r, with_stamp(r, path, state)),
{
    let n = with_stamp(r, path, state);
    let i = stamp_position(r.stamps, path, 0);
    lemma_stamp_position(r.stamps, path, 0);
    assert(n.stamps[i].0 == path);
    assert forall|q: Seq<char>| #[trigger] is_stamped(r, q) implies is_stamped(n, q) by {
        let j = choose|j: int| 0 <= j < r.stamps.len() && #[trigger] r.stamps[j].0 == q;
        assert(n.stamps[j].0 == q);
    }
}

proof fn lemma_with_member(r: ResolvedView, c: CandidateScan)
    ensures
        keeps_stamps(r, with_member(r, c)),
{
    if c.is_file {
        if let Some(m) = c.member {
            lemma_with_stamp(r, manifest_of(c.dir@), m.state);
            let s = with_stamp(r, manifest_of(c.dir@), m.state);
            let n = with_member(r, c);
            assert(n.stamps == s.stamps);
            assert forall|q: Seq<char>| #[trigger] is_stamped(r, q) implies is_stamped(n, q) by {
                assert(is_stamped(s, q));
                let j = choose|j: int| 0 <= j < s.stamps.len() && #[trigger] s.stamps[j].0 == q;
                assert(n.stamps[j].0 == q);
            }
        }
    }
}

proof fn lemma_candidate_stamps(r: ResolvedView, cs: Seq<CandidateScan>)
    ensures
        keeps_stamps(r, with_candidate_stamps(r, cs)),
        forall|i: int|
            0 <= i < cs.len() ==> is_stamped(
                with_candidate_stamps(r, cs),
                manifest_of((#[trigger] cs[i]).dir@),
            ),
    decreases cs.len(),
{
    if cs.len() > 0 {
        let d = cs.drop_last();
        lemma_candidate_stamps(r, d);
        let mid = with_candidate_stamps(r, d);
        lemma_with_stamp(mid, manifest_of(cs.last().dir@), cs.last().state);
        assert forall|i: int| 0 <= i < cs.len() implies is_stamped(
            with_candidate_stamps(r, cs),
            manifest_of((#[trigger] cs[i]).dir@),
        ) by {
            if i < d.len() {
                assert(d[i] == cs[i]);
                assert(is_stamped(mid, manifest_of(d[i].dir@)));
            }
        }
    }
}

proof fn lemma_with_members(r: ResolvedView, cs: Seq<CandidateScan>)
    ensures
        keeps_stamps(r, with_members(r, cs)),
    decreases cs.len(),
{
    if cs.len() > 0 {
        lemma_with_members(r, cs.drop_last());
        lemma_with_member(with_members(r, cs.drop_last()), cs.last());
    }
}

proof fn lemma_with_pattern(r: ResolvedView, p: PatternScan)
    ensures
        keeps_stamps(r, with_pattern(r, p)),
        pattern_stamped(with_pattern(r, p), p),
{
    match p {
        PatternScan::Glob { prefix_dir, state, children } => {
            let a = with_stamp(r, prefix_dir@, state);
            let b = with_candidate_stamps(a, children@);
            lemma_with_stamp(r, prefix_dir@, state);
            lemma_candidate_stamps(a, children@);
            lemma_with_members(b, children@);
            assert(is_stamped(b, prefix_dir@));
            assert forall|i: int| 0 <= i < children.len() implies is_stamped(
                with_pattern(r, p),
                manifest_of((#[trigger] children@[i]).dir@),
            ) by {
                assert(is_stamped(b, manifest_of(children@[i].dir@)));
            }
        },
        PatternScan::Literal(c) => {
            lemma_with_stamp(r, manifest_of(c.dir@), c.state);
            lemma_with_member(with_stamp(r, manifest_of(c.dir@), c.state), c);
        },
        PatternScan::Unsupported => {},
    }
}

proof fn lemma_with_patterns(r: ResolvedView, ps: Seq<PatternScan>)
    ensures
        keeps_stamps(r, with_patterns(r, ps)),
        forall|i: int| 0 <= i < ps.len() ==> pattern_stamped(with_patterns(r, ps), #[trigger] ps[i]),
    decreases ps.len(),
{
    if ps.len() > 0 {
        let d = ps.drop_last();
        lemma_with_patterns(r, d);
        let mid = with_patterns(r, d);
        lemma_with_pattern(mid, ps.last());
        let n = with_patterns(r, ps);
        assert forall|i: int| 0 <= i < ps.len() implies pattern_stamped(n, #[trigger] ps[i]) by {
            if i < d.len() {
                assert(d[i] == ps[i]);
                assert(pattern_stamped(mid, d[i]));
                match ps[i] {
                    PatternScan::Glob { prefix_dir, children, .. } => {
                        assert(is_stamped(mid, prefix_dir@));
                        assert forall|k: int| 0 <= k < children.len() implies is_stamped(
                            n,
                            manifest_of((#[trigger] children@[k]).dir@),
                        ) by {
                            assert(is_stamped(mid, manifest_of(children@[k].dir@)));
                        }
                    },
                    PatternScan::Literal(c) => {
                        assert(is_stamped(mid, manifest_of(c.dir@)));
                    },
                    PatternScan::Unsupported => {},
                }
            }
        }
    }
}

/// Every path that had a say in the result is noted: the root manifest, the
/// prefix of every glob, and the manifest of every candidate, whether or not
/// there was one.
pub proof fn law_every_probe_is_stamped(scan: WorkspaceScan)
    ensures
        is_stamped(assembled(scan), scan.manifest@),
        scan.root matches RootScan::Workspace(ps) ==> forall|i: int|
            0 <= i < ps.len() ==> pattern_stamped(assembled(scan), #[trigger] ps@[i]),
{
    let empty = ResolvedView { members: Seq::empty(), stamps: Seq::empty() };
    lemma_with_stamp(empty, scan.manifest@, scan.state);
    let start = with_stamp(empty, scan.manifest@, scan.state);
    match scan.root {
        RootScan::Workspace(ps) => {
            lemma_with_patterns(start, ps@);
        },
        RootScan::Package(p) => {
            assert(assembled(scan).stamps == start.stamps);
            let j = choose|j: int|
                0 <= j < start.stamps.len() && #[trigger] start.stamps[j].0 == scan.manifest@;
            assert(assembled(scan).stamps[j].0 == scan.manifest@);
        },
        RootScan::Unreadable => {},
    }
}

} // verus!
