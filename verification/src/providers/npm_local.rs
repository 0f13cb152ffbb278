//! Dependencies of the nearest `package.json`.
use crate::providers::context::Provider;
use crate::providers::keyed_cache;
use crate::providers::keyed_cache::{CacheKey, KeyedCache, Slot};
use crate::providers::listing;
use crate::providers::local_project::mtime_cache::{FileMeta, FileTime};
use crate::text;
use crate::types;
use crate::types::{clone_suggestions, provider_value, Suggestion, SuggestionView};
use vstd::prelude::*;
use vstd::string::*;

verus! {

/// Which dependencies are wanted.
#[derive(Debug, Clone, Copy, PartialEq, Eq, Structural)]
pub enum NpmDependencyMode {
    Dependencies,
    DevDependencies,
    AllDependencies,
}

/// The fields that hold the wanted dependencies, in order.
pub open spec fn mode_fields(mode: NpmDependencyMode) -> Seq<Seq<char>> {
    match mode {
        NpmDependencyMode::Dependencies => seq!["dependencies"@],
        NpmDependencyMode::DevDependencies => seq!["devDependencies"@],
        NpmDependencyMode::AllDependencies => seq!["dependencies"@, "devDependencies"@],
    }
}

impl NpmDependencyMode {
    /// The fields that hold the wanted dependencies, in order.
    pub fn fields(self) -> (r: Vec<String>)
        ensures
            text::views(r@) == mode_fields(self),
    {
        match self {
            NpmDependencyMode::Dependencies => listing::strings1("dependencies"),
            NpmDependencyMode::DevDependencies => listing::strings1("devDependencies"),
            NpmDependencyMode::AllDependencies => listing::strings2(
                "dependencies",
                "devDependencies",
            ),
        }
    }
}

// ---------------------------------------------------------------------------
// The members of a JSON object
// ---------------------------------------------------------------------------
/// The members of an object within an object: each with its value, if that is
/// a string.
pub type Entries = Vec<(String, Option<String>)>;

/// The members of an object: each with its own members, if it is an object.
pub type Members = Vec<(String, Option<Entries>)>;

/// The content of [`Entries`].
pub open spec fn entry_views(v: Seq<(String, Option<String>)>) -> Seq<
    (Seq<char>, Option<Seq<char>>),
> {
    v.map_values(|e: (String, Option<String>)| (e.0@, text::opt_view(e.1)))
}

/// The content of optional [`Entries`].
pub open spec fn opt_entries(o: Option<Entries>) -> Option<Seq<(Seq<char>, Option<Seq<char>>)>> {
    match o {
        Some(v) => Some(entry_views(v@)),
        None => None,
    }
}

/// The content of optional [`Members`].
pub open spec fn opt_members(o: Option<Members>) -> Option<
    Seq<(Seq<char>, Option<Seq<(Seq<char>, Option<Seq<char>>)>>)>,
> {
    match o {
        Some(v) => Some(
            v@.map_values(|m: (String, Option<Entries>)| (m.0@, opt_entries(m.1))),
        ),
        None => None,
    }
}

/// The members of a JSON object in the order in which they stand, or nothing
/// where the bytes are no such object.
pub uninterp spec fn object_members(json: Seq<u8>) -> Option<
    Seq<(Seq<char>, Option<Seq<(Seq<char>, Option<Seq<char>>)>>)>,
>;

/// `serde_json::from_slice` into a `Value`, two levels deep: an object's
/// members, and for each that is an object its members with their strings. It
/// is given a name only.
#[verifier::external_body]
fn read_members(json: &[u8]) -> (r: Option<Members>)
    ensures
        opt_members(r) == object_members(json@),
{
    let value = serde_json::from_slice::<serde_json::Value>(json).ok()?;
    let members = value.as_object()?.iter();
    let entries = |v: &serde_json::Value| {
        let object = v.as_object()?.iter();
        Some(object.map(|(k, s)| (k.clone(), s.as_str().map(str::to_owned))).collect())
    };
    Some(members.map(|(k, v)| (k.clone(), entries(v))).collect())
}

// ---------------------------------------------------------------------------
// Dependencies
// ---------------------------------------------------------------------------
/// The position of a member from `i` on, or the number of members.
pub open spec fn member_position(
    members: Seq<(Seq<char>, Option<Seq<(Seq<char>, Option<Seq<char>>)>>)>,
    name: Seq<char>,
    i: int,
) -> int
    decreases members.len() - i,
{
    if 0 <= i < members.len() && members[i].0 != name {
        member_position(members, name, i + 1)
    } else {
        i
    }
}

/// The entries of a member. One that is missing or no object has none.
pub open spec fn member_entries(
    members: Seq<(Seq<char>, Option<Seq<(Seq<char>, Option<Seq<char>>)>>)>,
    name: Seq<char>,
) -> Seq<(Seq<char>, Option<Seq<char>>)> {
    let i = member_position(members, name, 0);
    if i < members.len() {
        match members[i].1 {
            Some(e) => e,
            None => Seq::empty(),
        }
    } else {
        Seq::empty()
    }
}

/// The dependencies so far with one more. One without a name or a version
/// that is a string is left out, and so is one that is there already.
pub open spec fn with_dependency(
    out: Seq<(Seq<char>, Seq<char>)>,
    entry: (Seq<char>, Option<Seq<char>>),
) -> Seq<(Seq<char>, Seq<char>)> {
    match entry.1 {
        Some(version) => if entry.0.len() == 0 || listing::firsts(out).contains(entry.0) {
            out
        } else {
            out.push((entry.0, version))
        },
        None => out,
    }
}

pub open spec fn with_entries(
    out: Seq<(Seq<char>, Seq<char>)>,
    entries: Seq<(Seq<char>, Option<Seq<char>>)>,
) -> Seq<(Seq<char>, Seq<char>)>
    decreases entries.len(),
{
    if entries.len() == 0 {
        out
    } else {
        with_dependency(with_entries(out, entries.drop_last()), entries.last())
    }
}

pub open spec fn with_fields(
    members: Seq<(Seq<char>, Option<Seq<(Seq<char>, Option<Seq<char>>)>>)>,
    fields: Seq<Seq<char>>,
) -> Seq<(Seq<char>, Seq<char>)>
    decreases fields.len(),
{
    if fields.len() == 0 {
        Seq::empty()
    } else {
        with_entries(
            with_fields(members, fields.drop_last()),
            member_entries(members, fields.last()),
        )
    }
}

/// The wanted dependencies with their versions, each where it first occurs.
pub open spec fn dependencies(
    members: Option<Seq<(Seq<char>, Option<Seq<(Seq<char>, Option<Seq<char>>)>>)>>,
    mode: NpmDependencyMode,
) -> Seq<(Seq<char>, Seq<char>)> {
    match members {
        Some(m) => with_fields(m, mode_fields(mode)),
        None => Seq::empty(),
    }
}

proof fn lemma_with_entries(
    out: Seq<(Seq<char>, Seq<char>)>,
    entries: Seq<(Seq<char>, Option<Seq<char>>)>,
)
    requires
        listing::firsts(out).no_duplicates(),
    ensures
        listing::firsts(with_entries(out, entries)).no_duplicates(),
    decreases entries.len(),
{
    if entries.len() > 0 {
        lemma_with_entries(out, entries.drop_last());
        let before = with_entries(out, entries.drop_last());
        let r = with_entries(out, entries);
        if r.len() > before.len() {
            assert(listing::firsts(r) =~= listing::firsts(before).push(entries.last().0));
        }
    }
}

/// No dependency is suggested twice, even if it is in both fields.
pub proof fn law_dependencies_distinct(
    members: Option<Seq<(Seq<char>, Option<Seq<(Seq<char>, Option<Seq<char>>)>>)>>,
    mode: NpmDependencyMode,
)
    ensures
        listing::firsts(dependencies(members, mode)).no_duplicates(),
{
    match members {
        Some(m) => {
            lemma_with_fields(m, mode_fields(mode));
        },
        None => {},
    }
}

proof fn lemma_with_fields(
    members: Seq<(Seq<char>, Option<Seq<(Seq<char>, Option<Seq<char>>)>>)>,
    fields: Seq<Seq<char>>,
)
    ensures
        listing::firsts(with_fields(members, fields)).no_duplicates(),
    decreases fields.len(),
{
    if fields.len() > 0 {
        lemma_with_fields(members, fields.drop_last());
        lemma_with_entries(
            with_fields(members, fields.drop_last()),
            member_entries(members, fields.last()),
        );
    }
}

/// All dependencies begin with the plain ones.
pub proof fn law_plain_dependencies_first(
    members: Option<Seq<(Seq<char>, Option<Seq<(Seq<char>, Option<Seq<char>>)>>)>>,
)
    ensures
        dependencies(members, NpmDependencyMode::Dependencies).is_prefix_of(
            dependencies(members, NpmDependencyMode::AllDependencies),
        ),
{
    match members {
        Some(m) => {
            let all = mode_fields(NpmDependencyMode::AllDependencies);
            assert(all.drop_last() =~= mode_fields(NpmDependencyMode::Dependencies));
            lemma_entries_extend(
                with_fields(m, all.drop_last()),
                member_entries(m, all.last()),
            );
        },
        None => {
            let none = Seq::<(Seq<char>, Seq<char>)>::empty();
            assert(none =~= none.subrange(0, 0));
        },
    }
}

proof fn lemma_entries_extend(
    out: Seq<(Seq<char>, Seq<char>)>,
    entries: Seq<(Seq<char>, Option<Seq<char>>)>,
)
    ensures
        out.is_prefix_of(with_entries(out, entries)),
    decreases entries.len(),
{
    if entries.len() > 0 {
        lemma_entries_extend(out, entries.drop_last());
    }
    assert(out =~= with_entries(out, entries).subrange(0, out.len() as int));
}

/// The wanted dependencies as suggestions, given the members of the file's
/// object. `None` stands for a file that cannot be parsed.
pub fn dependency_suggestions(members: &Option<Members>, mode: NpmDependencyMode) -> (r: Vec<
    Suggestion,
>)
    ensures
        types::shown(r@) == listing::pairs_shown(dependencies(opt_members(*members), mode)),
{
    let mut out: Vec<Suggestion> = Vec::new();
    let ghost mut pairs: Seq<(Seq<char>, Seq<char>)> = Seq::empty();
    assert(types::shown(out@) =~= listing::pairs_shown(pairs));
    let root = match members {
        Some(m) => m,
        None => {
            return out;
        },
    };
    let ghost ms = opt_members(*members)->Some_0;
    let fields = mode.fields();
    let ghost fs = mode_fields(mode);
    let mut i: usize = 0;
    assert(fs.take(0) =~= Seq::empty());
    while i < fields.len()
        invariant
            i <= fields.len(),
            fs == text::views(fields@),
            ms == root@.map_values(|m: (String, Option<Entries>)| (m.0@, opt_entries(m.1))),
            pairs == with_fields(ms, fs.take(i as int)),
            types::shown(out@) == listing::pairs_shown(pairs),
        decreases fields.len() - i,
    {
        proof {
            assert(fs.take(i + 1).drop_last() =~= fs.take(i as int));
            assert(fs.take(i + 1).last() == fields@[i as int]@);
        }
        let p = position_of(root, &fields[i], Ghost(ms));
        let ghost start = pairs;
        let ghost es = member_entries(ms, fields@[i as int]@);
        if p < root.len() {
            assert(ms[p as int] == (root@[p as int].0@, opt_entries(root@[p as int].1)));
            if let Some(entries) = &root[p].1 {
                let mut k: usize = 0;
                assert(es.take(0) =~= Seq::empty());
                while k < entries.len()
                    invariant
                        k <= entries.len(),
                        es == entry_views(entries@),
                        pairs == with_entries(start, es.take(k as int)),
                        types::shown(out@) == listing::pairs_shown(pairs),
                    decreases entries.len() - k,
                {
                    let ghost e = es[k as int];
                    proof {
                        assert(es.take(k + 1).drop_last() =~= es.take(k as int));
                        assert(es.take(k + 1).last() == e);
                        assert(e == (entries@[k as int].0@, text::opt_view(entries@[k as int].1)));
                    }
                    if let Some(version) = &entries[k].1 {
                        let name = &entries[k].0;
                        if !name.as_str().is_empty() && !listing::knows(&out, name, Ghost(pairs)) {
                            let ghost before = out@;
                            let s = provider_value(name.clone(), Some(version.clone()));
                            out.push(s);
                            proof {
                                let q = (name@, version@);
                                assert(types::shown(out@) =~= types::shown(before).push(s@));
                                assert(listing::pairs_shown(pairs.push(q))
                                    =~= listing::pairs_shown(pairs).push(
                                    types::provided(q.0, Some(q.1)),
                                ));
                                pairs = pairs.push(q);
                            }
                        }
                    }
                    k += 1;
                }
                assert(es.take(es.len() as int) =~= es);
            }
        }
        i += 1;
    }
    assert(fs.take(fs.len() as int) =~= fs);
    out
}

fn position_of(
    root: &Members,
    name: &str,
    Ghost(ms): Ghost<Seq<(Seq<char>, Option<Seq<(Seq<char>, Option<Seq<char>>)>>)>>,
) -> (r: usize)
    requires
        ms == root@.map_values(|m: (String, Option<Entries>)| (m.0@, opt_entries(m.1))),
    ensures
        r == member_position(ms, name@, 0),
        r <= root.len(),
{
    let mut i: usize = 0;
    while i < root.len()
        invariant
            i <= root.len(),
            ms == root@.map_values(|m: (String, Option<Entries>)| (m.0@, opt_entries(m.1))),
            member_position(ms, name@, 0) == member_position(ms, name@, i as int),
        decreases root.len() - i,
    {
        assert(ms[i as int].0 == root@[i as int].0@);
        if text::same(&root[i].0, name) {
            return i;
        }
        i += 1;
    }
    i
}

/// The wanted dependencies of a `package.json` as suggestions. A file that
/// cannot be parsed has none.
pub fn parse_npm_dependencies(bytes: &[u8], mode: NpmDependencyMode) -> (r: Vec<Suggestion>)
    ensures
        types::shown(r@) == listing::pairs_shown(dependencies(object_members(bytes@), mode)),
{
    dependency_suggestions(&read_members(bytes), mode)
}

// ---------------------------------------------------------------------------
// The cache
// ---------------------------------------------------------------------------
/// A file and which of its dependencies.
#[derive(Debug)]
pub struct NpmCacheKey {
    pub path: String,
    pub mode: NpmDependencyMode,
}

impl CacheKey for NpmCacheKey {
    type Id = (Seq<char>, NpmDependencyMode);

    open spec fn id(self) -> (Seq<char>, NpmDependencyMode) {
        (self.path@, self.mode)
    }

    fn is_same(&self, other: &Self) -> (r: bool) {
        self.mode == other.mode && text::same(&self.path, &other.path)
    }
}

/// What was found in a file, and how the file was then.
#[derive(Debug)]
pub struct NpmCacheEntry {
    pub mtime: FileTime,
    pub size: u64,
    pub suggestions: Vec<Suggestion>,
}

/// What was found in recent files.
pub type NpmDependencyCache = KeyedCache<NpmCacheKey, NpmCacheEntry>;

/// What is kept for a file as it now is. Without a known modification time
/// nothing is.
pub open spec fn kept_suggestions(
    s: Seq<Slot<NpmCacheKey, NpmCacheEntry>>,
    id: (Seq<char>, NpmDependencyMode),
    meta: FileMeta,
) -> Option<Seq<SuggestionView>> {
    match keyed_cache::value_for(s, id) {
        Some(e) => if meta.mtime == Some(e.mtime) && meta.size == e.size {
            Some(types::shown(e.suggestions@))
        } else {
            None
        },
        None => None,
    }
}

/// What was stored for a file is kept while the file stays as it is.
pub proof fn law_kept_while_unchanged(
    s: Seq<Slot<NpmCacheKey, NpmCacheEntry>>,
    e: Slot<NpmCacheKey, NpmCacheEntry>,
)
    ensures
        kept_suggestions(
            keyed_cache::with_slot(s, e),
            e.key.id(),
            FileMeta { mtime: Some(e.value.mtime), size: e.value.size },
        ) == Some(types::shown(e.value.suggestions@)),
{
    keyed_cache::law_stored_value(s, e);
}

/// Whether storing gave the new slots.
pub open spec fn stored_as(
    s: Seq<Slot<NpmCacheKey, NpmCacheEntry>>,
    e: Slot<NpmCacheKey, NpmCacheEntry>,
    id: (Seq<char>, NpmDependencyMode),
    mtime: FileTime,
    size: u64,
    found: Seq<SuggestionView>,
    after: Seq<Slot<NpmCacheKey, NpmCacheEntry>>,
) -> bool {
    &&& after == keyed_cache::with_slot(s, e)
    &&& e.key.id() == id
    &&& e.value.mtime == mtime
    &&& e.value.size == size
    &&& types::shown(e.value.suggestions@) == found
}

/// What is kept of what was found in a file. Without a known modification
/// time nothing is.
pub open spec fn kept_after(
    s: Seq<Slot<NpmCacheKey, NpmCacheEntry>>,
    id: (Seq<char>, NpmDependencyMode),
    meta: FileMeta,
    found: Seq<SuggestionView>,
    after: Seq<Slot<NpmCacheKey, NpmCacheEntry>>,
) -> bool {
    match meta.mtime {
        None => after == s,
        Some(t) => exists|e: Slot<NpmCacheKey, NpmCacheEntry>| #[trigger]
            stored_as(s, e, id, t, meta.size, found, after),
    }
}

/// What reading a file's bytes comes to, and what is kept of it.
pub open spec fn read_result(
    s: Seq<Slot<NpmCacheKey, NpmCacheEntry>>,
    id: (Seq<char>, NpmDependencyMode),
    meta: FileMeta,
    bytes: Option<Vec<u8>>,
    r: Option<Seq<SuggestionView>>,
    after: Seq<Slot<NpmCacheKey, NpmCacheEntry>>,
) -> bool {
    match bytes {
        None => r is None && after == s,
        Some(b) => {
            let found = listing::pairs_shown(dependencies(object_members(b@), id.1));
            &&& r == Some(found)
            &&& kept_after(s, id, meta, found, after)
        },
    }
}

/// The content of an optional list of suggestions.
pub open spec fn opt_list(o: Option<Vec<Suggestion>>) -> Option<Seq<SuggestionView>> {
    match o {
        Some(v) => Some(types::shown(v@)),
        None => None,
    }
}

/// The wanted dependencies of a file: what is kept while the file is
/// unchanged, and otherwise what its bytes hold, which is then kept. `None`
/// where the file cannot be looked at or read.
pub fn cached_dependencies<R: FnOnce() -> Option<Vec<u8>>>(
    cache: &mut NpmDependencyCache,
    path: &str,
    mode: NpmDependencyMode,
    metadata: Option<FileMeta>,
    read: R,
) -> (r: Option<Vec<Suggestion>>)
    requires
        call_requires(read, ()),
    ensures
        match metadata {
            None => r is None && final(cache).items() == old(cache).items(),
            Some(meta) => match kept_suggestions(old(cache).items(), (path@, mode), meta) {
                Some(found) => opt_list(r) == Some(found) && final(cache).items() == old(
                    cache,
                ).items(),
                None => exists|bytes: Option<Vec<u8>>| #[trigger]
                    call_ensures(read, (), bytes) && read_result(
                        old(cache).items(),
                        (path@, mode),
                        meta,
                        bytes,
                        opt_list(r),
                        final(cache).items(),
                    ),
            },
        },
{
    let meta = match metadata {
        Some(m) => m,
        None => {
            return None;
        },
    };
    let key = NpmCacheKey { path: path.to_owned(), mode };
    if let Some(e) = cache.get(&key) {
        if let Some(t) = meta.mtime {
            if e.mtime == t && e.size == meta.size {
                return Some(clone_suggestions(&e.suggestions));
            }
        }
    }
    let got = read();
    let ghost g = got;
    assert(call_ensures(read, (), g));
    let bytes = match got {
        Some(b) => b,
        None => {
            return None;
        },
    };
    let found = parse_npm_dependencies(bytes.as_slice(), mode);
    let ghost shown = listing::pairs_shown(dependencies(object_members(bytes@), mode));
    if let Some(t) = meta.mtime {
        let e = NpmCacheEntry {
            mtime: t,
            size: meta.size,
            suggestions: clone_suggestions(&found),
        };
        let ghost slot = Slot { key, value: e };
        let ghost before = cache.items();
        cache.store(key, e);
        assert(stored_as(
            before,
            slot,
            (path@, mode),
            t,
            meta.size,
            shown,
            cache.items(),
        ));
    }
    assert(kept_after(old(cache).items(), (path@, mode), meta, shown, cache.items()));
    let r = Some(found);
    assert(opt_list(r) == Some(shown));
    assert(read_result(
        old(cache).items(),
        (path@, mode),
        meta,
        g,
        opt_list(r),
        cache.items(),
    ));
    r
}

// ---------------------------------------------------------------------------
// The providers
// ---------------------------------------------------------------------------
/// Dependencies of the nearest `package.json`.
pub struct NpmDependencies;

impl Provider for NpmDependencies {
    open spec fn provider_name(&self) -> Seq<char> {
        "npm_dependencies"@
    }

    fn name(&self) -> (r: &'static str) {
        "npm_dependencies"
    }
}

/// Development dependencies of the nearest `package.json`.
pub struct NpmDevDependencies;

impl Provider for NpmDevDependencies {
    open spec fn provider_name(&self) -> Seq<char> {
        "npm_dev_dependencies"@
    }

    fn name(&self) -> (r: &'static str) {
        "npm_dev_dependencies"
    }
}

/// Both kinds of dependencies of the nearest `package.json`.
pub struct NpmAllDependencies;

impl Provider for NpmAllDependencies {
    open spec fn provider_name(&self) -> Seq<char> {
        "npm_all_dependencies"@
    }

    fn name(&self) -> (r: &'static str) {
        "npm_all_dependencies"
    }
}

} // verus!
