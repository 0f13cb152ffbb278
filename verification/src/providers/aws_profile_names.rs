//! Profiles of the shared AWS config and credentials files.
use crate::providers::context::{Provider, ProviderCtx};
use crate::providers::keyed_cache;
use crate::providers::keyed_cache::{get_fresh, CacheKey, KeyedCache, Slot, Timed};
use crate::providers::listing;
use crate::providers::local_project::mtime_cache::FileTime;
use crate::providers::paths;
use crate::sorting;
use crate::text;
use crate::text_map;
use crate::text_parts;
use crate::types;
use crate::types::{clone_suggestions, provider_value, Suggestion, SuggestionView};
use vstd::prelude::*;
use vstd::string::*;

verus! {

/// How long profiles are kept, in milliseconds.
pub const PROFILE_CACHE_TTL_MS: u64 = 30000;

// ---------------------------------------------------------------------------
// Sections
// ---------------------------------------------------------------------------
/// The section that a line opens: what stands in brackets at its beginning.
pub open spec fn section_of(line: Seq<char>) -> Option<Seq<char>> {
    let t = text::trimmed(line);
    if t.len() > 0 && t[0] == '[' {
        match text::split_first(t.skip(1), ']') {
            Some((s, _)) => text_parts::cleaned(s),
            None => None,
        }
    } else {
        None
    }
}

/// The sections of a file, in order.
pub open spec fn sections(contents: Seq<char>) -> Seq<Seq<char>> {
    listing::picked(text::lines(contents), |l: Seq<char>| section_of(l))
}

/// The profile that a section of the config file is about: `default`, or what
/// follows `profile`.
pub open spec fn config_profile(section: Seq<char>) -> Option<Seq<char>> {
    if section == "default"@ {
        Some(section)
    } else {
        match text_parts::past_prefix(section, "profile "@) {
            Some(rest) => text_parts::cleaned(rest),
            None => None,
        }
    }
}

/// The profile that a section of the credentials file is about: its name. One
/// of several words is none.
pub open spec fn credentials_profile(section: Seq<char>) -> Option<Seq<char>> {
    if text::words(section).len() == 1 {
        Some(text::trimmed(section))
    } else {
        None
    }
}

/// The profiles of a config file.
pub open spec fn config_profiles(contents: Seq<char>) -> Seq<Seq<char>> {
    listing::picked(sections(contents), |s: Seq<char>| config_profile(s))
}

/// The profiles of a credentials file.
pub open spec fn credentials_profiles(contents: Seq<char>) -> Seq<Seq<char>> {
    listing::picked(sections(contents), |s: Seq<char>| credentials_profile(s))
}

fn section_in(line: &str) -> (r: Option<String>)
    ensures
        text::opt_view(r) == section_of(line@),
{
    let t = text::trim(line);
    let x = text::chars_of(&t);
    if x.len() == 0 || x[0] != '[' {
        return None;
    }
    let rest = text::string_of(&x, 1, x.len());
    assert(rest@ =~= t@.skip(1));
    match text::split_once(&rest, ']') {
        Some((s, _)) => text_parts::clean(&s),
        None => None,
    }
}

/// The sections of a file, in order.
pub fn ini_sections(contents: &str) -> (r: Vec<String>)
    ensures
        text::views(r@) == sections(contents@),
{
    let lines = text::lines_of(contents);
    let ghost all = text::lines(contents@);
    let ghost f = |l: Seq<char>| section_of(l);
    let mut out: Vec<String> = Vec::new();
    let mut i: usize = 0;
    proof {
        assert(all.take(0) =~= Seq::empty());
        assert(text::views(out@) =~= Seq::empty());
    }
    while i < lines.len()
        invariant
            i <= lines.len(),
            all == text::views(lines@),
            f == (|l: Seq<char>| section_of(l)),
            text::views(out@) == listing::picked(all.take(i as int), f),
        decreases lines.len() - i,
    {
        proof {
            assert(all.take(i + 1).drop_last() =~= all.take(i as int));
            assert(all.take(i + 1).last() == lines@[i as int]@);
        }
        if let Some(s) = section_in(&lines[i]) {
            let ghost before = out@;
            out.push(s);
            assert(text::views(out@) =~= text::views(before).push(s@));
        }
        i += 1;
    }
    assert(all.take(all.len() as int) =~= all);
    out
}

/// Adds the profiles of a config file.
pub fn parse_config_profiles(contents: &str, names: &mut Vec<String>)
    ensures
        text::views(final(names)@) == text::views(old(names)@) + config_profiles(contents@),
{
    let found = ini_sections(contents);
    let ghost all = sections(contents@);
    let ghost f = |s: Seq<char>| config_profile(s);
    let ghost start = text::views(names@);
    let mut i: usize = 0;
    proof {
        assert(all.take(0) =~= Seq::empty());
        assert(start + listing::picked(all.take(0), f) =~= start);
    }
    while i < found.len()
        invariant
            i <= found.len(),
            all == text::views(found@),
            f == (|s: Seq<char>| config_profile(s)),
            text::views(names@) == start + listing::picked(all.take(i as int), f),
        decreases found.len() - i,
    {
        proof {
            assert(all.take(i + 1).drop_last() =~= all.take(i as int));
            assert(all.take(i + 1).last() == found@[i as int]@);
        }
        let profile = if text::same(&found[i], "default") {
            Some(found[i].clone())
        } else {
            match text_parts::strip_prefix(&found[i], "profile ") {
                Some(rest) => text_parts::clean(&rest),
                None => None,
            }
        };
        assert(text::opt_view(profile) == config_profile(found@[i as int]@));
        if let Some(p) = profile {
            let ghost before = names@;
            names.push(p);
            assert(text::views(names@) =~= text::views(before).push(p@));
            assert(text::views(names@) =~= start + listing::picked(all.take(i + 1), f));
        }
        i += 1;
    }
    assert(all.take(all.len() as int) =~= all);
}

/// Adds the profiles of a credentials file.
pub fn parse_credentials_profiles(contents: &str, names: &mut Vec<String>)
    ensures
        text::views(final(names)@) == text::views(old(names)@) + credentials_profiles(contents@),
{
    let found = ini_sections(contents);
    let ghost all = sections(contents@);
    let ghost f = |s: Seq<char>| credentials_profile(s);
    let ghost start = text::views(names@);
    let mut i: usize = 0;
    proof {
        assert(all.take(0) =~= Seq::empty());
        assert(start + listing::picked(all.take(0), f) =~= start);
    }
    while i < found.len()
        invariant
            i <= found.len(),
            all == text::views(found@),
            f == (|s: Seq<char>| credentials_profile(s)),
            text::views(names@) == start + listing::picked(all.take(i as int), f),
        decreases found.len() - i,
    {
        proof {
            assert(all.take(i + 1).drop_last() =~= all.take(i as int));
            assert(all.take(i + 1).last() == found@[i as int]@);
        }
        let words = text::words_of(&found[i]);
        assert(text::views(words@).len() == words@.len());
        if words.len() == 1 {
            let p = text::trim(&found[i]);
            let ghost before = names@;
            names.push(p);
            assert(text::views(names@) =~= text::views(before).push(p@));
            assert(text::views(names@) =~= start + listing::picked(all.take(i + 1), f));
        }
        i += 1;
    }
    assert(all.take(all.len() as int) =~= all);
}

/// The profiles of both files. A file that cannot be read has none.
pub open spec fn all_profiles(
    config: Option<Seq<char>>,
    credentials: Option<Seq<char>>,
) -> Seq<Seq<char>> {
    (match config {
        Some(c) => config_profiles(c),
        None => Seq::empty(),
    }) + (match credentials {
        Some(c) => credentials_profiles(c),
        None => Seq::empty(),
    })
}

/// The profiles of both files, in order of their names and each once.
pub fn read_profile_names(config: &Option<String>, credentials: &Option<String>) -> (r: Vec<
    String,
>)
    ensures
        sorting::is_set_of(
            text::views(r@),
            all_profiles(text::opt_view(*config), text::opt_view(*credentials)),
        ),
{
    let mut names: Vec<String> = Vec::new();
    let ghost none = Seq::<Seq<char>>::empty();
    assert(text::views(names@) =~= none);
    if let Some(c) = config {
        parse_config_profiles(c, &mut names);
        assert(none + config_profiles(c@) =~= config_profiles(c@));
    }
    let ghost first = text::views(names@);
    assert(first + none =~= first);
    if let Some(c) = credentials {
        parse_credentials_profiles(c, &mut names);
    }
    assert(text::views(names@) == all_profiles(
        text::opt_view(*config),
        text::opt_view(*credentials),
    ));
    sorting::set_of(&names)
}

/// Profiles as suggestions.
pub open spec fn profiles_shown(names: Seq<Seq<char>>) -> Seq<SuggestionView> {
    names.map_values(|n: Seq<char>| types::provided(n, Some("aws profile"@)))
}

fn describe(names: &Vec<String>) -> (r: Vec<Suggestion>)
    ensures
        types::shown(r@) == profiles_shown(text::views(names@)),
{
    let mut out: Vec<Suggestion> = Vec::new();
    let mut i: usize = 0;
    while i < names.len()
        invariant
            i <= names.len(),
            out.len() == i,
            forall|j: int|
                0 <= j < i ==> (#[trigger] out@[j])@ == types::provided(
                    names@[j]@,
                    Some("aws profile"@),
                ),
        decreases names.len() - i,
    {
        out.push(provider_value(names[i].clone(), Some("aws profile".to_owned())));
        i += 1;
    }
    assert(types::shown(out@) =~= profiles_shown(text::views(names@)));
    out
}

// ---------------------------------------------------------------------------
// Where the files are
// ---------------------------------------------------------------------------
/// The path of a file: what a variable says, or in the directory for AWS
/// files of the home directory.
pub open spec fn aws_path(
    env: Seq<(Seq<char>, Seq<char>)>,
    variable: Seq<char>,
    home: Option<Seq<char>>,
    file_name: Seq<char>,
) -> Seq<char> {
    match text_map::value_of(env, variable) {
        Some(p) => p,
        None => paths::joined(
            paths::joined(
                match home {
                    Some(h) => h,
                    None => "."@,
                },
                ".aws"@,
            ),
            file_name,
        ),
    }
}

fn path_of(ctx: &ProviderCtx, variable: &str, home: &Option<String>, file_name: &str) -> (r: String)
    ensures
        r@ == aws_path(ctx.env.items(), variable@, text::opt_view(*home), file_name@),
{
    match ctx.env(variable) {
        Some(p) => p.to_owned(),
        None => {
            let dir = match home {
                Some(h) => paths::join(h, ".aws"),
                None => paths::join(".", ".aws"),
            };
            paths::join(&dir, file_name)
        },
    }
}

/// The path of the config file.
pub fn aws_config_path(ctx: &ProviderCtx, home: &Option<String>) -> (r: String)
    ensures
        r@ == aws_path(ctx.env.items(), "AWS_CONFIG_FILE"@, text::opt_view(*home), "config"@),
{
    path_of(ctx, "AWS_CONFIG_FILE", home, "config")
}

/// The path of the credentials file.
pub fn aws_credentials_path(ctx: &ProviderCtx, home: &Option<String>) -> (r: String)
    ensures
        r@ == aws_path(
            ctx.env.items(),
            "AWS_SHARED_CREDENTIALS_FILE"@,
            text::opt_view(*home),
            "credentials"@,
        ),
{
    path_of(ctx, "AWS_SHARED_CREDENTIALS_FILE", home, "credentials")
}

// ---------------------------------------------------------------------------
// The cache
// ---------------------------------------------------------------------------
/// Both files, and when each was changed.
#[derive(Debug)]
pub struct ProfileCacheKey {
    pub config_path: String,
    pub config_mtime: Option<FileTime>,
    pub credentials_path: String,
    pub credentials_mtime: Option<FileTime>,
}

impl CacheKey for ProfileCacheKey {
    type Id = (Seq<char>, Option<FileTime>, Seq<char>, Option<FileTime>);

    open spec fn id(self) -> (Seq<char>, Option<FileTime>, Seq<char>, Option<FileTime>) {
        (self.config_path@, self.config_mtime, self.credentials_path@, self.credentials_mtime)
    }

    fn is_same(&self, other: &Self) -> (r: bool) {
        same_time(&self.config_mtime, &other.config_mtime) && same_time(
            &self.credentials_mtime,
            &other.credentials_mtime,
        ) && text::same(&self.config_path, &other.config_path) && text::same(
            &self.credentials_path,
            &other.credentials_path,
        )
    }
}

fn same_time(a: &Option<FileTime>, b: &Option<FileTime>) -> (r: bool)
    ensures
        r == (*a == *b),
{
    match (a, b) {
        (Some(x), Some(y)) => *x == *y,
        (None, None) => true,
        _ => false,
    }
}

/// Profiles that were found lately.
pub type ProfileCache = KeyedCache<ProfileCacheKey, Timed<Vec<Suggestion>>>;

/// What was read of a file.
pub open spec fn read_as<F: Fn(&str) -> Option<String>>(
    read: F,
    path: Seq<char>,
    contents: Option<Seq<char>>,
) -> bool {
    exists|q: &str, got: Option<String>|
        q@ == path && #[trigger] call_ensures(read, (q,), got) && text::opt_view(got) == contents
}

/// What both files come to.
pub open spec fn read_result<F: Fn(&str) -> Option<String>>(
    read: F,
    key: ProfileCacheKey,
    found: Seq<SuggestionView>,
) -> bool {
    exists|config: Option<Seq<char>>, credentials: Option<Seq<char>>, names: Seq<Seq<char>>| #[trigger]
        sorting::is_set_of(names, all_profiles(config, credentials)) && read_as(
            read,
            key.config_path@,
            config,
        ) && read_as(read, key.credentials_path@, credentials) && found == profiles_shown(names)
}

/// Whether storing gave the new slots.
pub open spec fn stored_as(
    s: Seq<Slot<ProfileCacheKey, Timed<Vec<Suggestion>>>>,
    e: Slot<ProfileCacheKey, Timed<Vec<Suggestion>>>,
    key: ProfileCacheKey,
    found: Seq<SuggestionView>,
    after: Seq<Slot<ProfileCacheKey, Timed<Vec<Suggestion>>>>,
) -> bool {
    &&& after == keyed_cache::with_slot(s, e)
    &&& e.key == key
    &&& types::shown(e.value.value@) == found
}

/// The profiles as suggestions: those that were found lately in the same
/// files, and otherwise those that are in the files, which are then kept. What
/// was kept is looked up at `now`; what is read is kept as of the time that
/// `clock` tells once the files are read.
pub fn profile_suggestions<F: Fn(&str) -> Option<String>, C: Fn() -> u64>(
    cache: &mut ProfileCache,
    key: ProfileCacheKey,
    now: u64,
    read: &F,
    clock: &C,
) -> (r: Vec<Suggestion>)
    requires
        forall|q: &str| #[trigger] call_requires(*read, (q,)),
        call_requires(*clock, ()),
    ensures
        match keyed_cache::fresh_value(old(cache).items(), key.id(), now, PROFILE_CACHE_TTL_MS) {
            Some(v) => types::shown(r@) == types::shown(v@) && final(cache).items() == old(
                cache,
            ).items(),
            None => {
                &&& read_result(*read, key, types::shown(r@))
                &&& exists|e: Slot<ProfileCacheKey, Timed<Vec<Suggestion>>>| #[trigger]
                    stored_as(
                        old(cache).items(),
                        e,
                        key,
                        types::shown(r@),
                        final(cache).items(),
                    ) && call_ensures(*clock, (), e.value.stored_at)
            },
        },
{
    if let Some(v) = get_fresh(cache, &key, now, PROFILE_CACHE_TTL_MS) {
        return clone_suggestions(v);
    }
    let p = key.config_path.as_str();
    let config = read(p);
    assert(call_ensures(*read, (p,), config));
    let q = key.credentials_path.as_str();
    let credentials = read(q);
    assert(call_ensures(*read, (q,), credentials));
    let names = read_profile_names(&config, &credentials);
    let found = describe(&names);
    proof {
        assert(read_as(*read, key.config_path@, text::opt_view(config)));
        assert(read_as(*read, key.credentials_path@, text::opt_view(credentials)));
        assert(sorting::is_set_of(
            text::views(names@),
            all_profiles(text::opt_view(config), text::opt_view(credentials)),
        ));
        assert(read_result(*read, key, types::shown(found@)));
    }
    let stored_at: u64 = clock();
    let e = Timed { stored_at, value: clone_suggestions(&found) };
    let ghost slot = Slot { key, value: e };
    let ghost before = cache.items();
    cache.store(key, e);
    assert(stored_as(before, slot, key, types::shown(found@), cache.items()));
    found
}

/// Profiles of the shared AWS config and credentials files.
pub struct AwsProfileNames;

impl Provider for AwsProfileNames {
    open spec fn provider_name(&self) -> Seq<char> {
        "aws_profile_names"@
    }

    fn name(&self) -> (r: &'static str) {
        "aws_profile_names"
    }
}

} // verus!
