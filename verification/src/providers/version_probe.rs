//! Versions of command-line tools, from what they print about themselves.
use crate::providers::keyed_cache;
use crate::providers::keyed_cache::{KeyedCache, Slot};
use crate::text;
use crate::text_parts;
use vstd::prelude::*;
use vstd::string::*;

verus! {

/// A version of a tool.
#[derive(Debug, Clone, Copy, PartialEq, Eq, Structural)]
pub struct Version {
    pub major: u64,
    pub minor: u64,
    pub patch: u64,
}

/// Whether version `a` is `b` or a later one.
pub open spec fn is_at_least(a: Version, b: Version) -> bool {
    a.major > b.major || (a.major == b.major && (a.minor > b.minor || (a.minor == b.minor
        && a.patch >= b.patch)))
}

/// Versions are in one order: of two, one is at least the other, and only
/// equal ones are both.
pub proof fn law_version_order(a: Version, b: Version, c: Version)
    ensures
        is_at_least(a, b) || is_at_least(b, a),
        is_at_least(a, b) && is_at_least(b, a) ==> a == b,
        is_at_least(a, b) && is_at_least(b, c) ==> is_at_least(a, c),
{
}

impl Version {
    pub fn new(major: u64, minor: u64, patch: u64) -> (r: Version)
        ensures
            r == (Version { major, minor, patch }),
    {
        Version { major, minor, patch }
    }

    /// Whether this is `min` or a later version.
    pub fn at_least(&self, min: &Version) -> (r: bool)
        ensures
            r == is_at_least(*self, *min),
    {
        self.major > min.major || (self.major == min.major && (self.minor > min.minor || (self.minor
            == min.minor && self.patch >= min.patch)))
    }
}

// ---------------------------------------------------------------------------
// Reading a version
// ---------------------------------------------------------------------------
/// Whether a character can be part of a version.
pub open spec fn in_token(c: char) -> bool {
    text::is_digit(c) || 'a' <= c <= 'z' || 'A' <= c <= 'Z' || c == '.' || c == '-'
}

fn is_in_token(c: char) -> (r: bool)
    ensures
        r == in_token(c),
{
    text::char_is_digit(c) || ('a' <= c && c <= 'z') || ('A' <= c && c <= 'Z') || c == '.' || c
        == '-'
}

/// The first index from `i` on whose character is in no token, or the length.
pub open spec fn token_end(s: Seq<char>, i: int) -> int
    decreases s.len() - i,
{
    if 0 <= i < s.len() && in_token(s[i]) {
        token_end(s, i + 1)
    } else {
        i
    }
}

/// The version that a token stands for: up to three numbers between dots,
/// after a `v` and before a dash. Missing and odd later numbers are zero.
pub open spec fn token_version(token: Seq<char>) -> Option<Version> {
    let t = text_parts::without_ends(text_parts::without_front(token, 'v', 'V'), '.', '-');
    let parts = text::split(
        text_parts::without_ends(text::split(t, '-')[0], '.', '.'),
        '.',
    );
    if t.len() == 0 || parts.len() > 3 {
        None
    } else {
        match text_parts::number_of(parts[0]) {
            Some(major) => Some(
                Version { major, minor: part_number(parts, 1), patch: part_number(parts, 2) },
            ),
            None => None,
        }
    }
}

/// The number at `i`, or zero.
pub open spec fn part_number(parts: Seq<Seq<char>>, i: int) -> u64 {
    if i < parts.len() {
        match text_parts::number_of(parts[i]) {
            Some(n) => n,
            None => 0,
        }
    } else {
        0
    }
}

/// The first version among the tokens of `s[i..]`.
pub open spec fn version_from(s: Seq<char>, i: int) -> Option<Version>
    decreases s.len() - i,
    when 0 <= i <= s.len()
    via version_from_ends
{
    let j = token_end(s, i);
    match token_version(s.subrange(i, j)) {
        Some(v) => Some(v),
        None => if j < s.len() {
            version_from(s, j + 1)
        } else {
            None
        },
    }
}

proof fn lemma_token_end(s: Seq<char>, i: int)
    requires
        0 <= i <= s.len(),
    ensures
        i <= token_end(s, i) <= s.len(),
    decreases s.len() - i,
{
    if i < s.len() && in_token(s[i]) {
        lemma_token_end(s, i + 1);
    }
}

#[via_fn]
proof fn version_from_ends(s: Seq<char>, i: int) {
    lemma_token_end(s, i);
}

/// The first version in a text.
pub open spec fn version_in(s: Seq<char>) -> Option<Version> {
    version_from(s, 0)
}

fn number_at(parts: &Vec<String>, i: usize) -> (r: u64)
    ensures
        r == part_number(text::views(parts@), i as int),
{
    if i < parts.len() {
        match text_parts::parse_number(&parts[i]) {
            Some(n) => n,
            None => 0,
        }
    } else {
        0
    }
}

fn parse_token(token: &str) -> (r: Option<Version>)
    ensures
        r == token_version(token@),
{
    let front = text_parts::trim_front(token, 'v', 'V');
    let t = text_parts::trim_ends(&front, '.', '-');
    if t.as_str().is_empty() {
        return None;
    }
    let dashed = text::split_on(&t, '-');
    assert(text::views(dashed@)[0] == dashed@[0]@);
    let parts = text::split_on(&text_parts::trim_ends(&dashed[0], '.', '.'), '.');
    assert(text::views(parts@).len() == parts@.len());
    if parts.len() > 3 {
        return None;
    }
    match text_parts::parse_number(&parts[0]) {
        Some(major) => Some(Version::new(major, number_at(&parts, 1), number_at(&parts, 2))),
        None => None,
    }
}

/// The first version that a tool's output names.
pub fn parse_version(output: &str) -> (r: Option<Version>)
    ensures
        r == version_in(output@),
{
    let x = text::chars_of(output);
    let mut i: usize = 0;
    loop
        invariant
            x@ == output@,
            i <= x.len(),
            version_in(output@) == version_from(output@, i as int),
        decreases x.len() - i,
    {
        let mut j: usize = i;
        while j < x.len() && is_in_token(x[j])
            invariant
                x@ == output@,
                i <= j <= x.len(),
                token_end(output@, i as int) == token_end(output@, j as int),
            decreases x.len() - j,
        {
            j += 1;
        }
        let token = text::string_of(&x, i, j);
        if let Some(v) = parse_token(&token) {
            return Some(v);
        }
        if j == x.len() {
            return None;
        }
        i = j + 1;
    }
}

/// The version that a requirement names.
pub fn parse_min_version(s: &str) -> (r: Option<Version>)
    ensures
        r == version_in(s@),
{
    parse_version(s)
}

// ---------------------------------------------------------------------------
// Probing
// ---------------------------------------------------------------------------
/// Versions by the command that was run for them; `None` where none was found.
pub type VersionCache = KeyedCache<String, Option<Version>>;

/// The key of a probe: the binary and its arguments, with null characters
/// between them.
pub open spec fn probe_id(binary: Seq<char>, args: Seq<Seq<char>>) -> Seq<char> {
    binary + "\0"@ + text_parts::joined(args, "\0"@)
}

/// The key of a probe.
pub fn probe_key(binary: &str, args: &Vec<String>) -> (r: String)
    ensures
        r@ == probe_id(binary@, text::views(args@)),
{
    text_parts::concat3(binary, "\0", &text_parts::join_all(args, "\0"))
}

/// Whether a requirement is met. Without a known version that is open.
pub open spec fn meets(version: Option<Version>, min: Version) -> Option<bool> {
    match version {
        Some(v) => Some(is_at_least(v, min)),
        None => None,
    }
}

fn check_min(version: &Option<Version>, min: &Version) -> (r: Option<bool>)
    ensures
        r == meets(*version, *min),
{
    match version {
        Some(v) => Some(v.at_least(min)),
        None => None,
    }
}

/// What a probe comes to before anything is run.
#[derive(Debug, PartialEq, Eq, Structural)]
pub enum ProbeStep {
    /// The answer is known: it was found out before, or the requirement names
    /// no version.
    Answer(Option<bool>),
    /// The tool has to be run.
    Run(Version),
}

/// What a probe comes to before anything is run.
pub open spec fn probe_step(
    kept: Option<Option<Version>>,
    min: Option<Version>,
) -> ProbeStep {
    match min {
        None => ProbeStep::Answer(None),
        Some(m) => match kept {
            Some(v) => ProbeStep::Answer(meets(v, m)),
            None => ProbeStep::Run(m),
        },
    }
}

/// Starts a probe: answers from the cache where it can.
pub fn begin_probe(cache: &VersionCache, key: &String, min_version: &str) -> (r: ProbeStep)
    ensures
        r == probe_step(
            keyed_cache::value_for(cache.items(), key@),
            version_in(min_version@),
        ),
{
    match parse_min_version(min_version) {
        None => ProbeStep::Answer(None),
        Some(min) => match cache.get(key) {
            Some(v) => ProbeStep::Answer(check_min(v, &min)),
            None => ProbeStep::Run(min),
        },
    }
}

/// Ends a probe: keeps the version that the tool printed, and answers. A tool
/// that could not be run has no output.
pub fn finish_probe(
    cache: &mut VersionCache,
    key: String,
    output: Option<&str>,
    min: &Version,
) -> (r: Option<bool>)
    ensures
        r == meets(
            match output {
                Some(o) => version_in(o@),
                None => None,
            },
            *min,
        ),
        final(cache).items() == keyed_cache::with_slot(
            old(cache).items(),
            Slot {
                key,
                value: match output {
                    Some(o) => version_in(o@),
                    None => None,
                },
            },
        ),
{
    let version = match output {
        Some(o) => parse_version(o),
        None => None,
    };
    cache.store(key, version);
    check_min(&version, min)
}

/// A probe that was finished is answered the same way from then on, for any
/// requirement, without running the tool again.
pub proof fn law_probed_once(
    s: Seq<Slot<String, Option<Version>>>,
    key: String,
    version: Option<Version>,
    min: Version,
)
    ensures
        probe_step(
            keyed_cache::value_for(
                keyed_cache::with_slot(s, Slot { key, value: version }),
                key@,
            ),
            Some(min),
        ) == ProbeStep::Answer(meets(version, min)),
{
    keyed_cache::law_stored_value(s, Slot { key, value: version });
}

} // verus!
