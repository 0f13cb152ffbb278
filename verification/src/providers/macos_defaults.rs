//! macOS preference domains and the keys of one domain.
use crate::providers::context::{Provider, ProviderCtx};
use crate::providers::listing;
use crate::text;
use crate::text_map;
use crate::types;
use crate::types::{provider_value, Suggestion};
use vstd::prelude::*;
use vstd::string::*;

verus! {

/// The parameter that holds the word before the current one.
pub const PREV_ARG_KEY: &'static str = "prev_arg";

// ---------------------------------------------------------------------------
// Keys of a domain
// ---------------------------------------------------------------------------
/// How far a property list has been read.
#[verifier::ext_equal]
pub struct PlistState {
    pub keys: Seq<Seq<char>>,
    /// Open braces and parentheses.
    pub depth: int,
    pub in_value: bool,
    pub in_quote: bool,
    /// The characters of the key so far.
    pub key: Seq<char>,
}

/// Before the first character.
pub open spec fn plist_start() -> PlistState {
    PlistState {
        keys: Seq::empty(),
        depth: 0,
        in_value: false,
        in_quote: false,
        key: Seq::empty(),
    }
}

/// Whether characters now belong to a key of the outermost dictionary.
pub open spec fn reads_key(st: PlistState) -> bool {
    st.depth == 1 && !st.in_value
}

/// The keys so far with the one just ended, unless it is blank.
pub open spec fn with_key(keys: Seq<Seq<char>>, key: Seq<char>) -> Seq<Seq<char>> {
    if text::trimmed(key).len() > 0 {
        keys.push(text::trimmed(key))
    } else {
        keys
    }
}

/// One character more. Within quotes nothing but the closing quote has a
/// meaning; outside them only the outermost dictionary has keys.
pub open spec fn plist_step(st: PlistState, c: char) -> PlistState {
    if st.in_quote {
        if c == '"' {
            PlistState { in_quote: false, ..st }
        } else if reads_key(st) {
            PlistState { key: st.key.push(c), ..st }
        } else {
            st
        }
    } else if c == '"' {
        PlistState { in_quote: true, ..st }
    } else if c == '{' || c == '(' {
        PlistState { depth: st.depth + 1, in_value: st.in_value || st.depth + 1 > 1, ..st }
    } else if c == '}' || c == ')' {
        PlistState { depth: st.depth - 1, in_value: st.in_value && st.depth - 1 > 1, ..st }
    } else if c == '=' && reads_key(st) {
        PlistState {
            keys: with_key(st.keys, st.key),
            key: Seq::empty(),
            in_value: true,
            ..st
        }
    } else if c == ';' && st.depth == 1 {
        PlistState { in_value: false, key: Seq::empty(), ..st }
    } else if reads_key(st) && !text::is_white(c) {
        PlistState { key: st.key.push(c), ..st }
    } else {
        st
    }
}

/// The state after the characters.
pub open spec fn plist_read(st: PlistState, s: Seq<char>) -> PlistState
    decreases s.len(),
{
    if s.len() == 0 {
        st
    } else {
        plist_step(plist_read(st, s.drop_last()), s.last())
    }
}

/// The keys of the outermost dictionary, in order.
pub open spec fn defaults_keys(s: Seq<char>) -> Seq<Seq<char>> {
    plist_read(plist_start(), s).keys
}

/// No key is empty or blank.
pub proof fn law_keys_not_blank(s: Seq<char>)
    ensures
        forall|i: int|
            0 <= i < defaults_keys(s).len() ==> !text::is_blank(#[trigger] defaults_keys(s)[i]),
    decreases s.len(),
{
    if s.len() > 0 {
        law_keys_not_blank(s.drop_last());
        let st = plist_read(plist_start(), s.drop_last());
        let t = text::trimmed(st.key);
        text::lemma_trimmed_idempotent(st.key);
        text::lemma_trimmed_empty(t);
        let before = defaults_keys(s.drop_last());
        assert forall|i: int| 0 <= i < defaults_keys(s).len() implies !text::is_blank(
            #[trigger] defaults_keys(s)[i],
        ) by {
            if i < before.len() {
                assert(defaults_keys(s)[i] == before[i]);
            } else {
                assert(defaults_keys(s) == before.push(t));
            }
        }
    }
}

proof fn lemma_quoted_run(st: PlistState, s: Seq<char>)
    requires
        st.in_quote,
        !reads_key(st),
        !s.contains('"'),
    ensures
        plist_read(st, s) == st,
    decreases s.len(),
{
    if s.len() > 0 {
        assert(s.last() == s[s.len() - 1]);
        assert(s.last() != '"');
        let d = s.drop_last();
        assert(!d.contains('"')) by {
            if d.contains('"') {
                let i = choose|i: int| 0 <= i < d.len() && d[i] == '"';
                assert(s[i] == '"');
            }
        }
        lemma_quoted_run(st, d);
    }
}

/// A quoted string within a value changes nothing, whatever braces,
/// parentheses, separators or equal signs stand in it.
pub proof fn law_quoted_value_is_inert(st: PlistState, s: Seq<char>)
    requires
        !st.in_quote,
        !reads_key(st),
        !s.contains('"'),
    ensures
        plist_read(st, seq!['"'] + s + seq!['"']) == st,
{
    let opened = PlistState { in_quote: true, ..st };
    let q = seq!['"'] + s;
    lemma_quoted_run(opened, s);
    lemma_read_concat(st, seq!['"'], s);
    assert(plist_read(st, seq!['"']) == opened) by {
        assert(seq!['"'].drop_last() =~= Seq::<char>::empty());
        assert(plist_read(st, seq!['"'].drop_last()) == st);
    }
    assert((q + seq!['"']).drop_last() =~= q);
}

proof fn lemma_read_concat(st: PlistState, a: Seq<char>, b: Seq<char>)
    ensures
        plist_read(st, a + b) == plist_read(plist_read(st, a), b),
    decreases b.len(),
{
    if b.len() == 0 {
        assert(a + b =~= a);
    } else {
        lemma_read_concat(st, a, b.drop_last());
        assert((a + b).drop_last() =~= a + b.drop_last());
    }
}

/// The keys of the outermost dictionary of what `defaults read` prints.
pub fn parse_defaults_keys(s: &str) -> (r: Vec<String>)
    ensures
        text::views(r@) == defaults_keys(s@),
{
    let x = text::chars_of(s);
    let mut out: Vec<String> = Vec::new();
    let mut depth: i128 = 0;
    let mut in_value = false;
    let mut in_quote = false;
    let mut key = String::new();
    let mut i: usize = 0;
    proof {
        assert(s@.take(0) =~= Seq::empty());
        assert(text::views(out@) =~= Seq::empty());
    }
    while i < x.len()
        invariant
            x@ == s@,
            i <= x.len(),
            -(i as int) <= depth <= i,
            plist_read(plist_start(), s@.take(i as int)) == (PlistState {
                keys: text::views(out@),
                depth: depth as int,
                in_value,
                in_quote,
                key: key@,
            }),
        decreases x.len() - i,
    {
        let c = x[i];
        proof {
            assert(s@.take(i + 1).drop_last() =~= s@.take(i as int));
            assert(s@.take(i + 1).last() == c);
        }
        if in_quote {
            if c == '"' {
                in_quote = false;
            } else if depth == 1 && !in_value {
                key.push(c);
            }
        } else if c == '"' {
            in_quote = true;
        } else if c == '{' || c == '(' {
            depth += 1;
            if depth > 1 {
                in_value = true;
            }
        } else if c == '}' || c == ')' {
            depth -= 1;
            if depth <= 1 {
                in_value = false;
            }
        } else if c == '=' && depth == 1 && !in_value {
            let t = text::trim(&key);
            if !t.as_str().is_empty() {
                let ghost before = out@;
                out.push(t);
                assert(text::views(out@) =~= text::views(before).push(t@));
            }
            key = String::new();
            in_value = true;
        } else if c == ';' && depth == 1 {
            in_value = false;
            key = String::new();
        } else if depth == 1 && !in_value && !text::char_is_white(c) {
            key.push(c);
        }
        i += 1;
    }
    assert(s@.take(s@.len() as int) =~= s@);
    out
}

// ---------------------------------------------------------------------------
// Domains
// ---------------------------------------------------------------------------
/// The domains that `defaults domains` prints on one line, between commas.
pub fn parse_domains(s: &str) -> (r: Vec<Suggestion>)
    ensures
        types::shown(r@) == listing::entries(text::split(s@, ','), "defaults domain"@),
{
    listing::entries_of(&text::split_on(s, ','), "defaults domain")
}

/// The domain that the word before the current one stands for. The flag for
/// the global domain has a name of its own, and one for an application leaves
/// the domain open.
pub open spec fn domain_of(raw: Seq<char>) -> Option<Seq<char>> {
    if raw == "-globalDomain"@ {
        Some("NSGlobalDomain"@)
    } else if raw == "-app"@ {
        None
    } else {
        Some(raw)
    }
}

/// The domain that the word before the current one stands for.
pub fn resolve_domain(raw: &str) -> (r: Option<String>)
    ensures
        text::opt_view(r) == domain_of(raw@),
{
    if text::same(raw, "-globalDomain") {
        Some("NSGlobalDomain".to_owned())
    } else if text::same(raw, "-app") {
        None
    } else {
        Some(raw.to_owned())
    }
}

/// The domain that a request is about.
pub open spec fn requested_domain(params: Seq<(Seq<char>, Seq<char>)>) -> Option<Seq<char>> {
    match text_map::value_of(params, PREV_ARG_KEY@) {
        Some(raw) => domain_of(raw),
        None => None,
    }
}

/// The domain that a request is about. Without one nothing is read.
pub fn domain_from_ctx(ctx: &ProviderCtx) -> (r: Option<String>)
    ensures
        text::opt_view(r) == requested_domain(ctx.params.items()),
{
    match ctx.params.get(PREV_ARG_KEY) {
        Some(raw) => resolve_domain(raw),
        None => None,
    }
}

/// The keys of a domain as suggestions, from what `defaults read` prints for
/// it.
pub fn key_suggestions(output: &str, domain: &str) -> (r: Vec<Suggestion>)
    ensures
        types::shown(r@) == defaults_keys(output@).map_values(
            |k: Seq<char>| types::provided(k, Some("key in "@ + domain@)),
        ),
{
    let keys = parse_defaults_keys(output);
    let mut description = "key in ".to_owned();
    description.append(domain);
    let mut out: Vec<Suggestion> = Vec::new();
    let mut i: usize = 0;
    while i < keys.len()
        invariant
            i <= keys.len(),
            out.len() == i,
            description@ == "key in "@ + domain@,
            forall|j: int|
                0 <= j < i ==> (#[trigger] out@[j])@ == types::provided(
                    keys@[j]@,
                    Some(description@),
                ),
        decreases keys.len() - i,
    {
        out.push(provider_value(keys[i].clone(), Some(description.clone())));
        i += 1;
    }
    proof {
        let want = defaults_keys(output@).map_values(
            |k: Seq<char>| types::provided(k, Some("key in "@ + domain@)),
        );
        assert(text::views(keys@) == defaults_keys(output@));
        assert(types::shown(out@).len() == want.len());
        assert forall|j: int| 0 <= j < want.len() implies types::shown(out@)[j] == want[j] by {
            assert(out@[j]@ == types::provided(keys@[j]@, Some(description@)));
            assert(text::views(keys@)[j] == keys@[j]@);
        }
        assert(types::shown(out@) =~= want);
    }
    out
}

// ---------------------------------------------------------------------------
// The providers
// ---------------------------------------------------------------------------
/// macOS preference domains.
pub struct DefaultsDomains;

impl Provider for DefaultsDomains {
    open spec fn provider_name(&self) -> Seq<char> {
        "defaults_domains"@
    }

    fn name(&self) -> (r: &'static str) {
        "defaults_domains"
    }
}

/// The keys of a macOS preference domain.
pub struct DefaultsKeys;

impl Provider for DefaultsKeys {
    open spec fn provider_name(&self) -> Seq<char> {
        "defaults_keys"@
    }

    fn name(&self) -> (r: &'static str) {
        "defaults_keys"
    }
}

} // verus!
