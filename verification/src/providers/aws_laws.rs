//! Which AWS profiles the files name, and what an answer of the service is
//! shown as.
use crate::providers::aws_profile_names;
use crate::providers::aws_profile_names::ProfileCacheKey;
use crate::providers::aws_sdk;
use crate::providers::aws_sdk::{AwsSdkErrorKind, JsonScalar};
use crate::providers::keyed_cache;
use crate::providers::listing;
use crate::sorting;
use crate::text;
use crate::text_laws;
use crate::text_map;
use crate::text_parts_laws;
use crate::types;
use crate::types::SuggestionView;
use vstd::prelude::*;
use vstd::string::*;

verus! {

// ---------------------------------------------------------------------------
// Sections
// ---------------------------------------------------------------------------
/// A line opens the section that stands in brackets at its beginning, without
/// the white space around it and whatever follows the bracket.
pub proof fn law_section_line(
    front: Seq<char>,
    a: Seq<char>,
    name: Seq<char>,
    b: Seq<char>,
    rest: Seq<char>,
    back: Seq<char>,
)
    requires
        text::is_blank(front),
        text::is_blank(a),
        text::is_blank(b),
        text::is_blank(back),
        text_laws::tight(name),
        !a.contains(']'),
        !b.contains(']'),
        !name.contains(']'),
        rest.len() == 0 || !text::is_white(rest[rest.len() - 1]),
    ensures
        aws_profile_names::section_of(
            front + (seq!['['] + (a + name + b) + seq![']'] + rest) + back,
        ) == Some(name),
        aws_profile_names::section_of(front + (seq!['['] + a + seq![']'] + rest) + back) is None,
        aws_profile_names::section_of(front) is None,
{
    let inner = a + name + b;
    let t = seq!['['] + inner + seq![']'] + rest;
    text_laws::law_white('[');
    text_laws::law_white(']');
    assert(t[0] == '[');
    if rest.len() > 0 {
        assert(t[t.len() - 1] == rest[rest.len() - 1]);
    } else {
        assert(t[t.len() - 1] == ']');
    }
    text_laws::law_trim(front, t, back);
    assert(t.skip(1) =~= inner + seq![']'] + rest);
    assert(!inner.contains(']')) by {
        if inner.contains(']') {
            let k = choose|k: int| 0 <= k < inner.len() && inner[k] == ']';
            if k < a.len() {
                assert(a[k] == ']');
            } else if k < a.len() + name.len() {
                assert(name[k - a.len()] == ']');
            } else {
                assert(b[k - a.len() - name.len()] == ']');
            }
        }
    }
    text_laws::law_split(inner, ']', rest);
    text_laws::law_trim(a, name, b);
    let u = seq!['['] + a + seq![']'] + rest;
    assert(u[0] == '[');
    if rest.len() > 0 {
        assert(u[u.len() - 1] == rest[rest.len() - 1]);
    } else {
        assert(u[u.len() - 1] == ']');
    }
    text_laws::law_trim(front, u, back);
    assert(u.skip(1) =~= a + seq![']'] + rest);
    text_laws::law_split(a, ']', rest);
    text_laws::law_trim_blank(a);
    text_laws::law_trim_blank(front);
}

/// A line that begins otherwise, a comment among them, opens no section, and
/// neither does one without a closing bracket.
pub proof fn law_no_section_line(front: Seq<char>, t: Seq<char>, back: Seq<char>)
    requires
        text::is_blank(front),
        text::is_blank(back),
        text_laws::tight(t),
        t[0] != '[' || !t.contains(']'),
    ensures
        aws_profile_names::section_of(front + t + back) is None,
{
    text_laws::law_trim(front, t, back);
    if t[0] == '[' {
        let u = t.skip(1);
        assert(!u.contains(']')) by {
            if u.contains(']') {
                let k = choose|k: int| 0 <= k < u.len() && u[k] == ']';
                assert(t[k + 1] == ']');
            }
        }
        text_laws::law_split(u, ']', u);
    }
}

/// Lines are read one by one, in order.
pub proof fn law_section_lines(l: Seq<char>, rest: Seq<char>)
    requires
        !l.contains('\n'),
    ensures
        aws_profile_names::sections(l + seq!['\n'] + rest) == (match aws_profile_names::section_of(
            text_laws::unreturned(l),
        ) {
            Some(s) => seq![s],
            None => Seq::empty(),
        }) + aws_profile_names::sections(rest),
{
    let f = |x: Seq<char>| aws_profile_names::section_of(x);
    let u = text_laws::unreturned(l);
    text_laws::law_line_ends(l, rest);
    listing::law_picked_apart(seq![u], text::lines(rest), u, f);
}

// ---------------------------------------------------------------------------
// Profiles
// ---------------------------------------------------------------------------
/// In the config file `default` is a profile, and so is what follows the word
/// `profile` and a space. Other sections are none.
pub proof fn law_config_profile(gap: Seq<char>, name: Seq<char>, back: Seq<char>, section: Seq<char>)
    requires
        text::is_blank(gap),
        text::is_blank(back),
        text_laws::tight(name),
    ensures
        aws_profile_names::config_profile("default"@) == Some("default"@),
        aws_profile_names::config_profile("profile "@ + (gap + name + back)) == Some(name),
        section != "default"@ && !(exists|r: Seq<char>| section == #[trigger] ("profile "@ + r))
            ==> aws_profile_names::config_profile(section) is None,
{
    reveal_strlit("default");
    reveal_strlit("profile ");
    let p = "profile "@;
    let rest = gap + name + back;
    assert((p + rest)[0] == 'p');
    assert("default"@[0] == 'd');
    text_parts_laws::law_past_prefix(p, rest);
    text_parts_laws::law_past_prefix(p, section);
    text_laws::law_trim(gap, name, back);
}

/// In the credentials file every section of one word is a profile of that
/// name, `default` among them. A section of several words is none.
pub proof fn law_credentials_profile(w: Seq<char>, c: char, v: Seq<char>)
    requires
        w.len() > 0,
        text_laws::solid(w),
        v.len() > 0,
        text_laws::solid(v),
        text::is_white(c),
    ensures
        aws_profile_names::credentials_profile(w) == Some(w),
        aws_profile_names::credentials_profile(w + seq![c] + v) is None,
{
    text_laws::law_one_word(w);
    text_laws::law_one_word(v);
    text_laws::law_words_parted(w, c, v);
    assert(!text::is_white(w[0]));
    assert(!text::is_white(w[w.len() - 1]));
    text_laws::law_trim_tight(w);
}

/// The profiles of both files together are suggested: every profile of either
/// is among them, and nothing else is.
pub proof fn law_all_profiles(
    config: Seq<char>,
    credentials: Seq<char>,
    names: Seq<Seq<char>>,
    n: Seq<char>,
)
    requires
        sorting::is_set_of(names, aws_profile_names::all_profiles(Some(config), Some(credentials))),
    ensures
        names.contains(n) <==> aws_profile_names::config_profiles(config).contains(n)
            || aws_profile_names::credentials_profiles(credentials).contains(n),
{
    let a = aws_profile_names::config_profiles(config);
    let b = aws_profile_names::credentials_profiles(credentials);
    let all = a + b;
    if a.contains(n) {
        let k = choose|k: int| 0 <= k < a.len() && a[k] == n;
        assert(all[k] == n);
    }
    if b.contains(n) {
        let k = choose|k: int| 0 <= k < b.len() && b[k] == n;
        assert(all[a.len() + k] == n);
    }
    if all.contains(n) {
        let k = choose|k: int| 0 <= k < all.len() && all[k] == n;
        if k < a.len() {
            assert(a[k] == n);
        } else {
            assert(b[k - a.len()] == n);
        }
    }
    assert(names.contains(n) <==> all.contains(n));
}

/// A file that cannot be read has no profiles, and takes none from the other.
pub proof fn law_unreadable_files(c: Seq<char>)
    ensures
        aws_profile_names::all_profiles(None, Some(c)) == aws_profile_names::credentials_profiles(
            c,
        ),
        aws_profile_names::all_profiles(Some(c), None) == aws_profile_names::config_profiles(c),
        aws_profile_names::all_profiles(None, None).len() == 0,
{
    let e = Seq::<Seq<char>>::empty();
    assert(e + aws_profile_names::credentials_profiles(c)
        =~= aws_profile_names::credentials_profiles(c));
    assert(aws_profile_names::config_profiles(c) + e =~= aws_profile_names::config_profiles(c));
}

/// Sections are looked at one by one, in order.
pub proof fn law_profiles_apart(contents: Seq<char>, i: int)
    requires
        0 <= i < aws_profile_names::sections(contents).len(),
    ensures
        aws_profile_names::config_profile(
            aws_profile_names::sections(contents)[i],
        ) matches Some(n) ==> aws_profile_names::config_profiles(contents).contains(n),
        aws_profile_names::credentials_profile(
            aws_profile_names::sections(contents)[i],
        ) matches Some(n) ==> aws_profile_names::credentials_profiles(contents).contains(n),
{
    let s = aws_profile_names::sections(contents);
    listing::law_all_picked(s, |x: Seq<char>| aws_profile_names::config_profile(x));
    listing::law_all_picked(s, |x: Seq<char>| aws_profile_names::credentials_profile(x));
}

/// A variable that is set decides about the path; else the file is in the
/// directory for AWS files below the home directory, or below the current one
/// where no home is known.
pub proof fn law_aws_path(
    env: Seq<(Seq<char>, Seq<char>)>,
    variable: Seq<char>,
    home: Option<Seq<char>>,
    h: Seq<char>,
    file: Seq<char>,
)
    requires
        h.len() > 0,
        h[h.len() - 1] != '/',
        file.len() > 0,
        file[0] != '/',
    ensures
        text_map::value_of(env, variable) matches Some(p) ==> aws_profile_names::aws_path(
            env,
            variable,
            home,
            file,
        ) == p,
        text_map::value_of(env, variable) is None && home == Some(h)
            ==> aws_profile_names::aws_path(env, variable, home, file) == h + seq!['/'] + ".aws"@
            + seq!['/'] + file,
        text_map::value_of(env, variable) is None && home is None ==> aws_profile_names::aws_path(
            env,
            variable,
            home,
            file,
        ) == "."@ + seq!['/'] + ".aws"@ + seq!['/'] + file,
{
    reveal_strlit(".aws");
    reveal_strlit(".");
    let d = ".aws"@;
    assert(d[0] == '.');
    assert(d.last() == 's');
    let p = h + seq!['/'] + d;
    assert(p.last() == 's');
    let q = "."@ + seq!['/'] + d;
    assert("."@.last() == '.');
    assert(q.last() == 's');
}

/// What was read of the files counts for less than 30 seconds, and an answer
/// of the service for less than a minute.
pub proof fn law_kept_times(stored_at: u64, now: u64)
    requires
        stored_at <= now,
    ensures
        keyed_cache::is_fresh(stored_at, now, aws_profile_names::PROFILE_CACHE_TTL_MS) <==> now
            - stored_at < 30000,
        keyed_cache::is_fresh(stored_at, now, aws_sdk::AWS_SDK_CACHE_TTL_MS) <==> now - stored_at
            < 60000,
{
}

// ---------------------------------------------------------------------------
// Requests
// ---------------------------------------------------------------------------
/// The four listings of the identity service are offered, and nothing else.
pub proof fn law_offered(service: Seq<char>, operation: Seq<char>)
    ensures
        aws_sdk::is_offered("iam"@, "ListRoles"@),
        aws_sdk::is_offered("iam"@, "ListPolicies"@),
        aws_sdk::is_offered("iam"@, "ListUsers"@),
        aws_sdk::is_offered("iam"@, "ListGroups"@),
        service != "iam"@ ==> !aws_sdk::is_offered(service, operation),
        operation != "ListRoles"@ && operation != "ListPolicies"@ && operation != "ListUsers"@
            && operation != "ListGroups"@ ==> !aws_sdk::is_offered(service, operation),
{
}

/// A request names both a service and an operation, and is for one that is
/// offered.
pub proof fn law_requested(params: Seq<(Seq<char>, Seq<char>)>, s: Seq<char>, o: Seq<char>)
    ensures
        text_map::value_of(params, "service"@) == Some(s) && text_map::value_of(
            params,
            "operation"@,
        ) == Some(o) && aws_sdk::is_offered(s, o) ==> aws_sdk::requested(params) == Some((s, o)),
        text_map::value_of(params, "service"@) == Some(s) && text_map::value_of(
            params,
            "operation"@,
        ) == Some(o) && !aws_sdk::is_offered(s, o) ==> aws_sdk::requested(params) is None,
        text_map::value_of(params, "service"@) is None ==> aws_sdk::requested(params) is None,
        text_map::value_of(params, "operation"@) is None ==> aws_sdk::requested(params) is None,
{
}

/// A parameter goes before the variables, and the first variable before the
/// second. A blank value counts as none.
pub proof fn law_setting(
    params: Seq<(Seq<char>, Seq<char>)>,
    env: Seq<(Seq<char>, Seq<char>)>,
    p: Seq<char>,
    a: Seq<char>,
    b: Seq<char>,
    front: Seq<char>,
    v: Seq<char>,
    back: Seq<char>,
)
    requires
        text::is_blank(front),
        text::is_blank(back),
        text_laws::tight(v),
    ensures
        text_map::value_of(params, p) == Some(front + v + back) ==> aws_sdk::setting(
            params,
            env,
            p,
            a,
            b,
        ) == Some(v),
        (text_map::value_of(params, p) is None || text_map::value_of(params, p) == Some(front))
            && text_map::value_of(env, a) == Some(front + v + back) ==> aws_sdk::setting(
            params,
            env,
            p,
            a,
            b,
        ) == Some(v),
        (text_map::value_of(params, p) is None || text_map::value_of(params, p) == Some(front)) && (
        text_map::value_of(env, a) is None || text_map::value_of(env, a) == Some(front))
            && text_map::value_of(env, b) == Some(front + v + back) ==> aws_sdk::setting(
            params,
            env,
            p,
            a,
            b,
        ) == Some(v),
        text_map::value_of(params, p) is None && text_map::value_of(env, a) is None
            && text_map::value_of(env, b) is None ==> aws_sdk::setting(params, env, p, a, b)
            is None,
{
    text_laws::law_trim(front, v, back);
    text_laws::law_trim_blank(front);
}

// ---------------------------------------------------------------------------
// Answers
// ---------------------------------------------------------------------------
/// A text is suggested without white space around it, a number as it is
/// written, a truth value as a word, and nothing else at all.
pub proof fn law_scalar(v: JsonScalar)
    ensures
        v matches JsonScalar::Text(s) ==> !text::is_blank(s@) ==> aws_sdk::scalar_text(v) == Some(
            text::trimmed(s@),
        ),
        v matches JsonScalar::Text(s) ==> text::is_blank(s@) ==> aws_sdk::scalar_text(v) is None,
        v matches JsonScalar::Number(n) ==> aws_sdk::scalar_text(v) == Some(n@),
        v == JsonScalar::Bool(true) ==> aws_sdk::scalar_text(v) == Some("true"@),
        v == JsonScalar::Bool(false) ==> aws_sdk::scalar_text(v) == Some("false"@),
        v is Other ==> aws_sdk::scalar_text(v) is None,
{
    if let JsonScalar::Text(s) = v {
        text::lemma_trimmed_empty(s@);
    }
}

/// Every value with a text is suggested, in order, with the description that
/// stands at its own place, or with none where there is none.
pub proof fn law_values_shown(names: Seq<JsonScalar>, descriptions: Seq<JsonScalar>, n: int)
    requires
        0 <= n < names.len(),
    ensures
        aws_sdk::scalar_text(names[n]) matches Some(t) ==> n < descriptions.len()
            ==> aws_sdk::values_shown(names, descriptions, n + 1) == aws_sdk::values_shown(
            names,
            descriptions,
            n,
        ) + seq![types::provided(t, aws_sdk::scalar_text(descriptions[n]))],
        aws_sdk::scalar_text(names[n]) matches Some(t) ==> n >= descriptions.len()
            ==> aws_sdk::values_shown(names, descriptions, n + 1) == aws_sdk::values_shown(
            names,
            descriptions,
            n,
        ) + seq![types::provided(t, None)],
        aws_sdk::scalar_text(names[n]) is None ==> aws_sdk::values_shown(
            names,
            descriptions,
            n + 1,
        ) == aws_sdk::values_shown(names, descriptions, n),
        aws_sdk::values_shown(names, descriptions, 0).len() == 0,
{
    if let Some(t) = aws_sdk::scalar_text(names[n]) {
        let d = if n < descriptions.len() {
            aws_sdk::scalar_text(descriptions[n])
        } else {
            None
        };
        let before = aws_sdk::values_shown(names, descriptions, n);
        assert(before.push(types::provided(t, d)) =~= before + seq![types::provided(t, d)]);
    }
}

/// Where every value has a text, there are as many suggestions as values.
pub proof fn law_all_values_shown(names: Seq<JsonScalar>, descriptions: Seq<JsonScalar>, n: int)
    requires
        0 <= n <= names.len(),
        forall|i: int| 0 <= i < n ==> aws_sdk::scalar_text(#[trigger] names[i]) is Some,
    ensures
        aws_sdk::values_shown(names, descriptions, n).len() == n,
        forall|i: int|
            0 <= i < n ==> aws_sdk::scalar_text(#[trigger] names[i]) == Some(
                aws_sdk::values_shown(names, descriptions, n)[i].text,
            ),
    decreases n,
{
    if n > 0 {
        law_all_values_shown(names, descriptions, n - 1);
        let before = aws_sdk::values_shown(names, descriptions, n - 1);
        let all = aws_sdk::values_shown(names, descriptions, n);
        assert(aws_sdk::scalar_text(names[n - 1]) is Some);
        assert forall|i: int| 0 <= i < n implies aws_sdk::scalar_text(#[trigger] names[i]) == Some(
            all[i].text,
        ) by {
            if i < n - 1 {
                assert(all[i] == before[i]);
            }
        }
    }
}

/// A failure for want of credentials says how to get them, whatever the
/// service said; one of the network names the request; any other gives the
/// message.
pub proof fn law_failures(s: Seq<char>, o: Seq<char>, m: Seq<char>)
    ensures
        aws_sdk::failure_text(AwsSdkErrorKind::AuthMissing, s, o, m) == aws_sdk::failure_text(
            AwsSdkErrorKind::AuthExpired,
            Seq::empty(),
            Seq::empty(),
            Seq::empty(),
        ),
        aws_sdk::failure_text(AwsSdkErrorKind::Network, s, o, m) == "AWS API unreachable ("@ + s
            + " "@ + o + "); check network connectivity"@,
        aws_sdk::failure_text(AwsSdkErrorKind::Other, s, o, m) == "AWS "@ + s + " "@ + o
            + " failed: "@ + m,
{
}

/// An answer is shown by the values at the path under `field`, described by
/// those at the path under `description_field`. Without the first path, or
/// with nothing there, nothing is shown.
pub proof fn law_response<F: Fn(&str) -> Option<Vec<JsonScalar>>>(
    lookup: F,
    params: Seq<(Seq<char>, Seq<char>)>,
    at: spec_fn(Seq<char>) -> Option<Seq<JsonScalar>>,
    found: Seq<SuggestionView>,
)
    requires
        forall|q: &str, got: Option<Vec<JsonScalar>>| #[trigger]
            call_ensures(lookup, (q,), got) ==> aws_sdk::opt_values(got) == at(q@),
        aws_sdk::is_response_shown(lookup, params, found),
    ensures
        text_map::value_of(params, "field"@) is None ==> found.len() == 0,
        text_map::value_of(params, "field"@) matches Some(p) ==> match at(p) {
            None => found.len() == 0,
            Some(ns) => match text_map::value_of(params, "description_field"@) {
                None => found == aws_sdk::values_shown(ns, Seq::empty(), ns.len() as int),
                Some(d) => found == aws_sdk::values_shown(
                    ns,
                    match at(d) {
                        Some(ds) => ds,
                        None => Seq::empty(),
                    },
                    ns.len() as int,
                ),
            },
        },
{
}

/// What both files come to: the profiles of what is read from the two paths,
/// each once and in order of their names.
pub proof fn law_read_profiles<F: Fn(&str) -> Option<String>>(
    read: F,
    at: spec_fn(Seq<char>) -> Option<Seq<char>>,
    key: ProfileCacheKey,
    found: Seq<SuggestionView>,
    n: Seq<char>,
)
    requires
        forall|q: &str, got: Option<String>| #[trigger]
            call_ensures(read, (q,), got) ==> text::opt_view(got) == at(q@),
        aws_profile_names::read_result(read, key, found),
    ensures
        (exists|i: int| 0 <= i < found.len() && (#[trigger] found[i]).text == n)
            <==> aws_profile_names::all_profiles(
            at(key.config_path@),
            at(key.credentials_path@),
        ).contains(n),
        forall|i: int|
            0 <= i < found.len() ==> (#[trigger] found[i]).description == Some("aws profile"@),
        forall|i: int, j: int|
            0 <= i < j < found.len() ==> text::lex_lt(
                (#[trigger] found[i]).text,
                (#[trigger] found[j]).text,
            ),
{
    let (config, credentials, names) = choose|
        config: Option<Seq<char>>,
        credentials: Option<Seq<char>>,
        names: Seq<Seq<char>>,
    | #[trigger]
        sorting::is_set_of(names, aws_profile_names::all_profiles(config, credentials))
            && aws_profile_names::read_as(read, key.config_path@, config)
            && aws_profile_names::read_as(read, key.credentials_path@, credentials) && found
            == aws_profile_names::profiles_shown(names);
    let all = aws_profile_names::all_profiles(config, credentials);
    assert(config == at(key.config_path@));
    assert(credentials == at(key.credentials_path@));
    assert forall|i: int| 0 <= i < found.len() implies (#[trigger] found[i]).text == names[i] by {}
    assert forall|i: int, j: int| 0 <= i < j < found.len() implies text::lex_lt(
        (#[trigger] found[i]).text,
        (#[trigger] found[j]).text,
    ) by {
        assert(text::lex_lt(names[i], names[j]));
    }
    if all.contains(n) {
        assert(names.contains(n));
        let i = choose|i: int| 0 <= i < names.len() && names[i] == n;
        assert(found[i].text == n);
    }
    if exists|i: int| 0 <= i < found.len() && (#[trigger] found[i]).text == n {
        let i = choose|i: int| 0 <= i < found.len() && (#[trigger] found[i]).text == n;
        assert(names.contains(names[i]));
    }
}

} // verus!
