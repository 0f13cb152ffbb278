//! Installed macOS applications and their bundle identifiers, from what the
//! Spotlight tools print.
use crate::providers::context::Provider;
use crate::providers::listing;
use crate::providers::paths;
use crate::text;
use crate::text_parts;
use crate::types;
use crate::types::{provider_value, Suggestion};
use vstd::prelude::*;
use vstd::string::*;

verus! {

/// How many applications are asked for their bundle identifier.
pub const BUNDLE_ID_RESOLVE_CAP: usize = 500;

// ---------------------------------------------------------------------------
// Applications
// ---------------------------------------------------------------------------
/// The path that a line names, if it is one of an application.
pub open spec fn app_path(line: Seq<char>) -> Option<Seq<char>> {
    let t = text::trimmed(line);
    if ".app"@.is_suffix_of(t) {
        Some(t)
    } else {
        None
    }
}

/// The paths of applications that a listing names.
pub open spec fn app_paths(s: Seq<char>) -> Seq<Seq<char>> {
    listing::picked(text::lines(s), |l: Seq<char>| app_path(l))
}

/// The name of an application: the last part of its path without the ending.
/// A part that is nothing but the ending stays as it is.
pub open spec fn app_name(path: Seq<char>) -> Seq<char> {
    let name = path.skip(paths::after_slash(path, path.len() as int));
    if name.len() <= 4 {
        name
    } else {
        name.take(name.len() - 4)
    }
}

/// The paths of applications that a listing names.
fn all_app_paths(s: &str) -> (r: Vec<String>)
    ensures
        text::views(r@) == app_paths(s@),
{
    let lines = text::lines_of(s);
    let ghost all = text::lines(s@);
    let ghost f = |l: Seq<char>| app_path(l);
    let mut out: Vec<String> = Vec::new();
    let mut i: usize = 0;
    proof {
        assert(all.take(0) =~= Seq::empty());
        assert(text::views(out@) =~= Seq::empty());
    }
    while i < lines.len()
        invariant
            i <= lines.len(),
            all == text::views(lines@),
            f == (|l: Seq<char>| app_path(l)),
            text::views(out@) == listing::picked(all.take(i as int), f),
        decreases lines.len() - i,
    {
        proof {
            assert(all.take(i + 1).drop_last() =~= all.take(i as int));
            assert(all.take(i + 1).last() == lines@[i as int]@);
        }
        let t = text::trim(&lines[i]);
        if text::ends_with(&t, ".app") {
            let ghost before = out@;
            out.push(t);
            assert(text::views(out@) =~= text::views(before).push(t@));
        }
        i += 1;
    }
    assert(all.take(all.len() as int) =~= all);
    out
}

/// The first paths of applications that a listing names, at most `cap`.
pub fn app_paths_to_resolve(mdfind_stdout: &str, cap: usize) -> (r: Vec<String>)
    ensures
        text::views(r@) == ({
            let all = app_paths(mdfind_stdout@);
            if all.len() <= cap {
                all
            } else {
                all.take(cap as int)
            }
        }),
{
    let mut out = all_app_paths(mdfind_stdout);
    let ghost all = text::views(out@);
    if out.len() > cap {
        let _rest = out.split_off(cap);
        assert(text::views(out@) =~= all.take(cap as int));
    }
    out
}

fn name_of(path: &str) -> (r: String)
    ensures
        r@ == app_name(path@),
{
    let x = text::chars_of(path);
    let n: usize = x.len();
    let mut i: usize = n;
    while i > 0 && x[i - 1] != '/'
        invariant
            i <= n,
            n == x.len(),
            x@ == path@,
            paths::after_slash(path@, n as int) == paths::after_slash(path@, i as int),
        decreases i,
    {
        i -= 1;
    }
    let end: usize = if n - i <= 4 {
        n
    } else {
        n - 4
    };
    let r = text::string_of(&x, i, end);
    assert(r@ =~= app_name(path@));
    r
}

/// Names and paths of the applications that a listing names.
pub fn parse_applications(mdfind: &str) -> (r: Vec<(String, String)>)
    ensures
        r@.len() == app_paths(mdfind@).len(),
        forall|i: int|
            0 <= i < r@.len() ==> (#[trigger] r@[i]).1@ == app_paths(mdfind@)[i] && r@[i].0@
                == app_name(app_paths(mdfind@)[i]),
{
    let found = all_app_paths(mdfind);
    let ghost all = app_paths(mdfind@);
    let mut out: Vec<(String, String)> = Vec::new();
    let mut i: usize = 0;
    while i < found.len()
        invariant
            i <= found.len(),
            all == text::views(found@),
            out.len() == i,
            forall|j: int|
                0 <= j < i ==> (#[trigger] out@[j]).1@ == all[j] && out@[j].0@ == app_name(all[j]),
        decreases found.len() - i,
    {
        assert(all[i as int] == found@[i as int]@);
        out.push((name_of(&found[i]), found[i].clone()));
        i += 1;
    }
    out
}

/// The applications that a listing names, as suggestions: name and path.
pub fn application_suggestions(mdfind: &str) -> (r: Vec<Suggestion>)
    ensures
        types::shown(r@) == app_paths(mdfind@).map_values(
            |p: Seq<char>| types::provided(app_name(p), Some(p)),
        ),
{
    let apps = parse_applications(mdfind);
    let mut out: Vec<Suggestion> = Vec::new();
    let mut i: usize = 0;
    while i < apps.len()
        invariant
            i <= apps.len(),
            out.len() == i,
            forall|j: int|
                0 <= j < i ==> (#[trigger] out@[j])@ == types::provided(
                    apps@[j].0@,
                    Some(apps@[j].1@),
                ),
        decreases apps.len() - i,
    {
        out.push(provider_value(apps[i].0.clone(), Some(apps[i].1.clone())));
        i += 1;
    }
    assert(types::shown(out@) =~= app_paths(mdfind@).map_values(
        |p: Seq<char>| types::provided(app_name(p), Some(p)),
    ));
    out
}

// ---------------------------------------------------------------------------
// Bundle identifiers
// ---------------------------------------------------------------------------
/// The identifier that a line gives: what follows an equal sign, or the whole
/// line, without quotes. A missing one is printed as `(null)`.
pub open spec fn line_id(line: Seq<char>) -> Option<Seq<char>> {
    let value = match text::split_first(line, '=') {
        Some((_, rhs)) => rhs,
        None => line,
    };
    let id = text_parts::without_ends(text::trimmed(value), '"', '"');
    if id.len() == 0 || id == "(null)"@ {
        None
    } else {
        Some(id)
    }
}

/// The identifiers so far with one more, unless it is there already.
pub open spec fn with_id(out: Seq<Seq<char>>, id: Option<Seq<char>>) -> Seq<Seq<char>> {
    match id {
        Some(x) => if out.contains(x) {
            out
        } else {
            out.push(x)
        },
        None => out,
    }
}

pub open spec fn ids_of_lines(lines: Seq<Seq<char>>) -> Seq<Seq<char>>
    decreases lines.len(),
{
    if lines.len() == 0 {
        Seq::empty()
    } else {
        with_id(ids_of_lines(lines.drop_last()), line_id(lines.last()))
    }
}

/// The identifiers that an output gives, each where it first occurs.
pub open spec fn bundle_ids(s: Seq<char>) -> Seq<Seq<char>> {
    ids_of_lines(text::lines(s))
}

fn id_of(line: &str) -> (r: Option<String>)
    ensures
        text::opt_view(r) == line_id(line@),
{
    let value = match text::split_once(line, '=') {
        Some((_, rhs)) => rhs,
        None => line.to_owned(),
    };
    let id = text_parts::trim_ends(&text::trim(&value), '"', '"');
    if id.as_str().is_empty() || text::same(&id, "(null)") {
        None
    } else {
        Some(id)
    }
}

/// The identifiers that an output gives, each once.
pub fn parse_bundle_identifiers(mdls: &str) -> (r: Vec<String>)
    ensures
        text::views(r@) == bundle_ids(mdls@),
{
    let lines = text::lines_of(mdls);
    let ghost all = text::lines(mdls@);
    let mut out: Vec<String> = Vec::new();
    let mut i: usize = 0;
    proof {
        assert(all.take(0) =~= Seq::empty());
        assert(text::views(out@) =~= Seq::empty());
    }
    while i < lines.len()
        invariant
            i <= lines.len(),
            all == text::views(lines@),
            text::views(out@) == ids_of_lines(all.take(i as int)),
        decreases lines.len() - i,
    {
        proof {
            assert(all.take(i + 1).drop_last() =~= all.take(i as int));
            assert(all.take(i + 1).last() == lines@[i as int]@);
        }
        if let Some(id) = id_of(&lines[i]) {
            if !text::lists(&out, &id) {
                let ghost before = out@;
                out.push(id);
                assert(text::views(out@) =~= text::views(before).push(id@));
            }
        }
        i += 1;
    }
    assert(all.take(all.len() as int) =~= all);
    out
}

/// The pairs with those of one more path, as far as their identifiers are
/// new.
pub open spec fn with_found(
    pairs: Seq<(Seq<char>, Seq<char>)>,
    found: Seq<Seq<char>>,
    path: Seq<char>,
) -> Seq<(Seq<char>, Seq<char>)>
    decreases found.len(),
{
    if found.len() == 0 {
        pairs
    } else {
        let before = with_found(pairs, found.drop_last(), path);
        if listing::firsts(before).contains(found.last()) {
            before
        } else {
            before.push((found.last(), path))
        }
    }
}

/// Identifiers and the first path that each is from, of the first `n` paths.
/// A path without an output gives none.
pub open spec fn assembled_upto(
    found: Seq<Seq<char>>,
    outputs: Seq<Option<Seq<char>>>,
    n: int,
) -> Seq<(Seq<char>, Seq<char>)>
    decreases n,
{
    if n <= 0 {
        Seq::empty()
    } else {
        let before = assembled_upto(found, outputs, n - 1);
        match outputs[n - 1] {
            Some(o) => with_found(before, bundle_ids(o), found[n - 1]),
            None => before,
        }
    }
}

/// Identifiers and the first path that each is from. Paths and outputs belong
/// together as far as there are both.
pub open spec fn assembled(
    found: Seq<Seq<char>>,
    outputs: Seq<Option<Seq<char>>>,
) -> Seq<(Seq<char>, Seq<char>)> {
    assembled_upto(
        found,
        outputs,
        if found.len() <= outputs.len() {
            found.len() as int
        } else {
            outputs.len() as int
        },
    )
}

proof fn lemma_with_found(
    pairs: Seq<(Seq<char>, Seq<char>)>,
    found: Seq<Seq<char>>,
    path: Seq<char>,
)
    requires
        listing::firsts(pairs).no_duplicates(),
    ensures
        listing::firsts(with_found(pairs, found, path)).no_duplicates(),
        pairs.is_prefix_of(with_found(pairs, found, path)),
    decreases found.len(),
{
    if found.len() > 0 {
        lemma_with_found(pairs, found.drop_last(), path);
        let before = with_found(pairs, found.drop_last(), path);
        let r = with_found(pairs, found, path);
        if !listing::firsts(before).contains(found.last()) {
            assert(listing::firsts(r) =~= listing::firsts(before).push(found.last()));
            assert(pairs =~= r.subrange(0, pairs.len() as int));
        }
    } else {
        assert(pairs =~= pairs.subrange(0, pairs.len() as int));
    }
}

proof fn lemma_assembled(found: Seq<Seq<char>>, outputs: Seq<Option<Seq<char>>>, n: int)
    requires
        n <= found.len(),
        n <= outputs.len(),
    ensures
        listing::firsts(assembled_upto(found, outputs, n)).no_duplicates(),
    decreases n,
{
    if n > 0 {
        lemma_assembled(found, outputs, n - 1);
        match outputs[n - 1] {
            Some(o) => {
                lemma_with_found(
                    assembled_upto(found, outputs, n - 1),
                    bundle_ids(o),
                    found[n - 1],
                );
            },
            None => {},
        }
    }
}

/// No identifier is suggested twice.
pub proof fn law_ids_distinct(found: Seq<Seq<char>>, outputs: Seq<Option<Seq<char>>>)
    ensures
        listing::firsts(assembled(found, outputs)).no_duplicates(),
{
    let n = if found.len() <= outputs.len() {
        found.len() as int
    } else {
        outputs.len() as int
    };
    lemma_assembled(found, outputs, n);
}

/// What earlier paths give comes first and is not changed by later ones.
pub proof fn law_first_path_wins(found: Seq<Seq<char>>, outputs: Seq<Option<Seq<char>>>, m: int, n: int)
    requires
        0 <= m <= n,
        n <= found.len(),
        n <= outputs.len(),
    ensures
        assembled_upto(found, outputs, m).is_prefix_of(assembled_upto(found, outputs, n)),
    decreases n - m,
{
    let a = assembled_upto(found, outputs, m);
    if m < n {
        law_first_path_wins(found, outputs, m, n - 1);
        let b = assembled_upto(found, outputs, n - 1);
        lemma_assembled(found, outputs, n - 1);
        match outputs[n - 1] {
            Some(o) => {
                lemma_with_found(b, bundle_ids(o), found[n - 1]);
                let c = assembled_upto(found, outputs, n);
                assert(a =~= c.subrange(0, a.len() as int)) by {
                    assert(a =~= b.subrange(0, a.len() as int));
                    assert(b =~= c.subrange(0, b.len() as int));
                    assert forall|i: int| 0 <= i < a.len() implies a[i] == c[i] by {
                        assert(a[i] == b.subrange(0, a.len() as int)[i]);
                        assert(b[i] == c.subrange(0, b.len() as int)[i]);
                    }
                }
            },
            None => {},
        }
    } else {
        assert(a =~= a.subrange(0, a.len() as int));
    }
}

/// The views of optional outputs.
pub open spec fn output_views(v: Seq<Option<String>>) -> Seq<Option<Seq<char>>> {
    v.map_values(|o: Option<String>| text::opt_view(o))
}

/// Bundle identifiers as suggestions, each with the first path that it is
/// from. `raw_outputs[i]` is what was printed for `found[i]`, if anything.
pub fn assemble_bundle_identifiers(found: &Vec<String>, raw_outputs: &Vec<Option<String>>) -> (r:
    Vec<Suggestion>)
    ensures
        types::shown(r@) == listing::pairs_shown(
            assembled(text::views(found@), output_views(raw_outputs@)),
        ),
{
    let ghost fs = text::views(found@);
    let ghost os = output_views(raw_outputs@);
    let n: usize = if found.len() <= raw_outputs.len() {
        found.len()
    } else {
        raw_outputs.len()
    };
    let mut out: Vec<Suggestion> = Vec::new();
    let ghost mut pairs: Seq<(Seq<char>, Seq<char>)> = Seq::empty();
    let mut i: usize = 0;
    assert(types::shown(out@) =~= listing::pairs_shown(pairs));
    while i < n
        invariant
            i <= n <= found.len(),
            n <= raw_outputs.len(),
            fs == text::views(found@),
            os == output_views(raw_outputs@),
            pairs == assembled_upto(fs, os, i as int),
            types::shown(out@) == listing::pairs_shown(pairs),
        decreases n - i,
    {
        assert(os[i as int] == text::opt_view(raw_outputs@[i as int]));
        assert(fs[i as int] == found@[i as int]@);
        if let Some(raw) = &raw_outputs[i] {
            let names = parse_bundle_identifiers(raw);
            let ghost all = bundle_ids(raw@);
            let ghost start = pairs;
            let mut k: usize = 0;
            assert(all.take(0) =~= Seq::empty());
            while k < names.len()
                invariant
                    k <= names.len(),
                    i < found.len(),
                    all == text::views(names@),
                    fs == text::views(found@),
                    fs[i as int] == found@[i as int]@,
                    pairs == with_found(start, all.take(k as int), fs[i as int]),
                    types::shown(out@) == listing::pairs_shown(pairs),
                decreases names.len() - k,
            {
                proof {
                    assert(all.take(k + 1).drop_last() =~= all.take(k as int));
                    assert(all.take(k + 1).last() == names@[k as int]@);
                }
                if !listing::knows(&out, &names[k], Ghost(pairs)) {
                    let ghost before = out@;
                    let s = provider_value(names[k].clone(), Some(found[i].clone()));
                    out.push(s);
                    proof {
                        let p = (names@[k as int]@, fs[i as int]);
                        assert(types::shown(out@) =~= types::shown(before).push(s@));
                        assert(listing::pairs_shown(pairs.push(p)) =~= listing::pairs_shown(pairs).push(
                            types::provided(p.0, Some(p.1)),
                        ));
                        pairs = pairs.push(p);
                    }
                }
                k += 1;
            }
            assert(all.take(all.len() as int) =~= all);
        }
        i += 1;
    }
    assert(fs.len() == found.len() && os.len() == raw_outputs.len());
    out
}

// ---------------------------------------------------------------------------
// The providers
// ---------------------------------------------------------------------------
/// Installed macOS applications.
pub struct MacosApplications;

impl Provider for MacosApplications {
    open spec fn provider_name(&self) -> Seq<char> {
        "macos_applications"@
    }

    fn name(&self) -> (r: &'static str) {
        "macos_applications"
    }
}

/// Bundle identifiers of installed macOS applications.
pub struct MacosBundleIdentifiers;

impl Provider for MacosBundleIdentifiers {
    open spec fn provider_name(&self) -> Seq<char> {
        "macos_bundle_identifiers"@
    }

    fn name(&self) -> (r: &'static str) {
        "macos_bundle_identifiers"
    }
}

} // verus!
