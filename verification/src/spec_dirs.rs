//! Which directories completion specs are loaded from.
use crate::providers::paths;
use crate::text;
use crate::text_parts;
use vstd::prelude::*;
use vstd::string::*;

verus! {

/// Configured directories, by whether they exist.
#[derive(Debug)]
pub struct SpecDirPartition {
    /// The existing ones, as paths.
    pub valid: Vec<String>,
    /// The others, as they were configured.
    pub invalid: Vec<String>,
}

/// The directories to load from, and whether the embedded specs follow them.
#[derive(Debug)]
pub struct SpecDirResolution {
    pub dirs: Vec<String>,
    pub include_embedded: bool,
}

/// Where directories are looked for when none is configured.
#[derive(Debug)]
pub struct SpecDirRoots {
    pub home: Option<String>,
    pub config_dir: Option<String>,
    /// The path of the running program.
    pub exe: Option<String>,
}

/// A configured path with a leading `~/` replaced by the home directory.
pub open spec fn expanded(path: Seq<char>, home: Option<Seq<char>>) -> Seq<char> {
    match (text_parts::past_prefix(path, "~/"@), home) {
        (Some(rest), Some(h)) => paths::joined(h, rest),
        _ => path,
    }
}

/// A configured path with a leading `~/` replaced by the home directory.
pub fn expand_tilde(path: &str, home: &Option<String>) -> (r: String)
    ensures
        r@ == expanded(path@, text::opt_view(*home)),
{
    if let Some(rest) = text_parts::strip_prefix(path, "~/") {
        if let Some(h) = home {
            return paths::join(h, &rest);
        }
    }
    path.to_owned()
}

/// The items whose answer is `want`, in order.
pub open spec fn kept(items: Seq<Seq<char>>, answers: Seq<bool>, want: bool) -> Seq<Seq<char>>
    decreases items.len(),
{
    if items.len() == 0 {
        Seq::empty()
    } else {
        let rest = kept(items.drop_last(), answers, want);
        if answers[items.len() - 1] == want {
            rest.push(items.last())
        } else {
            rest
        }
    }
}

/// Every configured directory lands on exactly one side.
pub proof fn law_partition_covers(configured: Seq<Seq<char>>, found: Seq<Seq<char>>, answers: Seq<bool>)
    requires
        configured.len() == found.len(),
    ensures
        kept(found, answers, true).len() + kept(configured, answers, false).len()
            == configured.len(),
        forall|i: int|
            0 <= i < kept(configured, answers, false).len() ==> configured.contains(
                #[trigger] kept(configured, answers, false)[i],
            ),
    decreases configured.len(),
{
    if configured.len() > 0 {
        let d = configured.drop_last();
        law_partition_covers(d, found.drop_last(), answers);
        let r = kept(configured, answers, false);
        let before = kept(d, answers, false);
        assert forall|i: int| 0 <= i < r.len() implies configured.contains(#[trigger] r[i]) by {
            if i < before.len() {
                assert(r[i] == before[i]);
                let k = choose|k: int| 0 <= k < d.len() && d[k] == before[i];
                assert(configured[k] == r[i]);
            } else {
                assert(configured[configured.len() - 1] == r[i]);
            }
        }
    }
}

/// Whether the answers are what the probe said of the paths.
pub open spec fn all_answered<F: Fn(&str) -> bool>(
    probe: F,
    asked: Seq<Seq<char>>,
    answers: Seq<bool>,
) -> bool {
    answers.len() == asked.len() && forall|i: int|
        0 <= i < asked.len() ==> paths::answered(probe, #[trigger] asked[i], answers[i])
}

fn ask_all<F: Fn(&str) -> bool>(asked: &Vec<String>, is_dir: &F) -> (r: Vec<bool>)
    requires
        forall|q: &str| #[trigger] call_requires(*is_dir, (q,)),
    ensures
        all_answered(*is_dir, text::views(asked@), r@),
{
    let ghost all = text::views(asked@);
    let mut out: Vec<bool> = Vec::new();
    let mut i: usize = 0;
    while i < asked.len()
        invariant
            i <= asked.len(),
            out.len() == i,
            all == text::views(asked@),
            forall|q: &str| #[trigger] call_requires(*is_dir, (q,)),
            forall|j: int| 0 <= j < i ==> paths::answered(*is_dir, #[trigger] all[j], out@[j]),
        decreases asked.len() - i,
    {
        let q = asked[i].as_str();
        let b = is_dir(q);
        assert(call_ensures(*is_dir, (q,), b));
        assert(all[i as int] == q@);
        assert(paths::answered(*is_dir, all[i as int], b));
        out.push(b);
        i += 1;
    }
    out
}

fn keep(items: &Vec<String>, answers: &Vec<bool>, want: bool) -> (r: Vec<String>)
    requires
        items.len() == answers.len(),
    ensures
        text::views(r@) == kept(text::views(items@), answers@, want),
{
    let ghost all = text::views(items@);
    let mut out: Vec<String> = Vec::new();
    let mut i: usize = 0;
    proof {
        assert(all.take(0) =~= Seq::empty());
        assert(text::views(out@) =~= Seq::empty());
    }
    while i < items.len()
        invariant
            i <= items.len(),
            items.len() == answers.len(),
            all == text::views(items@),
            text::views(out@) == kept(all.take(i as int), answers@, want),
        decreases items.len() - i,
    {
        proof {
            assert(all.take(i + 1).drop_last() =~= all.take(i as int));
            assert(all.take(i + 1).last() == items@[i as int]@);
        }
        if answers[i] == want {
            let ghost before = out@;
            out.push(items[i].clone());
            assert(text::views(out@) =~= text::views(before).push(items@[i as int]@));
        }
        i += 1;
    }
    assert(all.take(all.len() as int) =~= all);
    out
}

/// The configured directories as paths.
pub open spec fn expanded_all(
    configured: Seq<Seq<char>>,
    home: Option<Seq<char>>,
) -> Seq<Seq<char>> {
    configured.map_values(|p: Seq<char>| expanded(p, home))
}

fn expand_all(configured: &Vec<String>, home: &Option<String>) -> (r: Vec<String>)
    ensures
        text::views(r@) == expanded_all(text::views(configured@), text::opt_view(*home)),
{
    let mut out: Vec<String> = Vec::new();
    let mut i: usize = 0;
    while i < configured.len()
        invariant
            i <= configured.len(),
            out.len() == i,
            forall|j: int|
                0 <= j < i ==> (#[trigger] out@[j])@ == expanded(
                    configured@[j]@,
                    text::opt_view(*home),
                ),
        decreases configured.len() - i,
    {
        out.push(expand_tilde(&configured[i], home));
        i += 1;
    }
    assert(text::views(out@) =~= expanded_all(text::views(configured@), text::opt_view(*home)));
    out
}

/// Whether the partition is what the answers to the probe make it.
pub open spec fn is_partition<F: Fn(&str) -> bool>(
    probe: F,
    configured: Seq<Seq<char>>,
    home: Option<Seq<char>>,
    valid: Seq<Seq<char>>,
    invalid: Seq<Seq<char>>,
) -> bool {
    exists|answers: Seq<bool>| #[trigger]
        all_answered(probe, expanded_all(configured, home), answers) && valid == kept(
            expanded_all(configured, home),
            answers,
            true,
        ) && invalid == kept(configured, answers, false)
}

/// Parts the configured directories into those that exist and the others.
pub fn partition_spec_dirs<F: Fn(&str) -> bool>(
    configured: &Vec<String>,
    home: &Option<String>,
    is_dir: &F,
) -> (r: SpecDirPartition)
    requires
        forall|q: &str| #[trigger] call_requires(*is_dir, (q,)),
    ensures
        is_partition(
            *is_dir,
            text::views(configured@),
            text::opt_view(*home),
            text::views(r.valid@),
            text::views(r.invalid@),
        ),
        r.valid@.len() + r.invalid@.len() == configured@.len(),
{
    let found = expand_all(configured, home);
    let answers = ask_all(&found, is_dir);
    assert(text::views(found@).len() == found@.len());
    assert(text::views(configured@).len() == configured@.len());
    let valid = keep(&found, &answers, true);
    let invalid = keep(configured, &answers, false);
    proof {
        law_partition_covers(text::views(configured@), text::views(found@), answers@);
        assert(text::views(valid@).len() == valid@.len());
        assert(text::views(invalid@).len() == invalid@.len());
        assert(all_answered(*is_dir, text::views(found@), answers@));
    }
    SpecDirPartition { valid, invalid }
}

/// The directories that are tried when none is configured: the `specs`
/// directory of the configuration, that beside the program, and that in the
/// working directory.
pub open spec fn candidates(
    config_dir: Option<Seq<char>>,
    exe: Option<Seq<char>>,
) -> Seq<Seq<char>> {
    let a = match config_dir {
        Some(d) => seq![paths::joined(d, "specs"@)],
        None => Seq::empty(),
    };
    let exe_dir = match exe {
        Some(e) => paths::parent(e),
        None => None,
    };
    let b = match exe_dir {
        Some(d) => a.push(paths::joined(d, "specs"@)),
        None => a,
    };
    b.push("specs"@)
}

/// Whether the directories are those candidates that the probe says exist.
pub open spec fn is_detected<F: Fn(&str) -> bool>(
    probe: F,
    config_dir: Option<Seq<char>>,
    exe: Option<Seq<char>>,
    dirs: Seq<Seq<char>>,
) -> bool {
    exists|answers: Seq<bool>| #[trigger]
        all_answered(probe, candidates(config_dir, exe), answers) && dirs == kept(
            candidates(config_dir, exe),
            answers,
            true,
        )
}

/// The existing ones of the directories that are tried when none is
/// configured.
pub fn auto_detect_spec_dirs<F: Fn(&str) -> bool>(roots: &SpecDirRoots, is_dir: &F) -> (r: Vec<
    String,
>)
    requires
        forall|q: &str| #[trigger] call_requires(*is_dir, (q,)),
    ensures
        is_detected(
            *is_dir,
            text::opt_view(roots.config_dir),
            text::opt_view(roots.exe),
            text::views(r@),
        ),
{
    let mut tried: Vec<String> = Vec::new();
    assert(text::views(tried@) =~= Seq::empty());
    if let Some(d) = &roots.config_dir {
        tried.push(paths::join(d, "specs"));
        assert(text::views(tried@) =~= seq![paths::joined(d@, "specs"@)]);
    }
    if let Some(e) = &roots.exe {
        if let Some(d) = paths::parent_of(e) {
            let ghost before = tried@;
            tried.push(paths::join(&d, "specs"));
            assert(text::views(tried@) =~= text::views(before).push(
                paths::joined(d@, "specs"@),
            ));
        }
    }
    let ghost before = tried@;
    tried.push("specs".to_owned());
    assert(text::views(tried@) =~= text::views(before).push("specs"@));
    assert(text::views(tried@) == candidates(
        text::opt_view(roots.config_dir),
        text::opt_view(roots.exe),
    ));
    let answers = ask_all(&tried, is_dir);
    assert(text::views(tried@).len() == tried@.len());
    assert(all_answered(*is_dir, text::views(tried@), answers@));
    keep(&tried, &answers, true)
}

/// Whether a resolution is right: existing configured directories are used
/// exactly and without the embedded specs; without any, the usual places are
/// searched and the embedded specs follow.
pub open spec fn is_resolution<F: Fn(&str) -> bool>(
    probe: F,
    configured: Seq<Seq<char>>,
    roots: SpecDirRoots,
    dirs: Seq<Seq<char>>,
    include_embedded: bool,
) -> bool {
    exists|valid: Seq<Seq<char>>, invalid: Seq<Seq<char>>| #[trigger]
        is_partition(probe, configured, text::opt_view(roots.home), valid, invalid) && if valid.len()
            > 0 {
            dirs == valid && !include_embedded
        } else {
            include_embedded && is_detected(
                probe,
                text::opt_view(roots.config_dir),
                text::opt_view(roots.exe),
                dirs,
            )
        }
}

/// The directories to load specs from, and whether the embedded specs follow
/// them.
pub fn resolve_spec_dirs_with_provenance<F: Fn(&str) -> bool>(
    configured: &Vec<String>,
    roots: &SpecDirRoots,
    is_dir: &F,
) -> (r: SpecDirResolution)
    requires
        forall|q: &str| #[trigger] call_requires(*is_dir, (q,)),
    ensures
        is_resolution(
            *is_dir,
            text::views(configured@),
            *roots,
            text::views(r.dirs@),
            r.include_embedded,
        ),
        configured@.len() == 0 ==> r.include_embedded,
{
    let parts = partition_spec_dirs(configured, &roots.home, is_dir);
    let ghost valid = text::views(parts.valid@);
    let ghost invalid = text::views(parts.invalid@);
    assert(is_partition(
        *is_dir,
        text::views(configured@),
        text::opt_view(roots.home),
        valid,
        invalid,
    ));
    if parts.valid.len() > 0 {
        return SpecDirResolution { dirs: parts.valid, include_embedded: false };
    }
    SpecDirResolution { dirs: auto_detect_spec_dirs(roots, is_dir), include_embedded: true }
}

/// The directories to load specs from.
pub fn resolve_spec_dirs<F: Fn(&str) -> bool>(
    configured: &Vec<String>,
    roots: &SpecDirRoots,
    is_dir: &F,
) -> (r: Vec<String>)
    requires
        forall|q: &str| #[trigger] call_requires(*is_dir, (q,)),
    ensures
        exists|embedded: bool| #[trigger]
            is_resolution(*is_dir, text::views(configured@), *roots, text::views(r@), embedded),
{
    let r = resolve_spec_dirs_with_provenance(configured, roots, is_dir);
    assert(is_resolution(
        *is_dir,
        text::views(configured@),
        *roots,
        text::views(r.dirs@),
        r.include_embedded,
    ));
    r.dirs
}

} // verus!
