//! Which directories specs are loaded from.
use crate::providers::path_laws;
use crate::providers::paths;
use crate::spec_dirs;
use crate::spec_dirs::SpecDirRoots;
use crate::text;
use crate::text_parts_laws;
use vstd::prelude::*;
use vstd::string::*;

verus! {

/// A path below `~/` is taken from the home directory, if that is known.
/// Every other path stays as it is, one that merely begins with a tilde among
/// them.
pub proof fn law_expanded(path: Seq<char>, rest: Seq<char>, home: Seq<char>)
    requires
        home.len() > 0,
        home[home.len() - 1] != '/',
        rest.len() == 0 || rest[0] != '/',
    ensures
        spec_dirs::expanded(seq!['~', '/'] + rest, Some(home)) == home + seq!['/'] + rest,
        spec_dirs::expanded(seq!['~', '/'] + rest, None) == seq!['~', '/'] + rest,
        !(path.len() >= 2 && path[0] == '~' && path[1] == '/') ==> spec_dirs::expanded(
            path,
            Some(home),
        ) == path && spec_dirs::expanded(path, None) == path,
{
    reveal_strlit("~/");
    let t = seq!['~', '/'];
    assert("~/"@ =~= t);
    text_parts_laws::law_past_prefix(t, rest);
    path_laws::law_joined(home, rest, rest);
    if t.is_prefix_of(path) {
        assert(path[0] == t[0] && path[1] == t[1]);
    }
}

/// Items are kept one by one, in order, by the answers that stand at their
/// own places.
pub proof fn law_kept(
    a: Seq<Seq<char>>,
    x: Seq<char>,
    b: Seq<Seq<char>>,
    p: Seq<bool>,
    w: bool,
    q: Seq<bool>,
    want: bool,
)
    requires
        p.len() == a.len(),
        q.len() == b.len(),
    ensures
        spec_dirs::kept(a + seq![x] + b, p + seq![w] + q, want) == spec_dirs::kept(a, p, want) + (
        if w == want {
            seq![x]
        } else {
            Seq::empty()
        }) + spec_dirs::kept(b, q, want),
    decreases b.len(),
{
    let all = a + seq![x] + b;
    let ans = p + seq![w] + q;
    let one = if w == want {
        seq![x]
    } else {
        Seq::empty()
    };
    if b.len() == 0 {
        assert(all =~= a.push(x));
        assert(all.drop_last() =~= a);
        assert(ans[a.len() as int] == w);
        lemma_kept_prefix(a, p, ans, want);
        assert(spec_dirs::kept(all, ans, want) =~= spec_dirs::kept(a, p, want) + one
            + spec_dirs::kept(b, q, want));
    } else {
        let d = b.drop_last();
        let e = q.drop_last();
        law_kept(a, x, d, p, w, e, want);
        assert(all.drop_last() =~= a + seq![x] + d);
        assert(all.last() == b.last());
        assert(ans[all.len() - 1] == q[b.len() - 1]);
        lemma_kept_prefix(all.drop_last(), p + seq![w] + e, ans, want);
        lemma_kept_prefix(d, e, q, want);
        assert(spec_dirs::kept(all, ans, want) =~= spec_dirs::kept(a, p, want) + one
            + spec_dirs::kept(b, q, want));
    }
}

proof fn lemma_kept_prefix(items: Seq<Seq<char>>, p: Seq<bool>, q: Seq<bool>, want: bool)
    requires
        items.len() <= p.len(),
        items.len() <= q.len(),
        forall|i: int| 0 <= i < items.len() ==> p[i] == q[i],
    ensures
        spec_dirs::kept(items, p, want) == spec_dirs::kept(items, q, want),
    decreases items.len(),
{
    if items.len() > 0 {
        lemma_kept_prefix(items.drop_last(), p, q, want);
    }
}

proof fn lemma_all_kept(items: Seq<Seq<char>>, answers: Seq<bool>, want: bool)
    requires
        items.len() <= answers.len(),
        forall|i: int| 0 <= i < items.len() ==> answers[i] == want,
    ensures
        spec_dirs::kept(items, answers, want) == items,
        spec_dirs::kept(items, answers, !want).len() == 0,
    decreases items.len(),
{
    if items.len() > 0 {
        lemma_all_kept(items.drop_last(), answers, want);
        assert(items.drop_last().push(items.last()) =~= items);
    }
}

/// The usual places are the `specs` directory of the configuration, the one
/// beside the program, and the one in the working directory, in this order
/// and as far as they are known.
pub proof fn law_candidates(config: Seq<char>, dir: Seq<char>, program: Seq<char>)
    requires
        config.len() > 0,
        config[config.len() - 1] != '/',
        path_laws::ends_in_name(dir),
        path_laws::is_name(program),
    ensures
        spec_dirs::candidates(Some(config), Some(dir + seq!['/'] + program)) == seq![
            config + seq!['/'] + "specs"@,
            dir + seq!['/'] + "specs"@,
            "specs"@,
        ],
        spec_dirs::candidates(None, Some(dir + seq!['/'] + program)) == seq![
            dir + seq!['/'] + "specs"@,
            "specs"@,
        ],
        spec_dirs::candidates(Some(config), None) == seq![
            config + seq!['/'] + "specs"@,
            "specs"@,
        ],
        spec_dirs::candidates(None, None) == seq!["specs"@],
{
    reveal_strlit("specs");
    let s = "specs"@;
    assert(s[0] == 's');
    path_laws::law_parent(dir, program);
    path_laws::law_joined(config, s, s);
    path_laws::law_joined(dir, s, s);
    let p = dir + seq!['/'] + program;
    assert(spec_dirs::candidates(Some(config), Some(p)) =~= seq![
        config + seq!['/'] + s,
        dir + seq!['/'] + s,
        s,
    ]);
    assert(spec_dirs::candidates(None, Some(p)) =~= seq![dir + seq!['/'] + s, s]);
    assert(spec_dirs::candidates(Some(config), None) =~= seq![config + seq!['/'] + s, s]);
    assert(spec_dirs::candidates(None, None) =~= seq![s]);
}

/// Where all configured directories exist, exactly they are used, in order
/// and without the specs that are compiled in.
pub proof fn law_configured_directories<F: Fn(&str) -> bool>(
    probe: F,
    configured: Seq<Seq<char>>,
    roots: SpecDirRoots,
    dirs: Seq<Seq<char>>,
    include_embedded: bool,
)
    requires
        spec_dirs::is_resolution(probe, configured, roots, dirs, include_embedded),
        configured.len() > 0,
        forall|q: &str, b: bool| #[trigger] call_ensures(probe, (q,), b) ==> b,
    ensures
        dirs == configured.map_values(
            |p: Seq<char>| spec_dirs::expanded(p, text::opt_view(roots.home)),
        ),
        !include_embedded,
{
    let home = text::opt_view(roots.home);
    let (valid, invalid) = choose|valid: Seq<Seq<char>>, invalid: Seq<Seq<char>>| #[trigger]
        spec_dirs::is_partition(probe, configured, home, valid, invalid) && if valid.len() > 0 {
            dirs == valid && !include_embedded
        } else {
            include_embedded && spec_dirs::is_detected(
                probe,
                text::opt_view(roots.config_dir),
                text::opt_view(roots.exe),
                dirs,
            )
        };
    let all = spec_dirs::expanded_all(configured, home);
    let answers = choose|answers: Seq<bool>| #[trigger]
        spec_dirs::all_answered(probe, all, answers) && valid == spec_dirs::kept(all, answers, true)
            && invalid == spec_dirs::kept(configured, answers, false);
    assert forall|i: int| 0 <= i < all.len() implies answers[i] by {
        assert(paths::answered(probe, all[i], answers[i]));
    }
    lemma_all_kept(all, answers, true);
}

/// Where no directory exists at all, none is used, and the compiled-in specs
/// are.
pub proof fn law_no_directories<F: Fn(&str) -> bool>(
    probe: F,
    configured: Seq<Seq<char>>,
    roots: SpecDirRoots,
    dirs: Seq<Seq<char>>,
    include_embedded: bool,
)
    requires
        spec_dirs::is_resolution(probe, configured, roots, dirs, include_embedded),
        forall|q: &str, b: bool| #[trigger] call_ensures(probe, (q,), b) ==> !b,
    ensures
        dirs.len() == 0,
        include_embedded,
{
    let home = text::opt_view(roots.home);
    let (valid, invalid) = choose|valid: Seq<Seq<char>>, invalid: Seq<Seq<char>>| #[trigger]
        spec_dirs::is_partition(probe, configured, home, valid, invalid) && if valid.len() > 0 {
            dirs == valid && !include_embedded
        } else {
            include_embedded && spec_dirs::is_detected(
                probe,
                text::opt_view(roots.config_dir),
                text::opt_view(roots.exe),
                dirs,
            )
        };
    let all = spec_dirs::expanded_all(configured, home);
    let answers = choose|answers: Seq<bool>| #[trigger]
        spec_dirs::all_answered(probe, all, answers) && valid == spec_dirs::kept(all, answers, true)
            && invalid == spec_dirs::kept(configured, answers, false);
    assert forall|i: int| 0 <= i < all.len() implies !answers[i] by {
        assert(paths::answered(probe, all[i], answers[i]));
    }
    lemma_all_kept(all, answers, false);
    let c = spec_dirs::candidates(text::opt_view(roots.config_dir), text::opt_view(roots.exe));
    let found = choose|answers: Seq<bool>| #[trigger]
        spec_dirs::all_answered(probe, c, answers) && dirs == spec_dirs::kept(c, answers, true);
    assert forall|i: int| 0 <= i < c.len() implies !found[i] by {
        assert(paths::answered(probe, c[i], found[i]));
    }
    lemma_all_kept(c, found, false);
}

/// Without configured directories, and where all usual places exist, all of
/// them are used and the compiled-in specs follow.
pub proof fn law_usual_directories<F: Fn(&str) -> bool>(
    probe: F,
    roots: SpecDirRoots,
    dirs: Seq<Seq<char>>,
    include_embedded: bool,
)
    requires
        spec_dirs::is_resolution(probe, Seq::empty(), roots, dirs, include_embedded),
        forall|q: &str, b: bool| #[trigger] call_ensures(probe, (q,), b) ==> b,
    ensures
        dirs == spec_dirs::candidates(text::opt_view(roots.config_dir), text::opt_view(roots.exe)),
        include_embedded,
{
    let home = text::opt_view(roots.home);
    let none = Seq::<Seq<char>>::empty();
    let (valid, invalid) = choose|valid: Seq<Seq<char>>, invalid: Seq<Seq<char>>| #[trigger]
        spec_dirs::is_partition(probe, none, home, valid, invalid) && if valid.len() > 0 {
            dirs == valid && !include_embedded
        } else {
            include_embedded && spec_dirs::is_detected(
                probe,
                text::opt_view(roots.config_dir),
                text::opt_view(roots.exe),
                dirs,
            )
        };
    assert(spec_dirs::expanded_all(none, home) =~= none);
    assert(valid.len() == 0);
    let c = spec_dirs::candidates(text::opt_view(roots.config_dir), text::opt_view(roots.exe));
    let found = choose|answers: Seq<bool>| #[trigger]
        spec_dirs::all_answered(probe, c, answers) && dirs == spec_dirs::kept(c, answers, true);
    assert forall|i: int| 0 <= i < c.len() implies found[i] by {
        assert(paths::answered(probe, c[i], found[i]));
    }
    lemma_all_kept(c, found, true);
}

proof fn lemma_kept_by(
    items: Seq<Seq<char>>,
    answers: Seq<bool>,
    want: bool,
    pred: spec_fn(Seq<char>) -> bool,
)
    requires
        items.len() <= answers.len(),
        forall|i: int| 0 <= i < items.len() ==> (answers[i] == want <==> pred(#[trigger] items[i])),
    ensures
        spec_dirs::kept(items, answers, want) == items.filter(pred),
    decreases items.len(),
{
    reveal(Seq::filter);
    if items.len() > 0 {
        assert(items[items.len() - 1] == items.last());
        assert forall|i: int| 0 <= i < items.drop_last().len() implies (answers[i] == want <==> pred(
            #[trigger] items.drop_last()[i],
        )) by {
            assert(items.drop_last()[i] == items[i]);
        }
        lemma_kept_by(items.drop_last(), answers, want, pred);
    }
}

/// Configured paths are parted by whether they are directories once expanded:
/// those that are, expanded and in order; those that are not, as they were
/// configured and in order.
pub proof fn law_partition<F: Fn(&str) -> bool>(
    probe: F,
    there: spec_fn(Seq<char>) -> bool,
    configured: Seq<Seq<char>>,
    home: Option<Seq<char>>,
    valid: Seq<Seq<char>>,
    invalid: Seq<Seq<char>>,
)
    requires
        path_laws::answers_by(probe, there),
        spec_dirs::is_partition(probe, configured, home, valid, invalid),
    ensures
        valid == configured.map_values(|p: Seq<char>| spec_dirs::expanded(p, home)).filter(there),
        invalid == configured.filter(|p: Seq<char>| !there(spec_dirs::expanded(p, home))),
{
    let full = configured.map_values(|p: Seq<char>| spec_dirs::expanded(p, home));
    assert(full =~= spec_dirs::expanded_all(configured, home));
    let answers = choose|answers: Seq<bool>| #[trigger]
        spec_dirs::all_answered(probe, full, answers) && valid == spec_dirs::kept(
            full,
            answers,
            true,
        ) && invalid == spec_dirs::kept(configured, answers, false);
    assert forall|i: int| 0 <= i < full.len() implies answers[i] == there(#[trigger] full[i]) by {
        path_laws::law_answers(probe, there, full[i], answers[i]);
    }
    lemma_kept_by(full, answers, true, there);
    let bad = |p: Seq<char>| !there(spec_dirs::expanded(p, home));
    assert forall|i: int| 0 <= i < configured.len() implies (answers[i] == false <==> bad(
        #[trigger] configured[i],
    )) by {
        assert(full[i] == spec_dirs::expanded(configured[i], home));
    }
    lemma_kept_by(configured, answers, false, bad);
}

/// Specs come from the configured paths that are directories; only where none
/// is, from those of the usual places that are, together with the built-in
/// ones.
pub proof fn law_directories<F: Fn(&str) -> bool>(
    probe: F,
    there: spec_fn(Seq<char>) -> bool,
    configured: Seq<Seq<char>>,
    roots: SpecDirRoots,
    dirs: Seq<Seq<char>>,
    include_embedded: bool,
)
    requires
        path_laws::answers_by(probe, there),
        spec_dirs::is_resolution(probe, configured, roots, dirs, include_embedded),
    ensures
        ({
            let good = configured.map_values(
                |p: Seq<char>| spec_dirs::expanded(p, text::opt_view(roots.home)),
            ).filter(there);
            &&& include_embedded <==> good.len() == 0
            &&& good.len() > 0 ==> dirs == good
            &&& good.len() == 0 ==> dirs == spec_dirs::candidates(
                text::opt_view(roots.config_dir),
                text::opt_view(roots.exe),
            ).filter(there)
        }),
{
    let home = text::opt_view(roots.home);
    let (valid, invalid) = choose|valid: Seq<Seq<char>>, invalid: Seq<Seq<char>>| #[trigger]
        spec_dirs::is_partition(probe, configured, home, valid, invalid) && if valid.len() > 0 {
            dirs == valid && !include_embedded
        } else {
            include_embedded && spec_dirs::is_detected(
                probe,
                text::opt_view(roots.config_dir),
                text::opt_view(roots.exe),
                dirs,
            )
        };
    law_partition(probe, there, configured, home, valid, invalid);
    if valid.len() == 0 {
        let usual = spec_dirs::candidates(
            text::opt_view(roots.config_dir),
            text::opt_view(roots.exe),
        );
        let answers = choose|answers: Seq<bool>| #[trigger]
            spec_dirs::all_answered(probe, usual, answers) && dirs == spec_dirs::kept(
                usual,
                answers,
                true,
            );
        assert forall|i: int| 0 <= i < usual.len() implies answers[i] == there(#[trigger] usual[i]) by {
            path_laws::law_answers(probe, there, usual[i], answers[i]);
        }
        lemma_kept_by(usual, answers, true, there);
    }
}

} // verus!
