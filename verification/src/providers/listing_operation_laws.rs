//! What the operations that read listings come to, from the text that a tool
//! prints to the suggestions.
use crate::providers::brew;
use crate::providers::context::ProviderCtx;
use crate::providers::dscl_principals;
use crate::providers::dscl_principals::PrincipalNode;
use crate::providers::listing;
use crate::providers::local_project::cargo_workspace;
use crate::providers::local_project::cargo_workspace::MemberInfo;
use crate::providers::local_project::makefile;
use crate::providers::local_project::npm_scripts;
use crate::providers::local_project::npm_scripts::NpmScriptEntry;
use crate::providers::macos_apps;
use crate::providers::macos_defaults;
use crate::providers::pandoc;
use crate::providers::pandoc::PandocFormats;
use crate::providers::path_laws;
use crate::providers::paths;
use crate::providers::systemd_units::{SystemdFilter, SystemdListing, SystemdScope};
use crate::providers::tmux_state;
use crate::providers::tmux_state::TmuxQuery;
use crate::text;
use crate::text_laws;
use crate::text_map;
use crate::types;
use crate::types::Suggestion;
use vstd::prelude::*;
use vstd::string::*;

verus! {

/// Whether the suggestions are one alone, with this text and description.
pub open spec fn is_one(r: Seq<Suggestion>, name: Seq<char>, description: Seq<char>) -> bool {
    r.len() == 1 && r[0]@.text == name && r[0]@.description == Some(description)
}

/// Whether a text is one line that names something: no line end, and no blank
/// at its ends.
pub open spec fn is_line(l: Seq<char>) -> bool {
    text_laws::tight(l) && !l.contains('\n')
}

proof fn lemma_one_line(r: Seq<Suggestion>, l: Seq<char>, d: Seq<char>)
    requires
        is_line(l),
        types::shown(r) == listing::entries(text::lines(l), d),
    ensures
        is_one(r, l, d),
{
    let e = Seq::<char>::empty();
    listing::law_line_entries(e, l, e, e, d);
    assert(e + l + e =~= l);
    assert(types::shown(r).len() == r.len());
    assert(types::shown(r)[0] == r[0]@);
}

/// A line of a listing of what is installed is suggested as it stands, as a
/// formula or as a cask.
pub proof fn law_brew_installed(s: &str, formulae: Vec<Suggestion>, casks: Vec<Suggestion>)
    requires
        is_line(s@),
        call_ensures(brew::parse_formulae_installed_output, (s,), formulae),
        call_ensures(brew::parse_casks_installed_output, (s,), casks),
    ensures
        is_one(formulae@, s@, "installed brew formula"@),
        is_one(casks@, s@, "installed brew cask"@),
{
    lemma_one_line(formulae@, s@, "installed brew formula"@);
    lemma_one_line(casks@, s@, "installed brew cask"@);
}

/// Every name that a search finds is suggested, in order: of formulae as many
/// as the limit allows, of casks and of both all of them.
pub proof fn law_brew_found(
    s: &str,
    cap: usize,
    formulae: Vec<Suggestion>,
    casks: Vec<Suggestion>,
    both: Vec<Suggestion>,
    i: int,
)
    requires
        call_ensures(brew::parse_formulae_searchable_output, (s, cap), formulae),
        call_ensures(brew::parse_casks_searchable_output, (s,), casks),
        call_ensures(brew::parse_packages_searchable_output, (s,), both),
    ensures
        ({
            let f = brew::found_names(s@, brew::BrewSections::Formulae);
            let c = brew::found_names(s@, brew::BrewSections::Casks);
            let b = brew::found_names(s@, brew::BrewSections::All);
            &&& formulae.len() == (if f.len() <= cap {
                f.len()
            } else {
                cap as nat
            })
            &&& 0 <= i < formulae.len() ==> formulae@[i]@.text == f[i]
                && formulae@[i]@.description == Some("brew formula"@)
            &&& casks.len() == c.len()
            &&& 0 <= i < casks.len() ==> casks@[i]@.text == c[i] && casks@[i]@.description == Some(
                "brew cask"@,
            )
            &&& both.len() == b.len()
            &&& 0 <= i < both.len() ==> both@[i]@.text == b[i] && both@[i]@.description == Some(
                "brew formula or cask"@,
            )
        }),
{
    assert(types::shown(formulae@).len() == formulae.len());
    assert(types::shown(casks@).len() == casks.len());
    assert(types::shown(both@).len() == both.len());
    if 0 <= i < formulae.len() {
        assert(types::shown(formulae@)[i] == formulae@[i]@);
    }
    if 0 <= i < casks.len() {
        assert(types::shown(casks@)[i] == casks@[i]@);
    }
    if 0 <= i < both.len() {
        assert(types::shown(both@)[i] == both@[i]@);
    }
}

/// Casks are searched for by a word of their own between the command and the
/// query.
pub proof fn law_cask_search(query: &str, r: Vec<String>)
    requires
        call_ensures(brew::cask_search_args, (query,), r),
    ensures
        r.len() == 3,
        r@[0]@ == "search"@,
        r@[1]@ == "--cask"@,
        r@[2]@ == query@,
{
    let v = text::views(r@);
    assert(v.len() == r.len());
    assert(v[0] == r@[0]@ && v[1] == r@[1]@ && v[2] == r@[2]@);
}

/// A tool is asked unless it is known to be too old.
pub proof fn law_supported(recent: Option<bool>, r: bool)
    requires
        call_ensures(brew::is_supported, (recent,), r),
    ensures
        r <==> recent != Some(false),
{
}

/// Formats are listed by the flag of their direction and described by it; one
/// line is one format.
pub proof fn law_pandoc(
    formats: PandocFormats,
    flag: &'static str,
    description: &'static str,
    s: &str,
    r: Vec<Suggestion>,
)
    requires
        call_ensures(PandocFormats::flag, (formats,), flag),
        call_ensures(PandocFormats::description, (formats,), description),
        call_ensures(pandoc::parse_formats, (s, description), r),
        is_line(s@),
    ensures
        formats is Input ==> flag@ == "--list-input-formats"@ && is_one(
            r@,
            s@,
            "pandoc input format"@,
        ),
        formats is Output ==> flag@ == "--list-output-formats"@ && is_one(
            r@,
            s@,
            "pandoc output format"@,
        ),
{
    lemma_one_line(r@, s@, description@);
}

/// Before the colon of an owner users are completed, behind it groups, each
/// from its own directory.
pub proof fn law_chown_side(token: &str, node: PrincipalNode, path: &'static str, d: &'static str)
    requires
        call_ensures(dscl_principals::chown_node, (token,), node),
        call_ensures(PrincipalNode::path, (node,), path),
        call_ensures(PrincipalNode::description, (node,), d),
    ensures
        token@.contains(':') ==> path@ == "/Groups"@ && d@ == "dscl group"@,
        !token@.contains(':') ==> path@ == "/Users"@ && d@ == "dscl user"@,
{
}

/// Only the listing of the user's units is in the scope of the user, and only
/// that of active units leaves any out.
pub proof fn law_unit_listing(l: SystemdListing, scope: SystemdScope, filter: SystemdFilter)
    requires
        call_ensures(SystemdListing::scope, (l,), scope),
        call_ensures(SystemdListing::filter, (l,), filter),
    ensures
        scope is User <==> l is UserUnits,
        filter is ActiveOnly <==> l is ActiveUnits,
{
}

/// Targets, members and scripts are suggested one for one and in order.
pub proof fn law_one_for_one(
    targets: Vec<String>,
    t: Vec<Suggestion>,
    members: &Vec<MemberInfo>,
    m: Vec<Suggestion>,
    scripts: &Vec<NpmScriptEntry>,
    s: Vec<Suggestion>,
    i: int,
)
    requires
        call_ensures(makefile::target_suggestions, (targets,), t),
        call_ensures(cargo_workspace::member_suggestions, (members,), m),
        call_ensures(npm_scripts::script_suggestions, (scripts,), s),
    ensures
        t.len() == targets.len(),
        m.len() == members.len(),
        s.len() == scripts.len(),
        0 <= i < targets.len() ==> t@[i]@.text == targets@[i]@ && t@[i]@.description == Some(
            "Make target"@,
        ),
        0 <= i < members.len() ==> m@[i]@.text == members@[i]@.name && m@[i]@.description
            == members@[i]@.description,
        0 <= i < scripts.len() ==> s@[i]@.text == scripts@[i]@.name && s@[i]@.description
            == scripts@[i]@.command,
{
    assert(types::shown(t@).len() == t.len());
    assert(types::shown(m@).len() == m.len());
    assert(types::shown(s@).len() == s.len());
    if 0 <= i < targets.len() {
        assert(types::shown(t@)[i] == t@[i]@);
        assert(text::views(targets@)[i] == targets@[i]@);
    }
    if 0 <= i < members.len() {
        assert(types::shown(m@)[i] == m@[i]@);
        assert(cargo_workspace::member_views(members@)[i] == members@[i]@);
    }
    if 0 <= i < scripts.len() {
        assert(types::shown(s@)[i] == s@[i]@);
        assert(npm_scripts::script_views(scripts@)[i] == scripts@[i]@);
    }
}

/// A `package.json` in the directory itself is the one that counts.
pub proof fn law_package_json<F: Fn(&str) -> bool>(
    start: &str,
    is_file: F,
    there: spec_fn(Seq<char>) -> bool,
    r: Option<String>,
)
    requires
        call_ensures(npm_scripts::find_package_json::<F>, (start, is_file), r),
        path_laws::answers_by(is_file, there),
        path_laws::ends_in_name(start@),
        there(start@ + "/package.json"@),
    ensures
        r matches Some(p) && p@ == start@ + "/package.json"@,
{
    let names = seq!["package.json"@];
    let v = text::opt_view(r);
    path_laws::law_upward(is_file, there, start@, names, v);
    reveal_strlit("package.json");
    reveal_strlit("/package.json");
    path_laws::law_joined(start@, "package.json"@, start@);
    assert(start@ + "/package.json"@ =~= start@ + seq!['/'] + "package.json"@);
    assert(paths::ancestor(start@, 0) == Some(start@));
    assert(paths::candidate(start@, names, 0, 0) == start@ + "/package.json"@);
    if v is Some {
        let p = v->Some_0;
        let (k, j) = choose|k: int, j: int|
            0 <= k < 32 && 0 <= j < names.len() && paths::ancestor(start@, k) is Some && p
                == #[trigger] paths::candidate(start@, names, k, j) && (forall|i: int, l: int|
                0 <= i <= k && 0 <= l < names.len() && (i < k || l < j) ==> !there(
                    #[trigger] paths::candidate(start@, names, i, l),
                ));
        assert(j == 0);
    }
}

/// Domains are parted by commas, and each is suggested without the blanks
/// around it.
pub proof fn law_domains(s: &str, a: Seq<char>, b: Seq<char>, r: Vec<Suggestion>)
    requires
        call_ensures(macos_defaults::parse_domains, (s,), r),
        s@ == a + seq![',', ' '] + b,
        text_laws::tight(a),
        text_laws::tight(b),
        !a.contains(','),
        !b.contains(','),
    ensures
        r.len() == 2,
        r@[0]@.text == a,
        r@[1]@.text == b,
        r@[0]@.description == Some("defaults domain"@),
        r@[1]@.description == Some("defaults domain"@),
{
    let d = "defaults domain"@;
    let sb = seq![' '] + b;
    assert(s@ =~= a + seq![','] + sb);
    assert(!sb.contains(',')) by {
        if sb.contains(',') {
            let k = choose|k: int| 0 <= k < sb.len() && sb[k] == ',';
            assert(b[k - 1] == ',');
        }
    }
    text_laws::law_split(a, ',', sb);
    text_laws::law_split(sb, ',', b);
    let e = Seq::<char>::empty();
    text_laws::law_trim(e, a, e);
    text_laws::law_trim(seq![' '], b, e);
    assert(e + a + e =~= a);
    assert(seq![' '] + b + e =~= sb);
    let f = |p: Seq<char>| listing::entry(p, d);
    listing::law_picked_apart(seq![a], seq![sb], a, f);
    listing::law_picked_apart(seq![a], seq![sb], sb, f);
    let all = listing::entries(text::split(s@, ','), d);
    assert(all =~= seq![types::provided(a, Some(d)), types::provided(b, Some(d))]);
    assert(types::shown(r@).len() == r.len());
    assert(types::shown(r@)[0] == r@[0]@);
    assert(types::shown(r@)[1] == r@[1]@);
}

/// Every key of a domain is suggested, with the name of the domain.
pub proof fn law_keys(output: &str, domain: &str, r: Vec<Suggestion>, i: int)
    requires
        call_ensures(macos_defaults::key_suggestions, (output, domain), r),
    ensures
        r.len() == macos_defaults::defaults_keys(output@).len(),
        0 <= i < r.len() ==> r@[i]@.text == macos_defaults::defaults_keys(output@)[i]
            && r@[i]@.description == Some("key in "@ + domain@),
{
    assert(types::shown(r@).len() == r.len());
    if 0 <= i < r.len() {
        assert(types::shown(r@)[i] == r@[i]@);
    }
}

/// Every application of a listing is suggested by its name and described by
/// its path; of the paths the first ones are asked for more, as many as the
/// limit allows.
pub proof fn law_applications(
    mdfind: &str,
    cap: usize,
    r: Vec<Suggestion>,
    asked: Vec<String>,
    i: int,
)
    requires
        call_ensures(macos_apps::application_suggestions, (mdfind,), r),
        call_ensures(macos_apps::app_paths_to_resolve, (mdfind, cap), asked),
    ensures
        ({
            let all = macos_apps::app_paths(mdfind@);
            &&& r.len() == all.len()
            &&& 0 <= i < all.len() ==> r@[i]@.text == macos_apps::app_name(all[i])
                && r@[i]@.description == Some(all[i])
            &&& asked.len() == (if all.len() <= cap {
                all.len()
            } else {
                cap as nat
            })
            &&& 0 <= i < asked.len() ==> asked@[i]@ == all[i]
        }),
{
    assert(types::shown(r@).len() == r.len());
    assert(text::views(asked@).len() == asked.len());
    if 0 <= i < r.len() {
        assert(types::shown(r@)[i] == r@[i]@);
    }
    if 0 <= i < asked.len() {
        assert(text::views(asked@)[i] == asked@[i]@);
    }
}

/// Every principal of a listing is suggested under its name.
pub proof fn law_principals(
    s: &str,
    include_system: bool,
    description: &str,
    r: Vec<Suggestion>,
    i: int,
)
    requires
        call_ensures(
            dscl_principals::parse_principals_output,
            (s, include_system, description),
            r,
        ),
    ensures
        r.len() == dscl_principals::principals(s@, include_system).len(),
        0 <= i < r.len() ==> r@[i]@.text == dscl_principals::principals(s@, include_system)[i]
            && r@[i]@.description == Some(description@),
{
    assert(types::shown(r@).len() == r.len());
    if 0 <= i < r.len() {
        assert(types::shown(r@)[i] == r@[i]@);
    }
}

/// A session of the multiplexer is told by its variable, whatever it holds.
pub proof fn law_inside_tmux(ctx: &ProviderCtx, r: bool)
    requires
        call_ensures(tmux_state::inside_tmux, (ctx,), r),
    ensures
        r <==> text_map::value_of(ctx.env.items(), "TMUX"@) is Some,
{
}

/// The multiplexer is asked for lines of a target, a tab and a remark; windows
/// and panes of all sessions.
pub proof fn law_tmux_command(query: TmuxQuery, r: Vec<String>)
    requires
        call_ensures(TmuxQuery::args, (query,), r),
    ensures
        r.len() >= 3,
        r@[r.len() - 2]@ == "-F"@,
        query is Sessions ==> r@[0]@ == "list-sessions"@ && r.len() == 3,
        query is Windows ==> r@[0]@ == "list-windows"@ && r@[1]@ == "-a"@ && r.len() == 4,
        query is Panes ==> r@[0]@ == "list-panes"@ && r@[1]@ == "-a"@ && r.len() == 4,
        query is Clients ==> r@[0]@ == "list-clients"@ && r.len() == 3,
        query is Sessions ==> r@[2]@ == "#{session_name}\t#{session_windows} windows"@,
        query is Windows ==> r@[3]@
            == "#{session_name}:#{window_index}:#{window_name}\t#{window_panes} panes"@,
        query is Panes ==> r@[3]@
            == "#{session_name}:#{window_index}.#{pane_index}\t#{pane_current_command}"@,
        query is Clients ==> r@[2]@ == "#{client_name}\t#{session_name}"@,
{
    let v = text::views(r@);
    assert(v.len() == r.len());
    assert(forall|i: int| 0 <= i < r.len() ==> v[i] == (#[trigger] r@[i])@);
}

} // verus!
