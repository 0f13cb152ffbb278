//! What whole operations come to, from their arguments to their results.
use crate::providers::aws_sdk;
use crate::providers::aws_sdk::{AwsCallEnd, AwsRequest, JsonScalar};
use crate::providers::brew;
use crate::providers::cargo_metadata;
use crate::providers::cargo_metadata::CargoMetadataOutput;
use crate::providers::context::ProviderCtx;
use crate::providers::dispatch;
use crate::providers::dispatch::{Dispatched, ProviderQuery};
use crate::providers::docker;
use crate::providers::docker::{DockerKind, DockerRow};
use crate::providers::docker_laws;
use crate::providers::kubectl;
use crate::providers::kind::ProviderKind;
use crate::providers::kubectl::{K8sKind, KubectlCall, KubernetesItem};
use crate::providers::listing;
use crate::providers::local_project::cargo_workspace;
use crate::providers::local_project::cargo_workspace::{
    CargoTomlMin, ResolvedRoot, StampState, WorkspaceScan,
};
use crate::providers::local_project::cargo_workspace_laws;
use crate::providers::local_project::makefile;
use crate::providers::local_project::makefile_laws;
use crate::providers::path_laws;
use crate::providers::paths;
use crate::providers::systemd_units;
use crate::providers::systemd_units::{SystemctlCall, SystemctlStep, SystemdJsonUnit, SystemdScope};
use crate::script;
use crate::script_laws;
use crate::spec_dir_laws;
use crate::spec_dirs;
use crate::spec_dirs::{SpecDirResolution, SpecDirRoots};
use crate::specs::guard;
use crate::specs::loading;
use crate::specs::loading::{DirListing, SpecFile, SpecLoadResult};
use crate::specs::loading_laws;
use crate::specs::model::{ArgSpec, CompletionSpec, OptionView, SubcommandView};
use crate::specs::parsing;
use crate::specs::resolve;
use crate::specs::resolve::SpecResolution;
use crate::specs::store;
use crate::specs::store::{PendingSpec, PendingView, SourceView, SpecSource, SpecStore};
use crate::specs::suggestion_laws;
use crate::specs::walk_laws;
use crate::text;
use crate::text_laws;
use crate::types;
use crate::types::{CommandContext, Suggestion};
use std::sync::Arc;
use vstd::prelude::*;
use vstd::string::*;

verus! {

/// The first run of `systemctl` asks for JSON unless the tool is known to be
/// too old for it.
pub proof fn law_first_call(scope: SystemdScope, recent: Option<bool>, r: SystemctlCall)
    requires
        call_ensures(systemd_units::first_call, (scope, recent), r),
    ensures
        recent == Some(false) ==> text::views(r.args@) == systemd_units::systemd_text_args(scope),
        recent != Some(false) ==> text::views(r.args@) == systemd_units::systemd_json_args(scope),
{
}

/// The manifest that is found exists. It has a workspace if any manifest on the
/// way up has one, and no nearer manifest has one; if none has, it is the
/// nearest. Where none is found, none exists.
pub proof fn law_find_cargo_root<F: Fn(&str) -> bool, W: Fn(&str) -> bool>(
    is_file: F,
    has_workspace: W,
    file: spec_fn(Seq<char>) -> bool,
    workspace: spec_fn(Seq<char>) -> bool,
    start: &str,
    r: Option<String>,
    i: int,
)
    requires
        path_laws::answers_by(is_file, file),
        path_laws::answers_by(has_workspace, workspace),
        call_ensures(
            cargo_workspace::find_cargo_root::<F, W>,
            (start, is_file, has_workspace),
            r,
        ),
        0 <= i < 32,
        paths::ancestor(start@, i) is Some,
        file(cargo_workspace::manifest_at(start@, i)),
    ensures
        r is Some,
        file(r->Some_0@),
        workspace(cargo_workspace::manifest_at(start@, i)) ==> workspace(r->Some_0@),
{
    assert(r is Some) by {
        if r is None {
            assert(paths::answered(is_file, cargo_workspace::manifest_at(start@, i), false));
            path_laws::law_answers(is_file, file, cargo_workspace::manifest_at(start@, i), false);
        }
    }
}

// ---------------------------------------------------------------------------
// Command lines
// ---------------------------------------------------------------------------
/// Behind the names of nested subcommands, exactly the subcommands of the last
/// one are suggested, in order, and the first name of its first option.
/// Without any words it is those of the spec.
pub proof fn law_resolve_path(
    spec: &CompletionSpec,
    ctx: &CommandContext,
    path: Seq<SubcommandView>,
    r: SpecResolution,
    i: int,
)
    requires
        call_ensures(resolve::resolve_spec, (spec, ctx), r),
        text::views(ctx.args@) == path.map_values(|t: SubcommandView| t.name),
        path.len() > 0 ==> walk_laws::stands_first(spec@.subcommands, path[0]),
        forall|k: int|
            0 <= k < path.len() - 1 ==> walk_laws::stands_first(
                (#[trigger] path[k]).subcommands,
                path[k + 1],
            ),
        forall|k: int|
            0 <= k < path.len() ==> (#[trigger] path[k]).name.len() == 0 || path[k].name[0] != '-',
    ensures
        ({
            let subs = if path.len() == 0 {
                spec@.subcommands
            } else {
                path.last().subcommands
            };
            let options = if path.len() == 0 {
                spec@.options
            } else {
                path.last().options
            };
            &&& r.subcommands.len() == subs.len()
            &&& 0 <= i < subs.len() ==> r.subcommands@[i]@.text == subs[i].name
                && r.subcommands@[i]@.description == subs[i].description
            &&& types::shown(r.options@) == resolve::option_suggestions(options)
            &&& options.len() > 0 && options[0].name.len() > 0 ==> r.options.len() > 0
                && r.options@[0]@.text == options[0].name[0]
        }),
{
    let words = text::views(ctx.args@);
    if path.len() == 0 {
        assert(words =~= Seq::empty());
        walk_laws::law_no_words(spec@);
    } else {
        walk_laws::law_path(spec@, path);
    }
    let p = resolve::reached(spec@, words);
    assert(types::shown(r.subcommands@).len() == r.subcommands.len());
    assert(types::shown(r.options@).len() == r.options.len());
    if 0 <= i < p.subcommands.len() {
        suggestion_laws::law_every_subcommand_is_suggested(p.subcommands, i);
        assert(types::shown(r.subcommands@)[i] == r.subcommands@[i]@);
    }
    if p.subcommands.len() > 0 {
        suggestion_laws::law_every_subcommand_is_suggested(p.subcommands, 0);
    } else {
        assert(resolve::subcommand_suggestions(p.subcommands).len() == 0);
    }
    if p.options.len() > 0 && p.options[0].name.len() > 0 {
        let rest = p.options.skip(1);
        assert(p.options =~= Seq::empty() + seq![p.options[0]] + rest);
        suggestion_laws::law_every_option_name_is_suggested(
            Seq::empty(),
            p.options[0],
            rest,
            0,
        );
        assert(types::shown(r.options@)[0] == r.options@[0]@);
    }
}

/// The two dashes are noticed wherever they stand among the words.
pub proof fn law_resolve_double_dash(spec: &CompletionSpec, ctx: &CommandContext, r: SpecResolution)
    requires
        call_ensures(resolve::resolve_spec, (spec, ctx), r),
    ensures
        r.past_double_dash <==> exists|i: int|
            0 <= i < ctx.args.len() && (#[trigger] ctx.args@[i])@ == "--"@,
{
    let words = text::views(ctx.args@);
    if words.contains("--"@) {
        let i = choose|i: int| 0 <= i < words.len() && words[i] == "--"@;
        assert(ctx.args@[i]@ == "--"@);
    }
    if exists|i: int| 0 <= i < ctx.args.len() && (#[trigger] ctx.args@[i])@ == "--"@ {
        let i = choose|i: int| 0 <= i < ctx.args.len() && (#[trigger] ctx.args@[i])@ == "--"@;
        assert(words[i] == "--"@);
    }
}

/// The flag before the cursor has an argument exactly if the first option of
/// that name declares one.
pub proof fn law_resolve_preceding_flag(
    spec: &CompletionSpec,
    ctx: &CommandContext,
    r: SpecResolution,
    o: OptionView,
    flag: Seq<char>,
)
    requires
        call_ensures(resolve::resolve_spec, (spec, ctx), r),
        ctx.args.len() == 0,
        text::opt_view(ctx.preceding_flag) == Some(flag),
        !flag.contains('='),
        walk_laws::stands_for(spec@.options, flag, o),
    ensures
        r.preceding_flag_has_args <==> o.args is Some,
{
    assert(text::views(ctx.args@) =~= Seq::empty());
    walk_laws::law_no_words(spec@);
    walk_laws::law_preceding_flag(spec@.options, o, flag, Seq::empty(), Seq::empty());
}

// ---------------------------------------------------------------------------
// Loading
// ---------------------------------------------------------------------------
/// Every `.json` file of a directory becomes pending under its stem, with the
/// name that it declares, from that directory and at its path.
pub proof fn law_load_dir_into_pending(
    dir: &str,
    files: Vec<SpecFile>,
    r: Vec<PendingSpec>,
    i: int,
    stem: Seq<char>,
)
    requires
        call_ensures(loading::load_dir_into_pending, (dir, files), r),
        0 <= i < files.len(),
        files@[i].file_name@ == loading_laws::json_name(stem),
        stem.len() > 0,
    ensures
        exists|k: int|
            0 <= k < r.len() && (#[trigger] r@[k])@ == (PendingView {
                filename_stem: stem,
                name_alias: text::opt_view(files@[i].declared_name),
                source_dir: dir@,
                source: SourceView::Filesystem(files@[i].path@),
            }),
{
    loading_laws::law_every_file_is_pending(dir@, files@, i, stem);
    let all = store::pending_views(r@);
    let want = PendingView {
        filename_stem: stem,
        name_alias: text::opt_view(files@[i].declared_name),
        source_dir: dir@,
        source: SourceView::Filesystem(files@[i].path@),
    };
    let k = choose|k: int| 0 <= k < all.len() && all[k] == want;
    assert(r@[k]@ == want);
}

/// Every `.json` file of every directory that can be listed answers to its
/// stem once the directories are loaded.
pub proof fn law_load_from_dirs(
    listings: Vec<DirListing>,
    r: SpecLoadResult,
    n: int,
    i: int,
    stem: Seq<char>,
)
    requires
        call_ensures(SpecStore::load_from_dirs, (listings,), r),
        0 <= n < listings.len(),
        listings@[n].files matches Ok(files) && 0 <= i < files.len() && files@[i].file_name@
            == loading_laws::json_name(stem),
        stem.len() > 0,
    ensures
        r.store@.index.dom().contains(stem),
{
    loading_laws::law_every_file_is_loaded(listings@, n, i, stem);
}

// ---------------------------------------------------------------------------
// Providers
// ---------------------------------------------------------------------------
/// A volume is suggested by its name, and by nothing else.
pub proof fn law_docker_volume(row: &DockerRow, r: Option<Suggestion>, n: Seq<char>)
    requires
        call_ensures(docker::row_to_suggestion, (row, DockerKind::Volumes), r),
    ensures
        row.name is None ==> r is None,
        text::opt_view(row.name) == Some(n) && text_laws::tight(n) && n != "<none>"@ && n != "N/A"@
            ==> (r matches Some(s) && s@.text == n),
{
    docker_laws::law_volume(row@);
    if text_laws::tight(n) {
        assert(Seq::<char>::empty() + n + Seq::<char>::empty() =~= n);
        text_laws::law_trim(Seq::empty(), n, Seq::empty());
        assert(!text::is_blank(n)) by {
            assert(!text::is_white(n[0]));
        }
    }
}

/// A network is suggested by its name.
pub proof fn law_docker_network(row: &DockerRow, r: Option<Suggestion>, n: Seq<char>)
    requires
        call_ensures(docker::row_to_suggestion, (row, DockerKind::Networks), r),
        text_laws::tight(n),
        n != "<none>"@,
        n != "N/A"@,
    ensures
        text::opt_view(row.name) == Some(n) ==> (r matches Some(s) && s@.text == n),
        row.name is None && text::opt_view(row.names) == Some(n) ==> (r matches Some(s) && s@.text
            == n),
{
    docker_laws::law_network(row@);
    assert(Seq::<char>::empty() + n + Seq::<char>::empty() =~= n);
    text_laws::law_trim(Seq::empty(), n, Seq::empty());
    assert(!text::is_blank(n)) by {
        assert(!text::is_white(n[0]));
    }
}

/// A makefile of one rule has the target of that rule.
pub proof fn law_makefile_rule(name: Seq<char>, s: &str, r: Vec<String>)
    requires
        call_ensures(makefile::parse_makefile_text, (s,), r),
        s@ == name + seq![':'],
        name.len() > 0,
        text_laws::solid(name),
        name[0] != '.',
        !name.contains(':'),
        !name.contains('='),
        !name.contains('#'),
        !name.contains('$'),
        !name.contains('%'),
        !name.contains('\\'),
    ensures
        r.len() == 1,
        r@[0]@ == name,
{
    makefile_laws::law_one_target(name);
    assert(text::views(r@).len() == r.len());
    assert(text::views(r@)[0] == r@[0]@);
}

/// The member that a workspace names by its directory is listed under the name
/// of the package in it, whatever the other members are, unless it is
/// excluded.
pub proof fn law_workspace_member<
    P: Fn(&str) -> StampState,
    F: Fn(&str) -> bool,
    L: Fn(&str) -> Vec<String>,
    R: Fn(&str) -> Option<CargoTomlMin>,
>(
    manifest: &str,
    probe: &P,
    is_file: &F,
    list: &L,
    read: &R,
    file: spec_fn(Seq<char>) -> bool,
    at: spec_fn(Seq<char>) -> Option<CargoTomlMin>,
    r: ResolvedRoot,
    i: int,
)
    requires
        call_ensures(
            cargo_workspace::resolve_workspace::<P, F, L, R>,
            (manifest, probe, is_file, list, read),
            r,
        ),
        path_laws::answers_by(*is_file, file),
        forall|q: &str, g: Option<CargoTomlMin>| #[trigger]
            call_ensures(*read, (q,), g) ==> g == at(q@),
        at(manifest@) matches Some(t) && (t.workspace matches Some(ws) && 0 <= i
            < ws.members.len()),
    ensures
        ({
            let ws = at(manifest@)->Some_0.workspace->Some_0;
            let root = cargo_workspace::root_dir(manifest@);
            let pattern = ws.members@[i]@;
            let dir = paths::joined(root, pattern);
            let m = paths::joined(dir, "Cargo.toml"@);
            !pattern.contains('*') && !pattern.contains('?') && !pattern.contains('[')
                && !cargo_workspace::is_excluded(root, text::views(ws.exclude@), dir) && file(m)
                ==> (at(m) matches Some(t) ==> (t.package matches Some(p) ==> (
            p@.name matches Some(n) ==> cargo_workspace::is_package_name(n) ==> exists|j: int|
                0 <= j < r@.members.len() && (#[trigger] r@.members[j]).name == n)))
        }),
{
    let scan = choose|scan: WorkspaceScan| #[trigger]
        cargo_workspace::workspace_seen(*probe, *is_file, *list, *read, manifest@, scan) && r@
            == cargo_workspace::assembled(scan);
    cargo_workspace_laws::law_scanned(
        *probe,
        *is_file,
        *list,
        *read,
        manifest@,
        at(manifest@),
        scan,
    );
    let ws = at(manifest@)->Some_0.workspace->Some_0;
    let root = cargo_workspace::root_dir(manifest@);
    let pattern = ws.members@[i]@;
    let dir = paths::joined(root, pattern);
    let m = paths::joined(dir, "Cargo.toml"@);
    if !pattern.contains('*') && !pattern.contains('?') && !pattern.contains('[')
        && !cargo_workspace::is_excluded(root, text::views(ws.exclude@), dir) && file(m) {
        let ps = scan.root->Workspace_0;
        assert(!cargo_workspace::is_glob(pattern)) by {
            reveal_strlit("/*");
            if "/*"@.is_suffix_of(pattern) {
                assert("/*"@[1] == '*');
                assert(pattern[pattern.len() - 1] == pattern.subrange(
                    pattern.len() - 2,
                    pattern.len() as int,
                )[1]);
                assert(pattern.contains('*'));
            }
        }
        assert(cargo_workspace::pattern_seen(
            *probe,
            *is_file,
            *list,
            *read,
            root,
            text::views(ws.exclude@),
            pattern,
            ps@[i],
        ));
        let c = ps@[i]->Literal_0;
        path_laws::law_answers(*is_file, file, m, c.is_file);
        assert(cargo_workspace_laws::led_to(ps@[i]) =~= seq![c]);
        cargo_workspace_laws::law_every_member_is_listed(scan, i, 0);
    }
}

/// A plain listing of units follows where a JSON listing failed or could not
/// be read; where a plain listing failed, there is nothing.
pub proof fn law_systemd_steps<F: FnOnce(&str) -> Option<Vec<SystemdJsonUnit>>>(
    scope: SystemdScope,
    call: &SystemctlCall,
    stdout: Option<&str>,
    parse: F,
    r: SystemctlStep,
)
    requires
        call_ensures(systemd_units::next_step::<F>, (scope, call, stdout, parse), r),
    ensures
        stdout is None && !call.json ==> r is Nothing,
        stdout is None && call.json ==> (r matches SystemctlStep::Again(c) && !c.json && text::views(
            c.args@,
        ) == systemd_units::systemd_text_args(scope)),
        stdout matches Some(s) ==> (call.json && (forall|rows: Option<Vec<SystemdJsonUnit>>|
            #[trigger]
            call_ensures(parse, (s,), rows) ==> rows is None) ==> (r matches SystemctlStep::Again(
            c,
        ) && !c.json)),
        stdout matches Some(s) ==> (!call.json ==> (r matches SystemctlStep::Units(u)
            && listing::views_of(u@) == systemd_units::text_units(s@))),
{
}

/// The older form of a request to the cluster is used from the start where the
/// tool is too old, and once after a failure of the newer form; only resources
/// have one.
pub proof fn law_kubectl_calls(
    kind: K8sKind,
    recent: Option<bool>,
    first: KubectlCall,
    next: Option<KubectlCall>,
)
    requires
        call_ensures(kubectl::first_call, (kind, recent), first),
        call_ensures(kubectl::next_call, (kind, &first), next),
    ensures
        first.legacy <==> kind == K8sKind::Resources && recent == Some(false),
        next is Some <==> kind == K8sKind::Resources && recent != Some(false),
        next matches Some(c) ==> c.legacy && text::views(c.args@) == seq!["api-resources"@],
        first.legacy ==> text::views(first.args@) == seq!["api-resources"@],
        !first.legacy ==> text::views(first.args@) == kubectl::kubectl_args(kind),
{
}

/// A call to the service that failed gives its error, and one that took too
/// long gives nothing.
pub proof fn law_aws_call<F: Fn(&str) -> Option<Vec<JsonScalar>>>(
    ctx: &ProviderCtx,
    request: &AwsRequest,
    end: &AwsCallEnd,
    lookup: &F,
    r: Result<Vec<Suggestion>, String>,
)
    requires
        call_ensures(aws_sdk::call_result::<F>, (ctx, request, end, lookup), r),
    ensures
        r is Err <==> end is Failed,
        *end is TimedOut ==> (r matches Ok(v) && v.len() == 0),
{
}

/// A search without a query is capped; one with a query is not.
pub proof fn law_brew_plan(query: &str, cap: usize, r: (Vec<String>, usize))
    requires
        call_ensures(brew::brew_search_plan, (query, cap), r),
    ensures
        query@.len() == 0 ==> r.1 == cap,
        query@.len() > 0 ==> r.1 == usize::MAX,
        text::views(r.0@) == seq!["search"@, query@],
{
}

/// Every word of a template is filled, in order, with the same words.
pub proof fn law_filled_words(
    template: &Vec<String>,
    prev: &str,
    current: &str,
    r: Vec<String>,
    i: int,
)
    requires
        call_ensures(script::substitute_template, (template, Some(prev), Some(current)), r),
        0 <= i < template.len(),
    ensures
        r.len() == template.len(),
        r@[i]@ == script::filled(template@[i]@, Some(prev@), Some(current@)),
{
    assert(text::views(r@).len() == r.len());
    assert(text::views(r@)[i] == r@[i]@);
}

/// A word that was filled is suspicious exactly if filling changed it and it
/// holds a character that a shell reads in its own way.
pub proof fn law_suspicious_word(part: &str, result: &str, r: bool)
    requires
        call_ensures(script::has_new_metacharacter, (part, result), r),
    ensures
        part@ == result@ ==> !r,
        part@ != result@ && (result@.contains(';') || result@.contains('|') || result@.contains('&')
            || result@.contains('$') || result@.contains('`')) ==> r,
{
    if part@ != result@ {
        script_laws::law_metacharacters(';');
        script_laws::law_metacharacters('|');
        script_laws::law_metacharacters('&');
        script_laws::law_metacharacters('$');
        script_laws::law_metacharacters('`');
    }
}

/// The first argument of an option is kept apart from the others, whose order
/// stays.
pub proof fn law_split_arguments(args: Vec<ArgSpec>, r: (Option<ArgSpec>, Vec<ArgSpec>), i: int)
    requires
        call_ensures(parsing::split_option_args, (args,), r),
    ensures
        r.0 is Some <==> args.len() > 0,
        args.len() > 0 ==> r.0 == Some(args@[0]) && r.1.len() == args.len() - 1,
        1 <= i < args.len() ==> r.1@[i - 1] == args@[i],
{
}

/// Output that cannot be read gives no suggestion; what can be read gives those
/// of its rows, packages or objects.
pub proof fn law_read_kubernetes<F: FnOnce(&str) -> Option<Vec<KubernetesItem>>>(
    stdout: &str,
    kind: K8sKind,
    parse: F,
    got: Option<Vec<KubernetesItem>>,
    r: Vec<Suggestion>,
)
    requires
        call_ensures(kubectl::parse_kubectl_json_list::<F>, (stdout, kind, parse), r),
        forall|g: Option<Vec<KubernetesItem>>| #[trigger]
            call_ensures(parse, (stdout,), g) ==> g == got,
    ensures
        kubectl::prints_lines(kind) || got is None ==> r.len() == 0,
        !kubectl::prints_lines(kind) ==> (got matches Some(v) ==> types::shown(r@)
            == kubectl::items_shown(listing::views_of(v@), kind)),
{
    assert(types::shown(r@).len() == r.len());
}

/// Packages, targets and features come from the metadata that is read; from
/// metadata that cannot be read comes nothing.
pub proof fn law_read_metadata<F: FnOnce(&str) -> Option<CargoMetadataOutput>>(
    stdout: &str,
    kind: &str,
    cwd: &str,
    parse: F,
    got: Option<CargoMetadataOutput>,
    members: Vec<Suggestion>,
    targets: Vec<Suggestion>,
    features: Vec<Suggestion>,
)
    requires
        call_ensures(cargo_metadata::parse_cargo_workspace_members::<F>, (stdout, parse), members),
        call_ensures(cargo_metadata::parse_cargo_targets::<F>, (stdout, kind, parse), targets),
        call_ensures(cargo_metadata::parse_cargo_features::<F>, (stdout, cwd, parse), features),
        forall|g: Option<CargoMetadataOutput>| #[trigger]
            call_ensures(parse, (stdout,), g) ==> g == got,
    ensures
        got is None ==> members.len() == 0 && targets.len() == 0 && features.len() == 0,
        got matches Some(v) ==> types::shown(targets@) == listing::pairs_shown(
            cargo_metadata::workspace_targets(v@, kind@),
        ),
        got matches Some(v) ==> (cargo_metadata::active_package(v@, cwd@) is None ==> features.len()
            == 0),
{
    assert(types::shown(members@).len() == members.len());
    assert(types::shown(targets@).len() == targets.len());
    assert(types::shown(features@).len() == features.len());
}

/// The declared name of a text that nests too deeply is not read; any other is
/// what its header says, cleaned.
pub proof fn law_shallow_name<H: FnOnce(&str) -> Option<String>>(
    contents: &str,
    header: H,
    got: Option<String>,
    r: Option<String>,
    n: int,
)
    requires
        call_ensures(parsing::shallow_parse_name::<H>, (contents, header), r),
        forall|g: Option<String>| #[trigger] call_ensures(header, (contents,), g) ==> g == got,
        0 <= n <= contents@.len(),
    ensures
        guard::scan(contents@, n).depth > 32 ==> r is None,
        r is Some ==> got is Some,
        r matches Some(s) ==> (got matches Some(g) ==> s@ == guard::clean(g@)),
{
}

/// A file that cannot be read fails with its path and the reason; a built-in
/// text is never read from anywhere.
pub proof fn law_read_entry<
    R: FnOnce(&String) -> Result<String, String>,
    P: FnOnce(&str) -> Result<CompletionSpec, String>,
>(
    source: &SpecSource,
    read: R,
    parse: P,
    path: String,
    e: String,
    r: Result<Arc<CompletionSpec>, String>,
)
    requires
        call_ensures(parsing::parse_entry_source::<R, P>, (source, read, parse), r),
    ensures
        *source == SpecSource::Filesystem(path) && (forall|g: Result<String, String>| #[trigger]
            call_ensures(read, (&path,), g) ==> g == Err::<String, String>(e)) ==> (r matches Err(
            m,
        ) && m@ == "read "@ + path@ + ": "@ + e@),
        *source matches SpecSource::Embedded(c) ==> parsing::entry_parse(parse, c@, r),
{
}

/// Where the working directory is not absolute nothing is asked, and where it
/// is, what the kind stands for is.
pub proof fn law_dispatch<'a, T, F: FnOnce(ProviderQuery, &'a ProviderCtx) -> T>(
    kind: ProviderKind,
    ctx: &'a ProviderCtx,
    generate: F,
    t: T,
    r: Dispatched<T>,
)
    requires
        call_ensures(dispatch::resolve::<T, F>, (kind, ctx, generate), r),
        forall|x: T| #[trigger]
            call_ensures(generate, (dispatch::asked(kind), ctx), x) ==> x == t,
    ensures
        ctx.cwd@.len() > 0 && ctx.cwd@[0] == '/' ==> r == Dispatched::<T>::Asked(t),
        ctx.cwd@.len() == 0 || ctx.cwd@[0] != '/' ==> (r matches Dispatched::Answered(v) && v.len()
            == 0),
{
}

/// The configured directories that are there are the ones that count.
pub proof fn law_spec_dirs<F: Fn(&str) -> bool>(
    configured: &Vec<String>,
    roots: &SpecDirRoots,
    is_dir: &F,
    there: spec_fn(Seq<char>) -> bool,
    r: SpecDirResolution,
)
    requires
        call_ensures(
            spec_dirs::resolve_spec_dirs_with_provenance::<F>,
            (configured, roots, is_dir),
            r,
        ),
        path_laws::answers_by(*is_dir, there),
    ensures
        ({
            let good = text::views(configured@).map_values(
                |p: Seq<char>| spec_dirs::expanded(p, text::opt_view(roots.home)),
            ).filter(there);
            &&& r.include_embedded <==> good.len() == 0
            &&& good.len() > 0 ==> text::views(r.dirs@) == good
        }),
{
    spec_dir_laws::law_directories(
        *is_dir,
        there,
        text::views(configured@),
        *roots,
        text::views(r.dirs@),
        r.include_embedded,
    );
}

} // verus!
