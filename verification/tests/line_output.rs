//! Providers whose tool or file answers in plain lines.
use gc_suggest::providers::aws_profile_names::{
    aws_config_path, aws_credentials_path, ini_sections, profile_suggestions, read_profile_names,
    ProfileCache, ProfileCacheKey, PROFILE_CACHE_TTL_MS,
};
use gc_suggest::providers::brew::{
    brew_search_plan, cask_search_args, is_supported, parse_casks_installed_output,
    parse_casks_searchable_output, parse_formulae_installed_output,
    parse_formulae_searchable_output, parse_packages_searchable_output, set_brew_search_cap,
    BrewSearchCap, DEFAULT_BREW_SEARCH_CAP,
};
use gc_suggest::providers::context::ProviderCtx;
use gc_suggest::providers::dscl_principals::{
    chown_node, chown_owner_group_from_principals, chown_suggestions, classify_chown_token,
    include_system_from_ctx, parse_principals_output, ChownToken, PrincipalNode,
};
use gc_suggest::providers::local_project::mtime_cache::FileTime;
use gc_suggest::providers::systemd_units::parse_systemd_text_units;
use gc_suggest::providers::tmux_state::{inside_tmux, parse_tmux_state_output, TmuxQuery};
use gc_suggest::text_map::TextMap;
use gc_suggest::types::Suggestion;
use std::cell::Cell;
use std::sync::Arc;

fn texts(v: &[Suggestion]) -> Vec<&str> {
    v.iter().map(|s| s.text.as_str()).collect()
}

fn map(pairs: &[(&str, &str)]) -> Arc<TextMap> {
    let mut m = TextMap::new();
    for (key, value) in pairs {
        m.insert(key.to_string(), value.to_string());
    }
    Arc::new(m)
}

fn ctx_with(token: &str, env: &[(&str, &str)], params: &[(&str, &str)]) -> ProviderCtx {
    ProviderCtx {
        cwd: "/tmp".to_string(),
        env: map(env),
        current_token: token.to_string(),
        params: map(params),
    }
}

fn strings(v: &[&str]) -> Vec<String> {
    v.iter().map(|s| s.to_string()).collect()
}

// --- AWS profiles -----------------------------------------------------------

struct Names(Vec<String>);

impl Names {
    fn contains(&self, name: &str) -> bool {
        self.0.iter().any(|n| n == name)
    }
}

fn parse_credentials(contents: &str) -> Names {
    let mut names = Vec::new();
    gc_suggest::providers::aws_profile_names::parse_credentials_profiles(contents, &mut names);
    Names(names)
}

fn parse_config(contents: &str) -> Names {
    let mut names = Vec::new();
    gc_suggest::providers::aws_profile_names::parse_config_profiles(contents, &mut names);
    Names(names)
}

#[test]
fn credentials_parser_accepts_bare_profile_sections() {
    let names = parse_credentials("[default]\n[prod]\n[staging]\n");
    assert!(names.contains("default"));
    assert!(names.contains("prod"));
    assert!(names.contains("staging"));
}

#[test]
fn credentials_parser_rejects_config_style_profile_prefix() {
    let names = parse_credentials("[profile prod]\n[default]\n");
    assert!(
        !names.contains("profile prod"),
        "credentials file must not mint a `[profile name]` section as a profile"
    );
    assert!(names.contains("default"));
}

#[test]
fn config_parser_strips_profile_prefix_and_keeps_default() {
    let names = parse_config("[profile dev]\n[default]\n[profile prod]\n");
    assert!(names.contains("default"));
    assert!(names.contains("dev"));
    assert!(names.contains("prod"));
    assert!(!names.contains("profile dev"));
}

#[test]
fn profile_names_of_both_files_are_merged_and_sorted() {
    let names = read_profile_names(
        &Some("[profile dev]\n[default]\n".to_string()),
        &Some("[prod]\n[dev]\n".to_string()),
    );
    assert_eq!(names, vec!["default", "dev", "prod"]);
    assert!(read_profile_names(&None, &None).is_empty());
    assert_eq!(ini_sections("[a]\nkey = 1\n  [b]  \n"), vec!["a", "b"]);
}

#[test]
fn aws_files_are_where_the_environment_says() {
    let home = Some("/home/u".to_string());
    let plain = ctx_with("", &[], &[]);
    assert_eq!(aws_config_path(&plain, &home), "/home/u/.aws/config");
    assert_eq!(aws_credentials_path(&plain, &home), "/home/u/.aws/credentials");
    let set = ctx_with("", &[("AWS_CONFIG_FILE", "/etc/aws")], &[]);
    assert_eq!(aws_config_path(&set, &home), "/etc/aws");
}

#[test]
fn profiles_are_read_again_when_a_file_changed_or_time_passed() {
    let mut cache = ProfileCache::new();
    let key = |secs: i64| ProfileCacheKey {
        config_path: "/c".to_string(),
        config_mtime: Some(FileTime { secs, nanos: 0 }),
        credentials_path: "/k".to_string(),
        credentials_mtime: None,
    };
    let reads = Cell::new(0);
    let read = |path: &str| {
        reads.set(reads.get() + 1);
        if path == "/c" {
            Some("[profile dev]\n".to_string())
        } else {
            None
        }
    };
    let clock = Cell::new(0u64);
    let tell = || clock.get();
    let first = profile_suggestions(&mut cache, key(1), 0, &read, &tell);
    assert_eq!(texts(&first), vec!["dev"]);
    assert_eq!(reads.get(), 2);
    let again = profile_suggestions(&mut cache, key(1), 5, &read, &tell);
    assert_eq!(texts(&again), vec!["dev"]);
    assert_eq!(reads.get(), 2);
    profile_suggestions(&mut cache, key(2), 5, &read, &tell);
    assert_eq!(reads.get(), 4);
    profile_suggestions(&mut cache, key(1), PROFILE_CACHE_TTL_MS, &read, &tell);
    assert_eq!(reads.get(), 6);
}

#[test]
fn profiles_are_kept_from_when_the_files_were_read() {
    let mut cache = ProfileCache::new();
    let key = || ProfileCacheKey {
        config_path: "/c".to_string(),
        config_mtime: None,
        credentials_path: "/k".to_string(),
        credentials_mtime: None,
    };
    let clock = Cell::new(10u64);
    let reads = Cell::new(0);
    let read = |_: &str| {
        reads.set(reads.get() + 1);
        clock.set(clock.get() + 100);
        None
    };
    let tell = || clock.get();
    profile_suggestions(&mut cache, key(), 10, &read, &tell);
    assert_eq!(reads.get(), 2);
    profile_suggestions(&mut cache, key(), PROFILE_CACHE_TTL_MS + 209, &read, &tell);
    assert_eq!(reads.get(), 2);
    profile_suggestions(&mut cache, key(), PROFILE_CACHE_TTL_MS + 210, &read, &tell);
    assert_eq!(reads.get(), 4);
}

// --- Homebrew ---------------------------------------------------------------

#[test]
fn installed_packages_come_one_per_line() {
    let shown = parse_formulae_installed_output("git\n\n ripgrep \n");
    assert_eq!(texts(&shown), vec!["git", "ripgrep"]);
    assert_eq!(shown[0].description.as_deref(), Some("installed brew formula"));
    let shown = parse_casks_installed_output("iterm2\n");
    assert_eq!(shown[0].description.as_deref(), Some("installed brew cask"));
}

#[test]
fn formulae_are_read_from_their_section_and_capped() {
    let out = "==> Formulae\ngit gitea\n==> Casks\ngitkraken\n";
    assert_eq!(texts(&parse_formulae_searchable_output(out, 10)), vec!["git", "gitea"]);
    assert_eq!(texts(&parse_formulae_searchable_output(out, 1)), vec!["git"]);
    assert_eq!(texts(&parse_formulae_searchable_output("a b\nc", 10)), vec!["a", "b", "c"]);
    assert!(parse_formulae_searchable_output(out, 0).is_empty());
}

#[test]
fn casks_are_read_from_their_section_only() {
    let out = "git\n==> Casks\ngitkraken github\n==> Formulae\ngit\ncasks:\nfork\n";
    assert_eq!(texts(&parse_casks_searchable_output(out)), vec!["gitkraken", "github", "fork"]);
    assert_eq!(
        texts(&parse_packages_searchable_output(out)),
        vec!["git", "gitkraken", "github", "git", "fork"]
    );
}

#[test]
fn only_an_empty_search_is_capped() {
    assert_eq!(brew_search_plan("", 50), (strings(&["search", ""]), 50));
    assert_eq!(brew_search_plan("git", 50), (strings(&["search", "git"]), usize::MAX));
    assert_eq!(cask_search_args("x"), vec!["search", "--cask", "x"]);
    let mut cap = BrewSearchCap::new();
    assert_eq!(cap.get(), DEFAULT_BREW_SEARCH_CAP);
    set_brew_search_cap(&mut cap, 0);
    assert_eq!(cap.get(), 1);
    set_brew_search_cap(&mut cap, 7);
    assert_eq!(cap.get(), 7);
    assert!(is_supported(None));
    assert!(is_supported(Some(true)));
    assert!(!is_supported(Some(false)));
}

// --- users and groups -------------------------------------------------------

#[test]
fn system_principals_are_shown_on_request() {
    let out = "_www\nroot\n\n alice \n";
    assert_eq!(texts(&parse_principals_output(out, false, "dscl user")), vec!["root", "alice"]);
    assert_eq!(
        texts(&parse_principals_output(out, true, "dscl user")),
        vec!["_www", "root", "alice"]
    );
    assert!(include_system_from_ctx(&ctx_with("", &[], &[("include_system", "TRUE")])));
    assert!(include_system_from_ctx(&ctx_with("", &[], &[("include_system", "1")])));
    assert!(!include_system_from_ctx(&ctx_with("", &[], &[("include_system", "yes")])));
}

#[test]
fn chown_tokens_are_told_apart_at_the_colon() {
    assert!(matches!(classify_chown_token("al"), ChownToken::OwnerOnly { prefix } if prefix == "al"));
    assert!(matches!(classify_chown_token(":st"), ChownToken::GroupOnly { prefix } if prefix == "st"));
    assert!(matches!(
        classify_chown_token("al:st:x"),
        ChownToken::OwnerGroup { owner, group_prefix } if owner == "al" && group_prefix == "st:x"
    ));
    assert_eq!(chown_node("al"), PrincipalNode::Users);
    assert_eq!(chown_node("al:"), PrincipalNode::Groups);
    assert_eq!(PrincipalNode::Users.path(), "/Users");
    assert_eq!(PrincipalNode::Groups.path(), "/Groups");
}

#[test]
fn chown_suggestions_continue_the_token() {
    let users = strings(&["alice", "bob"]);
    let groups = strings(&["staff", "wheel"]);
    let shown = chown_owner_group_from_principals("al", &users, &groups);
    assert_eq!(texts(&shown), vec!["alice"]);
    assert_eq!(shown[0].description.as_deref(), Some("user"));
    let shown = chown_owner_group_from_principals(":s", &users, &groups);
    assert_eq!(texts(&shown), vec![":staff"]);
    let shown = chown_owner_group_from_principals("bob:w", &users, &groups);
    assert_eq!(texts(&shown), vec!["bob:wheel"]);
    assert_eq!(shown[0].description.as_deref(), Some("user bob, group wheel"));
    let listed = chown_suggestions(&ctx_with("bob:w", &[], &[]), Some("staff\nwheel\n_www\n"));
    assert_eq!(texts(&listed), vec!["bob:wheel"]);
    assert!(chown_suggestions(&ctx_with("bob:w", &[], &[]), None).is_empty());
}

// --- systemd, as text -------------------------------------------------------

#[test]
fn systemd_lines_become_units() {
    let out = "* ssh.service loaded failed failed OpenSSH server\n\
               cron.service loaded active running\n\
               not a unit line here\nshort.service loaded\n";
    let units = parse_systemd_text_units(out);
    assert_eq!(units.len(), 2);
    assert_eq!(units[0].unit, "ssh.service");
    assert_eq!(units[0].active, "failed");
    assert_eq!(units[0].description.as_deref(), Some("OpenSSH server"));
    assert_eq!(units[1].unit, "cron.service");
    assert_eq!(units[1].description, None);
}

// --- tmux -------------------------------------------------------------------

#[test]
fn tmux_targets_are_followed_by_a_tab() {
    let shown = parse_tmux_state_output("main\t3 windows\n\nwork\n\tno target\n");
    assert_eq!(texts(&shown), vec!["main", "work"]);
    assert_eq!(shown[0].description.as_deref(), Some("3 windows"));
    assert_eq!(shown[1].description, None);
}

#[test]
fn tmux_is_asked_only_from_inside() {
    assert!(inside_tmux(&ctx_with("", &[("TMUX", "/tmp/sock")], &[])));
    assert!(!inside_tmux(&ctx_with("", &[], &[])));
    assert_eq!(
        TmuxQuery::Clients.args(),
        vec!["list-clients", "-F", "#{client_name}\t#{session_name}"]
    );
}
