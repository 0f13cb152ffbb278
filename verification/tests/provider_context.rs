//! What a provider is asked, which provider is meant, and how a request is
//! handed to it.
use gc_suggest::providers::ansible_doc::AnsibleDocModules;
use gc_suggest::providers::context::{CtxError, Provider, ProviderCtx, ProviderResolution};
use gc_suggest::providers::dispatch::{query_of, resolve, Dispatched, ProviderQuery};
use gc_suggest::providers::docker::DockerImages;
use gc_suggest::providers::dscl_principals::PrincipalNode;
use gc_suggest::providers::keyed_cache::{get_fresh, KeyedCache, Timed};
use gc_suggest::providers::kind::{kind_from_type_str, ProviderKind};
use gc_suggest::providers::kubectl::K8sKind;
use gc_suggest::providers::multipass::{MultipassInstanceFilter, MultipassList};
use gc_suggest::providers::npm_local::NpmDependencyMode;
use gc_suggest::providers::pandoc::PandocFormats;
use gc_suggest::providers::version_probe::{
    begin_probe, finish_probe, parse_min_version, parse_version, probe_key, ProbeStep, Version,
    VersionCache,
};
use gc_suggest::text_map::TextMap;
use gc_suggest::types::provider_value;
use std::sync::Arc;

fn map(pairs: &[(&str, &str)]) -> Arc<TextMap> {
    let mut m = TextMap::new();
    for (key, value) in pairs {
        m.insert(key.to_string(), value.to_string());
    }
    Arc::new(m)
}

fn pairs(m: &TextMap) -> Vec<(String, String)> {
    (0..m.len())
        .map(|i| {
            let (key, value) = m.pair_at(i);
            (key.to_string(), value.to_string())
        })
        .collect()
}

#[test]
fn test_kind_from_type_str_unknown_returns_none() {
    assert!(kind_from_type_str("").is_none());
    assert!(kind_from_type_str("git_branches").is_none());
    assert!(kind_from_type_str("nonexistent_provider").is_none());
    assert!(kind_from_type_str("filepaths").is_none());
}

#[test]
fn test_kind_from_type_str_known_providers() {
    assert_eq!(kind_from_type_str("aws_sdk"), Some(ProviderKind::AwsSdk));
    assert_eq!(
        kind_from_type_str("aws_profile_names"),
        Some(ProviderKind::AwsProfileNames)
    );
    assert_eq!(
        kind_from_type_str("ansible_doc_modules"),
        Some(ProviderKind::AnsibleDocModules)
    );
    assert_eq!(
        kind_from_type_str("arduino_cli_boards"),
        Some(ProviderKind::ArduinoCliBoards)
    );
    assert_eq!(
        kind_from_type_str("arduino_cli_ports"),
        Some(ProviderKind::ArduinoCliPorts)
    );
    assert_eq!(
        kind_from_type_str("cargo_workspace_members"),
        Some(ProviderKind::CargoWorkspaceMembers)
    );
    assert_eq!(
        kind_from_type_str("cargo_targets"),
        Some(ProviderKind::CargoTargets)
    );
    assert_eq!(
        kind_from_type_str("cargo_features"),
        Some(ProviderKind::CargoFeatures)
    );
    assert_eq!(
        kind_from_type_str("brew_casks_installed"),
        Some(ProviderKind::BrewCasksInstalled)
    );
    assert_eq!(
        kind_from_type_str("brew_formulae_installed"),
        Some(ProviderKind::BrewFormulaeInstalled)
    );
    assert_eq!(
        kind_from_type_str("brew_formulae_searchable"),
        Some(ProviderKind::BrewFormulaeSearchable)
    );
    assert_eq!(
        kind_from_type_str("defaults_domains"),
        Some(ProviderKind::DefaultsDomains)
    );
    assert_eq!(
        kind_from_type_str("docker_containers"),
        Some(ProviderKind::DockerContainers)
    );
    assert_eq!(
        kind_from_type_str("docker_images"),
        Some(ProviderKind::DockerImages)
    );
    assert_eq!(
        kind_from_type_str("docker_networks"),
        Some(ProviderKind::DockerNetworks)
    );
    assert_eq!(
        kind_from_type_str("docker_running_containers"),
        Some(ProviderKind::DockerRunningContainers)
    );
    assert_eq!(
        kind_from_type_str("docker_volumes"),
        Some(ProviderKind::DockerVolumes)
    );
    assert_eq!(
        kind_from_type_str("dscl_groups"),
        Some(ProviderKind::DsclGroups)
    );
    assert_eq!(
        kind_from_type_str("dscl_users"),
        Some(ProviderKind::DsclUsers)
    );
    assert_eq!(
        kind_from_type_str("k8s_contexts"),
        Some(ProviderKind::K8sContexts)
    );
    assert_eq!(
        kind_from_type_str("k8s_namespaces"),
        Some(ProviderKind::K8sNamespaces)
    );
    assert_eq!(
        kind_from_type_str("k8s_nodes"),
        Some(ProviderKind::K8sNodes)
    );
    assert_eq!(kind_from_type_str("k8s_pods"), Some(ProviderKind::K8sPods));
    assert_eq!(
        kind_from_type_str("k8s_resources"),
        Some(ProviderKind::K8sResources)
    );
    assert_eq!(
        kind_from_type_str("k8s_services"),
        Some(ProviderKind::K8sServices)
    );
    assert_eq!(
        kind_from_type_str("makefile_targets"),
        Some(ProviderKind::MakefileTargets)
    );
    assert_eq!(
        kind_from_type_str("npm_scripts"),
        Some(ProviderKind::NpmScripts)
    );
    assert_eq!(
        kind_from_type_str("mamba_envs"),
        Some(ProviderKind::MambaEnvs)
    );
    assert_eq!(
        kind_from_type_str("multipass_list"),
        Some(ProviderKind::MultipassList)
    );
    assert_eq!(
        kind_from_type_str("multipass_list_not_deleted"),
        Some(ProviderKind::MultipassListNotDeleted)
    );
    assert_eq!(
        kind_from_type_str("multipass_list_deleted"),
        Some(ProviderKind::MultipassListDeleted)
    );
    assert_eq!(
        kind_from_type_str("multipass_list_running"),
        Some(ProviderKind::MultipassListRunning)
    );
    assert_eq!(
        kind_from_type_str("multipass_list_stopped"),
        Some(ProviderKind::MultipassListStopped)
    );
    assert_eq!(
        kind_from_type_str("npm_all_dependencies"),
        Some(ProviderKind::NpmAllDependencies)
    );
    assert_eq!(
        kind_from_type_str("npm_dependencies"),
        Some(ProviderKind::NpmDependencies)
    );
    assert_eq!(
        kind_from_type_str("npm_dev_dependencies"),
        Some(ProviderKind::NpmDevDependencies)
    );
    assert_eq!(
        kind_from_type_str("pandoc_input_formats"),
        Some(ProviderKind::PandocInputFormats)
    );
    assert_eq!(
        kind_from_type_str("pandoc_output_formats"),
        Some(ProviderKind::PandocOutputFormats)
    );
    assert_eq!(
        kind_from_type_str("systemd_active_units"),
        Some(ProviderKind::SystemdActiveUnits)
    );
    assert_eq!(
        kind_from_type_str("systemd_units"),
        Some(ProviderKind::SystemdUnits)
    );
    assert_eq!(
        kind_from_type_str("systemd_user_units"),
        Some(ProviderKind::SystemdUserUnits)
    );
    assert_eq!(
        kind_from_type_str("tmux_clients"),
        Some(ProviderKind::TmuxClients)
    );
    assert_eq!(
        kind_from_type_str("tmux_panes"),
        Some(ProviderKind::TmuxPanes)
    );
    assert_eq!(
        kind_from_type_str("tmux_sessions"),
        Some(ProviderKind::TmuxSessions)
    );
    assert_eq!(
        kind_from_type_str("tmux_windows"),
        Some(ProviderKind::TmuxWindows)
    );
}

#[test]
fn test_provider_ctx_is_constructible() {
    let ctx = ProviderCtx {
        cwd: "/tmp".to_string(),
        env: map(&[]),
        current_token: String::new(),
        params: map(&[]),
    };
    assert_eq!(ctx.cwd, "/tmp");
    assert_eq!(ctx.env.len(), 0);
    assert!(ctx.current_token.is_empty());
    assert_eq!(ctx.params.len(), 0);
}

#[test]
fn test_provider_ctx_for_resolution_overlays_each_params_map() {
    let env = map(&[("SHELL", "/bin/zsh")]);
    let base = ProviderCtx {
        cwd: "/tmp/project".to_string(),
        env: Arc::clone(&env),
        current_token: "tar".to_string(),
        params: map(&[("base", "must-not-leak")]),
    };
    let first = ProviderResolution {
        kind: ProviderKind::NpmScripts,
        params: map(&[("package_manager", "pnpm")]),
    };
    let second = ProviderResolution {
        kind: ProviderKind::CargoWorkspaceMembers,
        params: map(&[("workspace", "members")]),
    };

    let first_ctx = base.for_resolution(&first);
    let second_ctx = base.for_resolution(&second);

    assert_eq!(first_ctx.cwd, base.cwd);
    assert_eq!(second_ctx.cwd, base.cwd);
    assert!(Arc::ptr_eq(&first_ctx.env, &env));
    assert!(Arc::ptr_eq(&second_ctx.env, &env));
    assert_eq!(first_ctx.current_token, "tar");
    assert_eq!(second_ctx.current_token, "tar");
    assert!(Arc::ptr_eq(&first_ctx.params, &first.params));
    assert!(Arc::ptr_eq(&second_ctx.params, &second.params));
    assert_eq!(pairs(&first_ctx.params), pairs(&first.params));
    assert_eq!(pairs(&second_ctx.params), pairs(&second.params));
    assert_eq!(first_ctx.params.get("base"), None);
}

#[test]
fn test_provider_ctx_new_accepts_absolute_cwd() {
    let res = ProviderCtx::new("/tmp".to_string(), map(&[]), "tok".to_string());
    let ctx = match res {
        Ok(ctx) => ctx,
        Err(e) => panic!("absolute cwd should be accepted, got {}", e.message()),
    };
    assert_eq!(ctx.cwd, "/tmp");
    assert_eq!(ctx.current_token, "tok");
}

#[test]
fn test_provider_ctx_new_rejects_relative_cwd() {
    let res = ProviderCtx::new("relative/dir".to_string(), map(&[]), String::new());
    match res {
        Ok(_) => panic!("relative cwd should be rejected"),
        Err(CtxError::RelativeCwd(p)) => assert_eq!(p, "relative/dir"),
    }
}

#[test]
fn test_provider_ctx_env_returns_string_slice() {
    let ctx = ProviderCtx {
        cwd: "/tmp".to_string(),
        env: map(&[("KUBECONFIG", "/tmp/kubeconfig")]),
        current_token: String::new(),
        params: map(&[]),
    };
    assert_eq!(ctx.env("KUBECONFIG"), Some("/tmp/kubeconfig"));
    assert_eq!(ctx.env("MISSING"), None);
}

#[test]
fn test_resolve_rejects_relative_cwd_before_local_project_provider() {
    let ctx = ProviderCtx {
        cwd: ".".to_string(),
        env: map(&[]),
        current_token: String::new(),
        params: map(&[]),
    };
    let dispatched: Dispatched<()> = resolve(
        ProviderKind::CargoWorkspaceMembers,
        &ctx,
        |_: ProviderQuery, _: &ProviderCtx| panic!("no provider may run"),
    );
    let results = match dispatched {
        Dispatched::Answered(results) => results,
        Dispatched::Asked(_) => panic!("no provider may be asked"),
    };
    assert!(
        results.is_empty(),
        "relative cwd must not resolve providers from process cwd, got {results:?}"
    );
}

#[test]
fn test_provider_kind_type_str_round_trips_for_all_variants() {
    for kind in ProviderKind::all() {
        let s = kind.type_str();
        assert!(!s.is_empty(), "type_str must not be empty for {kind:?}");
        assert_eq!(
            kind_from_type_str(s),
            Some(kind),
            "round-trip failed for {kind:?} (type_str = {s:?})"
        );
    }
}

#[test]
fn every_kind_is_listed_once() {
    let all = ProviderKind::all();
    assert_eq!(all.len(), 45);
    for (i, kind) in all.iter().enumerate() {
        assert!(!all[..i].contains(kind));
    }
}

#[test]
fn absolute_requests_reach_the_provider() {
    let ctx = ProviderCtx {
        cwd: "/tmp".to_string(),
        env: map(&[]),
        current_token: String::new(),
        params: map(&[]),
    };
    let dispatched = resolve(ProviderKind::NpmDependencies, &ctx, |query, c: &ProviderCtx| {
        assert_eq!(query, ProviderQuery::Npm(NpmDependencyMode::Dependencies));
        vec![provider_value(format!("in {}", c.cwd), None)]
    });
    match dispatched {
        Dispatched::Asked(found) => {
            assert_eq!(found.len(), 1);
            assert_eq!(found[0].text, "in /tmp");
        }
        Dispatched::Answered(found) => panic!("the provider was not asked: {found:?}"),
    }
}

#[test]
fn each_kind_is_asked_for_its_own_listing() {
    assert_eq!(
        query_of(ProviderKind::MultipassListDeleted),
        ProviderQuery::Multipass(MultipassInstanceFilter::Deleted)
    );
    assert_eq!(
        query_of(ProviderKind::MultipassList),
        ProviderQuery::Multipass(MultipassInstanceFilter::All)
    );
    assert_eq!(query_of(ProviderKind::NpmScripts), ProviderQuery::NpmScripts);
    assert_eq!(query_of(ProviderKind::K8sNodes), ProviderQuery::Kubernetes(K8sKind::Nodes));
    assert_eq!(
        query_of(ProviderKind::PandocOutputFormats),
        ProviderQuery::Pandoc(PandocFormats::Output)
    );
    assert_eq!(PandocFormats::Output.flag(), "--list-output-formats");
    assert_eq!(PandocFormats::Input.description(), "pandoc input format");
    assert_eq!(PrincipalNode::Groups.description(), "dscl group");
    let all = ProviderKind::all();
    for (i, a) in all.iter().enumerate() {
        for b in &all[..i] {
            assert_ne!(query_of(*a), query_of(*b));
        }
    }
}

#[test]
fn providers_answer_under_their_type_string() {
    assert_eq!(AnsibleDocModules.name(), ProviderKind::AnsibleDocModules.type_str());
    assert_eq!(DockerImages.name(), "docker_images");
    assert_eq!(MultipassList.name(), "multipass_list");
}

#[test]
fn relative_cwd_is_named_in_the_message() {
    let e = CtxError::RelativeCwd("a/b".to_string());
    assert!(e.message().contains("a/b"));
}

#[test]
fn parameters_are_kept_sorted_and_hashed_by_content() {
    let mut one = TextMap::new();
    one.insert("b".to_string(), "2".to_string());
    one.insert("a".to_string(), "1".to_string());
    one.insert("b".to_string(), "3".to_string());
    assert_eq!(
        pairs(&one),
        vec![("a".to_string(), "1".to_string()), ("b".to_string(), "3".to_string())]
    );
    let base = ProviderCtx {
        cwd: "/".to_string(),
        env: map(&[]),
        current_token: String::new(),
        params: Arc::new(one),
    };
    let same = base.for_resolution(&ProviderResolution {
        kind: ProviderKind::AwsSdk,
        params: map(&[("a", "1"), ("b", "3")]),
    });
    let other = base.for_resolution(&ProviderResolution {
        kind: ProviderKind::AwsSdk,
        params: map(&[("a", "1")]),
    });
    assert_eq!(base.params_hash(), same.params_hash());
    assert_ne!(base.params_hash(), other.params_hash());
}

#[test]
fn a_resolution_from_a_kind_has_no_parameters() {
    let r = ProviderResolution::from_kind(ProviderKind::TmuxPanes);
    assert_eq!(r.kind, ProviderKind::TmuxPanes);
    assert_eq!(r.params.len(), 0);
}

// --- versions ---------------------------------------------------------------

#[test]
fn parse_version_finds_semver_like_token() {
    assert_eq!(
        parse_version("Client Version: v1.29.3\n"),
        Some(Version::new(1, 29, 3))
    );
    assert_eq!(
        parse_version("Homebrew 4.2.10"),
        Some(Version::new(4, 2, 10))
    );
}

#[test]
fn parse_version_handles_major_only_systemd_output() {
    assert_eq!(
        parse_version("systemd 255 (255.5-1-arch)\n"),
        Some(Version::new(255, 0, 0))
    );
}

#[test]
fn parse_min_version_accepts_major_minor() {
    assert_eq!(
        parse_min_version("1.11"),
        Some(Version::new(1, 11, 0))
    );
    assert_eq!(
        parse_min_version("247"),
        Some(Version::new(247, 0, 0))
    );
}

#[test]
fn versions_compare_by_their_numbers() {
    assert!(Version::new(1, 10, 0).at_least(&Version::new(1, 9, 9)));
    assert!(!Version::new(1, 9, 9).at_least(&Version::new(1, 10, 0)));
    assert!(Version::new(2, 0, 0).at_least(&Version::new(2, 0, 0)));
}

#[test]
fn text_without_a_version_has_none() {
    assert_eq!(parse_version("no digits here"), None);
    assert_eq!(parse_version(""), None);
    assert_eq!(parse_min_version("abc"), None);
}

#[test]
fn a_binary_is_probed_once() {
    let mut cache = VersionCache::new();
    let key = probe_key("kubectl", &vec!["version".to_string()]);
    let min = match begin_probe(&cache, &key, "1.18") {
        ProbeStep::Run(v) => v,
        ProbeStep::Answer(a) => panic!("nothing is known yet, got {a:?}"),
    };
    assert_eq!(min, Version::new(1, 18, 0));
    assert_eq!(
        finish_probe(&mut cache, key.clone(), Some("Client Version: v1.29.3"), &min),
        Some(true)
    );
    assert_eq!(begin_probe(&cache, &key, "1.18"), ProbeStep::Answer(Some(true)));
    assert_eq!(begin_probe(&cache, &key, "1.30"), ProbeStep::Answer(Some(false)));
}

#[test]
fn a_probe_that_found_nothing_is_remembered_too() {
    let mut cache = VersionCache::new();
    let key = probe_key("brew", &vec!["--version".to_string()]);
    assert_eq!(
        finish_probe(&mut cache, key.clone(), None, &Version::new(4, 0, 0)),
        None
    );
    assert_eq!(begin_probe(&cache, &key, "4.0"), ProbeStep::Answer(None));
}

// --- values kept under a key ------------------------------------------------

#[test]
fn a_stored_value_is_found_and_others_are_not_touched() {
    let mut cache: KeyedCache<String, u32> = KeyedCache::new();
    cache.store("a".to_string(), 1);
    cache.store("b".to_string(), 2);
    cache.store("a".to_string(), 3);
    assert_eq!(cache.get(&"a".to_string()), Some(&3));
    assert_eq!(cache.get(&"b".to_string()), Some(&2));
    assert_eq!(cache.get(&"c".to_string()), None);
    assert_eq!(cache.len(), 2);
}

#[test]
fn an_aged_value_is_not_given_out() {
    let mut cache: KeyedCache<String, Timed<u32>> = KeyedCache::new();
    cache.store("a".to_string(), Timed { stored_at: 1000, value: 7 });
    assert_eq!(get_fresh(&cache, &"a".to_string(), 1500, 1000), Some(&7));
    assert_eq!(get_fresh(&cache, &"a".to_string(), 2500, 1000), None);
}
