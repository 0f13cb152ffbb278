//! Providers that read plain command output.
use gc_suggest::providers::macos_apps::{
    app_paths_to_resolve, application_suggestions, assemble_bundle_identifiers, parse_applications,
    parse_bundle_identifiers, BUNDLE_ID_RESOLVE_CAP,
};
use gc_suggest::providers::macos_defaults::{
    domain_from_ctx, key_suggestions, parse_defaults_keys, parse_domains, resolve_domain,
};
use gc_suggest::providers::mamba::parse_env_list;
use gc_suggest::providers::pandoc::parse_formats;
use gc_suggest::types::{Suggestion, SuggestionKind, SuggestionSource};

fn owned(v: &[&str]) -> Vec<String> {
    v.iter().map(|s| s.to_string()).collect()
}

fn texts(v: &[Suggestion]) -> Vec<&str> {
    v.iter().map(|s| s.text.as_str()).collect()
}

#[test]
fn parse_applications_extracts_display_names_from_paths() {
    let mdfind = "/Applications/Safari.app\n/Applications/Terminal.app\n/Applications/Visual Studio Code.app\n";
    let parsed = parse_applications(mdfind);
    let names: Vec<&str> = parsed.iter().map(|(n, _)| n.as_str()).collect();
    assert_eq!(names, vec!["Safari", "Terminal", "Visual Studio Code"]);
    let paths: Vec<&str> = parsed.iter().map(|(_, p)| p.as_str()).collect();
    assert_eq!(
        paths,
        vec![
            "/Applications/Safari.app",
            "/Applications/Terminal.app",
            "/Applications/Visual Studio Code.app",
        ]
    );
}

#[test]
fn parse_applications_ignores_non_app_lines() {
    let mdfind = "/Applications/Safari.app\n\nrandom-text\n/tmp/not-an-app\n";
    let parsed = parse_applications(mdfind);
    assert_eq!(parsed.len(), 1);
    assert_eq!(parsed[0].0, "Safari");
}

#[test]
fn parse_bundle_identifiers_strips_quotes_filters_null_dedupes() {
    let mdls = "kMDItemCFBundleIdentifier = \"com.apple.Safari\"\nkMDItemCFBundleIdentifier = \"(null)\"\nkMDItemCFBundleIdentifier = \"com.apple.Safari\"\nkMDItemCFBundleIdentifier = \"com.apple.Terminal\"\n";
    let parsed = parse_bundle_identifiers(mdls);
    assert_eq!(parsed, vec!["com.apple.Safari", "com.apple.Terminal"]);
}

#[test]
fn parse_bundle_identifiers_accepts_raw_mdls_output() {
    let raw = "com.apple.Safari\n";
    let parsed = parse_bundle_identifiers(raw);
    assert_eq!(parsed, vec!["com.apple.Safari"]);
}

#[test]
fn app_paths_to_resolve_filters_non_app_lines_and_trims() {
    let mdfind = "  /Applications/Safari.app  \nrandom-noise\n\n/tmp/not-an-app\n/Applications/Terminal.app\n";
    let paths = app_paths_to_resolve(mdfind, BUNDLE_ID_RESOLVE_CAP);
    assert_eq!(
        paths,
        vec!["/Applications/Safari.app", "/Applications/Terminal.app"]
    );
}

#[test]
fn app_paths_to_resolve_applies_cap_keeping_only_app_lines() {
    let mut mdfind = String::new();
    for i in 0..600 {
        mdfind.push_str(&format!("/Applications/App{i}.app\n"));
        mdfind.push_str("noise-line\n");
    }
    let cap = 500;
    let paths = app_paths_to_resolve(&mdfind, cap);
    assert_eq!(paths.len(), cap);
    assert!(paths.iter().all(|p| p.ends_with(".app")));
    assert_eq!(paths[0], "/Applications/App0.app");
    assert_eq!(paths[cap - 1], "/Applications/App499.app");
}

#[test]
fn assemble_bundle_identifiers_dedupes_across_paths_first_wins() {
    let paths = owned(&["/Applications/Safari.app", "/Applications/Safari copy.app"]);
    let raw_outputs = vec![
        Some("com.apple.Safari\n".to_string()),
        Some("com.apple.Safari\n".to_string()),
    ];
    let suggestions = assemble_bundle_identifiers(&paths, &raw_outputs);
    assert_eq!(suggestions.len(), 1);
    assert_eq!(suggestions[0].text, "com.apple.Safari");
    assert_eq!(
        suggestions[0].description.as_deref(),
        Some("/Applications/Safari.app")
    );
}

#[test]
fn assemble_bundle_identifiers_skips_failed_lookups_and_preserves_order() {
    let paths = owned(&[
        "/Applications/Safari.app",
        "/Applications/Missing.app",
        "/Applications/Terminal.app",
    ]);
    let raw_outputs = vec![
        Some("com.apple.Safari\n".to_string()),
        None,
        Some("com.apple.Terminal\n".to_string()),
    ];
    let suggestions = assemble_bundle_identifiers(&paths, &raw_outputs);
    let texts: Vec<&str> = suggestions.iter().map(|s| s.text.as_str()).collect();
    assert_eq!(texts, vec!["com.apple.Safari", "com.apple.Terminal"]);
}

#[test]
fn parse_defaults_keys_extracts_top_level_keys() {
    let plist = r#"{
        "ApplePersistence" = 1;
        "AppleShowAllExtensions" = 1;
        "AppleShowAllFiles" = "YES";
        "tilesize" = 48;
        "nested" =     {
            "ignored_inner" = 1;
            "also_ignored" = (1, 2, 3);
        };
    }
    "#;
    let keys = parse_defaults_keys(plist);
    assert_eq!(
        keys,
        vec![
            "ApplePersistence",
            "AppleShowAllExtensions",
            "AppleShowAllFiles",
            "tilesize",
            "nested",
        ],
    );
}

#[test]
fn parse_defaults_keys_handles_unquoted_names() {
    let plist = r#"{
        keyWithoutQuotes = 1;
        AnotherKey = 2;
    }
    "#;
    let keys = parse_defaults_keys(plist);
    assert_eq!(keys, vec!["keyWithoutQuotes", "AnotherKey"]);
}

#[test]
fn parse_defaults_keys_handles_arrays_in_nested_value() {
    let plist = r#"{
        "persistent-apps" = (
            { "tile-data" = { "label" = "Finder"; }; },
            { "tile-data" = { "label" = "Mail"; }; }
        );
        "tilesize" = 48;
    }
    "#;
    let keys = parse_defaults_keys(plist);
    assert_eq!(keys, vec!["persistent-apps", "tilesize"]);
}

#[test]
fn parse_defaults_keys_empty_input_yields_empty() {
    assert!(parse_defaults_keys("").is_empty());
    assert!(parse_defaults_keys("{ }").is_empty());
}

#[test]
fn parse_defaults_keys_quoted_value_with_separators_stays_intact() {
    let plist = r#"{ "weird=key;name" = 1; "plain" = 2; }"#;
    let keys = parse_defaults_keys(plist);
    assert!(
        keys.contains(&"weird=key;name".to_string()),
        "expected quoted key with `=`/`;` to survive, got {keys:?}"
    );
    assert!(
        keys.contains(&"plain".to_string()),
        "expected `plain` key, got {keys:?}"
    );
    assert_eq!(keys, vec!["weird=key;name", "plain"]);
}

#[test]
fn parse_defaults_keys_string_value_with_semicolon_does_not_spawn_keys() {
    let plist = r#"{ "key" = "a;b"; "other" = 3; }"#;
    let keys = parse_defaults_keys(plist);
    assert_eq!(keys, vec!["key", "other"]);
}

#[test]
fn parse_defaults_keys_nested_quoted_value_with_unbalanced_brace_keeps_siblings() {
    let plist = r#"{ "outer" = { "inner" = "smiley :)"; }; "after" = 1; }"#;
    let keys = parse_defaults_keys(plist);
    assert_eq!(keys, vec!["outer", "after"]);
}

#[test]
fn parse_defaults_keys_truncated_input_no_panic() {
    let plist = r#"{ "persistent-apps" = ( { "x" = 1;"#;
    let keys = parse_defaults_keys(plist);
    assert_eq!(keys, vec!["persistent-apps"]);
}

#[test]
fn resolve_domain_rewrites_global_domain_sentinel() {
    assert_eq!(resolve_domain("-globalDomain").as_deref(), Some("NSGlobalDomain"));
}

#[test]
fn resolve_domain_bails_on_app_sentinel() {
    assert_eq!(resolve_domain("-app").as_deref(), None);
}

#[test]
fn resolve_domain_passes_through_real_domain() {
    assert_eq!(resolve_domain("com.apple.dock").as_deref(), Some("com.apple.dock"));
}

#[test]
fn macos_defaults_parse_happy_path() {
    let fixture = "com.apple.dock, com.apple.finder, com.apple.Safari, com.googlecode.iterm2\n";
    let suggestions = parse_domains(fixture);
    assert_eq!(suggestions.len(), 4);
    assert_eq!(suggestions[0].text, "com.apple.dock");
    assert_eq!(suggestions[1].text, "com.apple.finder");
    assert_eq!(suggestions[2].text, "com.apple.Safari");
    assert_eq!(suggestions[3].text, "com.googlecode.iterm2");
    for s in &suggestions {
        assert_eq!(s.description.as_deref(), Some("defaults domain"));
        assert_eq!(s.kind, SuggestionKind::ProviderValue);
        assert_eq!(s.source, SuggestionSource::Provider);
    }
}

#[test]
fn parse_trailing_comma_tolerated() {
    let fixture = "com.apple.dock, com.apple.finder, com.apple.Safari,\n";
    let suggestions = parse_domains(fixture);
    assert_eq!(suggestions.len(), 3);
    assert_eq!(suggestions[0].text, "com.apple.dock");
    assert_eq!(suggestions[1].text, "com.apple.finder");
    assert_eq!(suggestions[2].text, "com.apple.Safari");
    for s in &suggestions {
        assert!(
            !s.text.is_empty(),
            "trailing comma produced an empty suggestion"
        );
    }
}

#[test]
fn parse_extra_whitespace() {
    let fixture = "a,  b , c";
    let suggestions = parse_domains(fixture);
    assert_eq!(suggestions.len(), 3);
    assert_eq!(suggestions[0].text, "a");
    assert_eq!(suggestions[1].text, "b");
    assert_eq!(suggestions[2].text, "c");
}

#[test]
fn macos_defaults_parse_empty_input() {
    assert!(parse_domains("").is_empty());
    assert!(parse_domains("\n").is_empty());
}

#[test]
fn parse_env_list_happy_path() {
    let fixture = "\
# conda environments:
#
base                     /opt/conda
py311                    /opt/conda/envs/py311
myproject                /Users/me/envs/myproject
";
    let suggestions = parse_env_list(fixture);
    assert_eq!(suggestions.len(), 3);
    assert_eq!(suggestions[0].text, "base");
    assert_eq!(suggestions[1].text, "py311");
    assert_eq!(suggestions[2].text, "myproject");
    for s in &suggestions {
        assert_eq!(s.description.as_deref(), Some("conda environment"));
        assert_eq!(s.kind, SuggestionKind::ProviderValue);
        assert_eq!(s.source, SuggestionSource::Provider);
    }
}

#[test]
fn parse_env_list_skips_comments_and_blanks() {
    let fixture = "\n# conda environments:\n#\n\npy311                    /opt/conda/envs/py311\n\n# stale comment mid-table\nmyproject                /Users/me/envs/myproject\n\n";
    let suggestions = parse_env_list(fixture);
    assert_eq!(suggestions.len(), 2);
    assert_eq!(suggestions[0].text, "py311");
    assert_eq!(suggestions[1].text, "myproject");
}

#[test]
fn parse_env_list_active_marker_ignored() {
    let fixture = "\
# conda environments:
#
base                  *  /opt/conda
py311                    /opt/conda/envs/py311
";
    let suggestions = parse_env_list(fixture);
    assert_eq!(suggestions.len(), 2);
    assert_eq!(suggestions[0].text, "base");
    assert_eq!(suggestions[1].text, "py311");
    for s in &suggestions {
        assert!(
            !s.text.contains('*'),
            "text leaked active marker: {:?}",
            s.text
        );
    }
}

#[test]
fn parse_env_list_empty_input() {
    assert!(parse_env_list("").is_empty());
}

#[test]
fn parse_env_list_only_comments() {
    assert!(parse_env_list("# conda environments:\n#\n").is_empty());
}

#[test]
fn pandoc_parse_happy_path() {
    let fixture = "markdown\nhtml\njson\ndocx\nrst\n";
    let suggestions = parse_formats(fixture, "pandoc input format");
    assert_eq!(suggestions.len(), 5);
    assert_eq!(suggestions[0].text, "markdown");
    assert_eq!(suggestions[1].text, "html");
    assert_eq!(suggestions[2].text, "json");
    assert_eq!(suggestions[3].text, "docx");
    assert_eq!(suggestions[4].text, "rst");
    for s in &suggestions {
        assert_eq!(s.description.as_deref(), Some("pandoc input format"));
        assert_eq!(s.kind, SuggestionKind::ProviderValue);
        assert_eq!(s.source, SuggestionSource::Provider);
    }
}

#[test]
fn parse_trailing_newline_tolerated() {
    let fixture = "markdown\nhtml\n\n";
    let suggestions = parse_formats(fixture, "pandoc input format");
    assert_eq!(suggestions.len(), 2);
    assert_eq!(suggestions[0].text, "markdown");
    assert_eq!(suggestions[1].text, "html");
    for s in &suggestions {
        assert!(!s.text.is_empty());
    }
}

#[test]
fn pandoc_parse_empty_input() {
    assert!(parse_formats("", "pandoc input format").is_empty());
    assert!(parse_formats("\n\n\n", "pandoc input format").is_empty());
}

#[test]
fn parse_descriptions_differ() {
    let fixture = "markdown\n";
    let input = parse_formats(fixture, "pandoc input format");
    let output = parse_formats(fixture, "pandoc output format");
    assert_eq!(input.len(), 1);
    assert_eq!(output.len(), 1);
    assert_eq!(input[0].description.as_deref(), Some("pandoc input format"));
    assert_eq!(
        output[0].description.as_deref(),
        Some("pandoc output format")
    );
    assert_ne!(input[0].description, output[0].description);
}

#[test]
fn application_named_like_the_ending_keeps_its_name() {
    let parsed = parse_applications("/Applications/.app\n/a.b.app\nx/..app\n");
    let names: Vec<&str> = parsed.iter().map(|(n, _)| n.as_str()).collect();
    assert_eq!(names, vec![".app", "a.b", "."]);
}

#[test]
fn applications_become_suggestions_with_their_paths() {
    let suggestions = application_suggestions("/Applications/Safari.app\n");
    assert_eq!(texts(&suggestions), vec!["Safari"]);
    assert_eq!(suggestions[0].description.as_deref(), Some("/Applications/Safari.app"));
    assert_eq!(suggestions[0].kind, SuggestionKind::ProviderValue);
}

#[test]
fn keys_of_a_domain_are_described_by_it() {
    let suggestions = key_suggestions("{ tilesize = 48; }", "com.apple.dock");
    assert_eq!(texts(&suggestions), vec!["tilesize"]);
    assert_eq!(suggestions[0].description.as_deref(), Some("key in com.apple.dock"));
}

#[test]
fn blank_keys_are_dropped() {
    assert!(parse_defaults_keys("{ = 1; \" \" = 2; }").is_empty());
}

#[test]
fn quoted_values_are_inert() {
    assert_eq!(
        parse_defaults_keys("{ a = \"x = {(;\"; b = 1; }"),
        parse_defaults_keys("{ a = \"\"; b = 1; }")
    );
}

#[test]
fn the_domain_comes_from_the_previous_word() {
    let ctx = ctx_with(&[("prev_arg", "-globalDomain")]);
    assert_eq!(domain_from_ctx(&ctx).as_deref(), Some("NSGlobalDomain"));
    let ctx = ctx_with(&[("prev_arg", "-app")]);
    assert_eq!(domain_from_ctx(&ctx), None);
    let ctx = ctx_with(&[]);
    assert_eq!(domain_from_ctx(&ctx), None);
}

fn ctx_with(params: &[(&str, &str)]) -> gc_suggest::providers::context::ProviderCtx {
    let mut map = gc_suggest::text_map::TextMap::new();
    for (k, v) in params {
        map.insert(k.to_string(), v.to_string());
    }
    gc_suggest::providers::context::ProviderCtx {
        cwd: "/tmp".to_string(),
        env: std::sync::Arc::new(gc_suggest::text_map::TextMap::new()),
        current_token: String::new(),
        params: std::sync::Arc::new(map),
    }
}
