//! Completion specs: reading them, keeping them, and resolving a command line
//! against one.
use gc_suggest::providers::kind::kind_from_type_str;
use gc_suggest::specs::guard::{
    check_json_depth, has_control_char, sanitize_spec_strings, sanitize_text, MAX_SPEC_JSON_DEPTH,
};
use gc_suggest::specs::heap::estimated_heap_bytes;
use gc_suggest::specs::loading::{
    file_stem, is_spec_file, DirListing, EmbeddedSpec, SpecFile,
};
use gc_suggest::specs::model::{
    ArgSpec, CompletionSpec, GeneratorSpec, NamedTransform, OptionSpec, SubcommandSpec,
    SuggestionEntry, SuggestionObject, Transform,
};
use gc_suggest::specs::parsing::{
    choose_template, parse_entry_source, shallow_parse_name, split_option_args,
};
use gc_suggest::specs::resolve::{find_option, resolve_spec, suggestion_kind_from_type};
use gc_suggest::specs::store::{
    AliasConflict, AliasConflictDisposition, AliasConflictKind, SpecEntry, SpecLookupError,
    SpecSource, SpecStore, EMBEDDED_VIRTUAL_DIR,
};
use gc_suggest::specs::validate::{is_known_suggestion_type, validate_spec_generators};
use gc_suggest::types::{
    CommandContext, Priority, QuoteState, SuggestionKind, SuggestionSource,
};
use serde_json::Value;
use std::collections::{BTreeMap, HashMap};
use std::sync::Arc;

// --- reading specs from JSON ------------------------------------------------

type Read<T> = Result<T, String>;

fn text_of(v: &Value) -> Read<String> {
    v.as_str().map(|s| s.to_string()).ok_or_else(|| format!("not a string: {v}"))
}

fn opt_text(v: &Value, key: &str) -> Read<Option<String>> {
    match v.get(key) {
        None | Some(Value::Null) => Ok(None),
        Some(x) => text_of(x).map(Some),
    }
}

fn list_of<T>(v: &Value, key: &str, read: fn(&Value) -> Read<T>) -> Read<Vec<T>> {
    match v.get(key) {
        None => Ok(Vec::new()),
        Some(Value::Array(items)) => items.iter().map(read).collect(),
        Some(x) => Err(format!("{key} is not an array: {x}")),
    }
}

fn one_or_many<T>(v: &Value, key: &str, read: fn(&Value) -> Read<T>) -> Read<Vec<T>> {
    match v.get(key) {
        None | Some(Value::Null) => Ok(Vec::new()),
        Some(Value::Array(items)) => items.iter().map(read).collect(),
        Some(x) => Ok(vec![read(x)?]),
    }
}

fn opt_list(v: &Value, key: &str) -> Read<Option<Vec<String>>> {
    match v.get(key) {
        None => Ok(None),
        Some(_) => list_of(v, key, text_of).map(Some),
    }
}

fn flag(v: &Value, key: &str) -> bool {
    v.get(key).and_then(|x| x.as_bool()).unwrap_or(false)
}

fn priority_of(v: &Value) -> Option<Priority> {
    v.get("priority").and_then(|x| x.as_u64()).map(|p| Priority::new(p as u8))
}

fn transform(v: &Value) -> Read<Transform> {
    match v.as_str() {
        Some("split_lines") => Ok(Transform::Named(NamedTransform::SplitLines)),
        Some("filter_empty") => Ok(Transform::Named(NamedTransform::FilterEmpty)),
        Some("trim") => Ok(Transform::Named(NamedTransform::Trim)),
        _ => Err(format!("unknown transform: {v}")),
    }
}

fn pipeline_error(transforms: &[Transform]) -> Option<String> {
    let mut split = false;
    for t in transforms {
        let splits = matches!(t, Transform::Named(NamedTransform::SplitLines));
        if splits && split {
            return Some("split twice".to_string());
        }
        if !splits && !split {
            return Some("not split yet".to_string());
        }
        split = split || splits;
    }
    None
}

fn generator(v: &Value) -> Read<GeneratorSpec> {
    let transforms = list_of(v, "transforms", transform)?;
    let error = pipeline_error(&transforms);
    Ok(GeneratorSpec {
        generator_type: opt_text(v, "type")?,
        script: opt_list(v, "script")?,
        script_template: opt_list(v, "script_template")?,
        transforms,
        pipeline_error: error,
        cache: None,
        requires_js: flag(v, "requires_js"),
        js_source: opt_text(v, "js_source")?,
        js_runtime: None,
        corrected_in: opt_text(v, "_corrected_in")?,
        template: choose_template(&one_or_many(v, "template", text_of)?),
    })
}

fn entry(v: &Value) -> Read<SuggestionEntry> {
    match v {
        Value::String(s) => Ok(SuggestionEntry::Plain(s.clone())),
        _ => Ok(SuggestionEntry::Object(SuggestionObject {
            name: one_or_many(v, "name", text_of)?,
            description: opt_text(v, "description")?,
            kind: opt_text(v, "type")?,
            priority: priority_of(v),
            hidden: flag(v, "hidden"),
        })),
    }
}

fn arg(v: &Value) -> Read<ArgSpec> {
    Ok(ArgSpec {
        name: opt_text(v, "name")?,
        description: opt_text(v, "description")?,
        generators: list_of(v, "generators", generator)?,
        template: choose_template(&one_or_many(v, "template", text_of)?),
        suggestions: one_or_many(v, "suggestions", entry)?,
        is_optional: flag(v, "isOptional"),
        is_variadic: flag(v, "isVariadic"),
    })
}

fn option(v: &Value) -> Read<OptionSpec> {
    let (first, rest) = split_option_args(one_or_many(v, "args", arg)?);
    Ok(OptionSpec {
        name: list_of(v, "name", text_of)?,
        description: opt_text(v, "description")?,
        args: first,
        extra_args: rest,
        priority: priority_of(v),
    })
}

fn subcommand(v: &Value) -> Read<SubcommandSpec> {
    Ok(SubcommandSpec {
        name: text_of(&v["name"])?,
        description: opt_text(v, "description")?,
        subcommands: list_of(v, "subcommands", subcommand)?,
        options: list_of(v, "options", option)?,
        args: one_or_many(v, "args", arg)?,
        priority: priority_of(v),
    })
}

fn read_spec(json: &str) -> Read<CompletionSpec> {
    let v: Value = serde_json::from_str(json).map_err(|e| e.to_string())?;
    Ok(CompletionSpec {
        name: text_of(&v["name"])?,
        description: opt_text(&v, "description")?,
        subcommands: list_of(&v, "subcommands", subcommand)?,
        options: list_of(&v, "options", option)?,
        args: one_or_many(&v, "args", arg)?,
    })
}

fn header_name(json: &str) -> Option<String> {
    let v: Value = serde_json::from_str(json).ok()?;
    v.get("name").and_then(|n| n.as_str()).map(|s| s.to_string())
}

fn parse_spec_checked_and_sanitized(json: &str) -> Read<CompletionSpec> {
    gc_suggest::specs::parsing::parse_spec_checked_and_sanitized(json, read_spec)
}

// --- a store over directories in memory -------------------------------------

struct Dir {
    path: String,
    files: BTreeMap<String, String>,
}

impl Dir {
    fn new(path: &str) -> Dir {
        Dir { path: path.to_string(), files: BTreeMap::new() }
    }

    fn path(&self) -> &str {
        &self.path
    }

    fn write(&mut self, name: &str, body: impl Into<String>) {
        self.files.insert(name.to_string(), body.into());
    }

    fn listing(&self) -> DirListing {
        let mut files = Vec::new();
        for (name, body) in self.files.iter().rev() {
            files.push(SpecFile {
                file_name: name.clone(),
                path: format!("{}/{}", self.path, name),
                declared_name: shallow_parse_name(body, header_name),
            });
        }
        DirListing { dir: self.path.clone(), files: Ok(files) }
    }
}

struct Store {
    inner: SpecStore,
    disk: BTreeMap<String, String>,
}

fn load_source(disk: &BTreeMap<String, String>, source: &SpecSource) -> Read<Arc<CompletionSpec>> {
    parse_entry_source(
        source,
        |path: &String| disk.get(path).cloned().ok_or_else(|| format!("cannot read {path}")),
        read_spec,
    )
}

impl Store {
    fn get(&mut self, command: &str) -> Option<&CompletionSpec> {
        let disk = &self.disk;
        self.inner.get(command, &|s: &SpecSource| load_source(disk, s))
    }

    fn get_result(&mut self, command: &str) -> Result<&CompletionSpec, SpecLookupError> {
        let disk = &self.disk;
        self.inner.get_result(command, &|s: &SpecSource| load_source(disk, s))
    }

    fn iter(&mut self) -> std::vec::IntoIter<(String, String)> {
        let disk = &self.disk;
        let found = self.inner.iter(&|s: &SpecSource| load_source(disk, s));
        let named: Vec<(String, String)> =
            found.into_iter().map(|(id, s)| (id.to_string(), s.name.clone())).collect();
        named.into_iter()
    }

    fn nonfunctional_aliases_count(&mut self) -> usize {
        let disk = &self.disk;
        self.inner.nonfunctional_aliases_count(&|s: &SpecSource| load_source(disk, s))
    }

    fn load_error_ids(&mut self) -> Vec<String> {
        let disk = &self.disk;
        let errors = self.inner.force_load_errors(&|s: &SpecSource| load_source(disk, s));
        errors.into_iter().map(|e| e.id).collect()
    }

    fn entries(&self) -> &Vec<SpecEntry> {
        self.inner.entries()
    }

    fn conflicts(&self) -> &Vec<AliasConflict> {
        self.inner.conflicts()
    }

    fn aliases_count(&self) -> usize {
        self.inner.aliases_count()
    }

    fn is_empty(&self) -> bool {
        self.inner.is_empty()
    }
}

struct Loaded {
    store: Store,
    directory_errors: Vec<String>,
}

fn disk_of(dirs: &[&Dir]) -> BTreeMap<String, String> {
    let mut disk = BTreeMap::new();
    for dir in dirs {
        for (name, body) in &dir.files {
            disk.insert(format!("{}/{}", dir.path, name), body.clone());
        }
    }
    disk
}

fn load_from_dir(dir: &Dir) -> Loaded {
    let r = SpecStore::load_from_dir(dir.listing());
    Loaded {
        store: Store { inner: r.store, disk: disk_of(&[dir]) },
        directory_errors: r.directory_errors,
    }
}

fn load_from_dirs(dirs: &[&Dir]) -> Loaded {
    let r = SpecStore::load_from_dirs(dirs.iter().map(|d| d.listing()).collect());
    Loaded {
        store: Store { inner: r.store, disk: disk_of(dirs) },
        directory_errors: r.directory_errors,
    }
}

fn corpus() -> Vec<EmbeddedSpec> {
    vec![
        EmbeddedSpec {
            file_name: "appwrite.json",
            contents: r#"{"name":"index","subcommands":[{"name":"account"}]}"#,
            name_alias: Some("index"),
        },
        EmbeddedSpec {
            file_name: "cargo.json",
            contents: r#"{"name":"cargo","subcommands":[{"name":"build"}]}"#,
            name_alias: None,
        },
        EmbeddedSpec {
            file_name: "docker.json",
            contents: r#"{"name":"docker","subcommands":[{"name":"run"}]}"#,
            name_alias: None,
        },
        EmbeddedSpec {
            file_name: "git.json",
            contents: r#"{"name":"git","subcommands":[{"name":"embedded-copy"}]}"#,
            name_alias: None,
        },
    ]
}

fn load_with_embedded(dirs: &[&Dir]) -> Loaded {
    let r = SpecStore::load_with_embedded(dirs.iter().map(|d| d.listing()).collect(), &corpus());
    Loaded {
        store: Store { inner: r.store, disk: disk_of(dirs) },
        directory_errors: r.directory_errors,
    }
}

// --- resolving --------------------------------------------------------------

fn test_spec() -> CompletionSpec {
    read_spec(
        r#"{
            "name": "test-cmd",
            "description": "A test command",
            "subcommands": [
                {
                    "name": "sub1",
                    "description": "First subcommand",
                    "options": [
                        { "name": ["--verbose", "-v"], "description": "Verbose output" }
                    ],
                    "args": [
                        {
                            "name": "target",
                            "generators": [{ "type": "git_branches" }]
                        }
                    ]
                },
                {
                    "name": "sub2",
                    "description": "Second subcommand"
                }
            ],
            "options": [
                { "name": ["--help", "-h"], "description": "Show help" }
            ]
        }"#,
    )
    .unwrap()
}

#[test]
fn test_resolve_top_level_subcommands() {
    let spec = test_spec();
    let ctx = CommandContext {
        command: Some("test-cmd".into()),
        args: vec![],
        current_word: String::new(),
        word_index: 1,
        is_flag: false,
        is_long_flag: false,
        preceding_flag: None,
        in_pipe: false,
        in_redirect: false,
        quote_state: QuoteState::Unquoted,
        is_first_segment: true,
    };
    let res = resolve_spec(&spec, &ctx);
    let names: Vec<&str> = res.subcommands.iter().map(|s| s.text.as_str()).collect();
    assert!(names.contains(&"sub1"));
    assert!(names.contains(&"sub2"));
}

#[test]
fn test_resolve_subcommand_options() {
    let spec = test_spec();
    let ctx = CommandContext {
        command: Some("test-cmd".into()),
        args: vec!["sub1".into()],
        current_word: "--".into(),
        word_index: 2,
        is_flag: true,
        is_long_flag: true,
        preceding_flag: None,
        in_pipe: false,
        in_redirect: false,
        quote_state: QuoteState::Unquoted,
        is_first_segment: true,
    };
    let res = resolve_spec(&spec, &ctx);
    let names: Vec<&str> = res.options.iter().map(|s| s.text.as_str()).collect();
    assert!(names.contains(&"--verbose"));
    assert!(names.contains(&"-v"));
}

#[test]
fn test_resolve_generators() {
    let spec = test_spec();
    let ctx = CommandContext {
        command: Some("test-cmd".into()),
        args: vec!["sub1".into()],
        current_word: String::new(),
        word_index: 2,
        is_flag: false,
        is_long_flag: false,
        preceding_flag: None,
        in_pipe: false,
        in_redirect: false,
        quote_state: QuoteState::Unquoted,
        is_first_segment: true,
    };
    let res = resolve_spec(&spec, &ctx);
    assert!(res.native_generators.contains(&"git_branches".to_string()));
}

#[test]
fn test_resolve_unknown_subcommand_doesnt_panic() {
    let spec = test_spec();
    let ctx = CommandContext {
        command: Some("test-cmd".into()),
        args: vec!["nonexistent".into()],
        current_word: String::new(),
        word_index: 2,
        is_flag: false,
        is_long_flag: false,
        preceding_flag: None,
        in_pipe: false,
        in_redirect: false,
        quote_state: QuoteState::Unquoted,
        is_first_segment: true,
    };
    let res = resolve_spec(&spec, &ctx);
    assert!(res.subcommands.is_empty() || !res.subcommands.is_empty());
}

#[test]
fn test_folders_template_sets_wants_folders_only() {
    let spec: CompletionSpec = read_spec(
        r#"{
            "name": "cd",
            "description": "Change directory",
            "args": [{ "name": "directory", "template": "folders" }]
        }"#,
    )
    .unwrap();
    let ctx = CommandContext {
        command: Some("cd".into()),
        args: vec![],
        current_word: String::new(),
        word_index: 1,
        is_flag: false,
        is_long_flag: false,
        preceding_flag: None,
        in_pipe: false,
        in_redirect: false,
        quote_state: QuoteState::Unquoted,
        is_first_segment: true,
    };
    let res = resolve_spec(&spec, &ctx);
    assert!(
        res.wants_folders_only,
        "folders template should set wants_folders_only"
    );
    assert!(
        !res.wants_filepaths,
        "folders template should NOT set wants_filepaths"
    );
}

#[test]
fn test_filepaths_template_sets_wants_filepaths() {
    let spec: CompletionSpec = read_spec(
        r#"{
            "name": "cat",
            "description": "Concatenate files",
            "args": [{ "name": "file", "template": "filepaths" }]
        }"#,
    )
    .unwrap();
    let ctx = CommandContext {
        command: Some("cat".into()),
        args: vec![],
        current_word: String::new(),
        word_index: 1,
        is_flag: false,
        is_long_flag: false,
        preceding_flag: None,
        in_pipe: false,
        in_redirect: false,
        quote_state: QuoteState::Unquoted,
        is_first_segment: true,
    };
    let res = resolve_spec(&spec, &ctx);
    assert!(
        res.wants_filepaths,
        "filepaths template should set wants_filepaths"
    );
    assert!(
        !res.wants_folders_only,
        "filepaths template should NOT set wants_folders_only"
    );
}

#[test]
fn test_option_arg_filepaths_template_via_preceding_flag() {
    let spec: CompletionSpec = read_spec(
        r#"{
            "name": "pip",
            "description": "Python package installer",
            "subcommands": [{
                "name": "install",
                "description": "Install packages",
                "options": [{
                    "name": ["-r", "--requirement"],
                    "description": "Install from requirements file",
                    "args": { "name": "file", "template": "filepaths" }
                }]
            }]
        }"#,
    )
    .unwrap();
    let ctx = CommandContext {
        command: Some("pip".into()),
        args: vec!["install".into(), "-r".into()],
        current_word: String::new(),
        word_index: 3,
        is_flag: false,
        is_long_flag: false,
        preceding_flag: Some("-r".into()),
        in_pipe: false,
        in_redirect: false,
        quote_state: QuoteState::Unquoted,
        is_first_segment: true,
    };
    let res = resolve_spec(&spec, &ctx);
    assert!(
        res.wants_filepaths,
        "option with filepaths template should set wants_filepaths when preceding_flag matches"
    );
}

#[test]
fn test_option_arg_folders_template_via_preceding_flag() {
    let spec: CompletionSpec = read_spec(
        r#"{
            "name": "pip",
            "description": "Python package installer",
            "subcommands": [{
                "name": "install",
                "description": "Install packages",
                "options": [{
                    "name": ["-t", "--target"],
                    "description": "Install into this directory",
                    "args": { "name": "dir", "template": "folders" }
                }]
            }]
        }"#,
    )
    .unwrap();
    let ctx = CommandContext {
        command: Some("pip".into()),
        args: vec!["install".into(), "-t".into()],
        current_word: String::new(),
        word_index: 3,
        is_flag: false,
        is_long_flag: false,
        preceding_flag: Some("-t".into()),
        in_pipe: false,
        in_redirect: false,
        quote_state: QuoteState::Unquoted,
        is_first_segment: true,
    };
    let res = resolve_spec(&spec, &ctx);
    assert!(
        res.wants_folders_only,
        "option with folders template should set wants_folders_only when preceding_flag matches"
    );
    assert!(
        !res.wants_filepaths,
        "folders template should NOT set wants_filepaths"
    );
}

#[test]
fn test_option_arg_generator_via_preceding_flag() {
    let spec: CompletionSpec = read_spec(
        r#"{
            "name": "test-cmd",
            "description": "Test",
            "options": [{
                "name": ["-b", "--branch"],
                "description": "Branch name",
                "args": {
                    "name": "branch",
                    "generators": [{ "type": "git_branches" }]
                }
            }]
        }"#,
    )
    .unwrap();
    let ctx = CommandContext {
        command: Some("test-cmd".into()),
        args: vec!["-b".into()],
        current_word: String::new(),
        word_index: 2,
        is_flag: false,
        is_long_flag: false,
        preceding_flag: Some("-b".into()),
        in_pipe: false,
        in_redirect: false,
        quote_state: QuoteState::Unquoted,
        is_first_segment: true,
    };
    let res = resolve_spec(&spec, &ctx);
    assert!(
        res.native_generators.contains(&"git_branches".to_string()),
        "option arg generators should be collected via preceding_flag"
    );
}

#[test]
fn test_no_preceding_flag_no_option_template() {
    let spec: CompletionSpec = read_spec(
        r#"{
            "name": "pip",
            "description": "Python package installer",
            "subcommands": [{
                "name": "install",
                "description": "Install packages",
                "options": [{
                    "name": ["-r"],
                    "description": "Requirements file",
                    "args": { "name": "file", "template": "filepaths" }
                }]
            }]
        }"#,
    )
    .unwrap();
    let ctx = CommandContext {
        command: Some("pip".into()),
        args: vec!["install".into()],
        current_word: String::new(),
        word_index: 2,
        is_flag: false,
        is_long_flag: false,
        preceding_flag: None,
        in_pipe: false,
        in_redirect: false,
        quote_state: QuoteState::Unquoted,
        is_first_segment: true,
    };
    let res = resolve_spec(&spec, &ctx);
    assert!(
        !res.wants_filepaths,
        "should NOT want filepaths when no preceding_flag is set"
    );
}

#[test]
fn test_resolve_spec_splits_generators() {
    let spec: CompletionSpec = read_spec(
        r#"{
            "name": "test-mixed",
            "args": [{
                "name": "target",
                "generators": [
                    {"type": "git_branches"},
                    {"script": ["some-cmd"], "transforms": ["split_lines"]},
                    {"requires_js": true, "js_source": "..."}
                ]
            }]
        }"#,
    )
    .unwrap();
    let ctx = CommandContext {
        command: Some("test-mixed".into()),
        args: vec![],
        current_word: String::new(),
        word_index: 1,
        is_flag: false,
        is_long_flag: false,
        preceding_flag: None,
        in_pipe: false,
        in_redirect: false,
        quote_state: QuoteState::Unquoted,
        is_first_segment: true,
    };
    let res = resolve_spec(&spec, &ctx);
    assert_eq!(res.native_generators, vec!["git_branches"]);
    assert_eq!(res.script_generators.len(), 1);
    assert!(res.script_generators[0].script.is_some());
}

#[test]
fn test_find_option_with_equals_value() {
    let options = vec![OptionSpec {
        name: vec!["--output".into(), "-o".into()],
        description: Some("Output format".into()),
        args: Some(ArgSpec {
            name: Some("format".into()),
            description: None,
            generators: vec![],
            template: None,
            suggestions: vec![],
            is_optional: false,
            is_variadic: false,
        }),
        extra_args: Vec::new(),
        priority: None,
    }];
    assert!(find_option(&options, "--output").is_some());
    assert!(find_option(&options, "--output=json").is_some());
    assert!(find_option(&options, "-o").is_some());
    assert!(find_option(&options, "--format").is_none());
}

#[test]
fn test_find_option_handles_large_spec_with_equals_value() {
    let mut options: Vec<OptionSpec> = Vec::with_capacity(200);
    for i in 0..200 {
        options.push(OptionSpec {
            name: vec![format!("--opt-{i}"), format!("-o{i}")],
            description: Some(format!("option {i}")),
            args: if i % 2 == 0 {
                Some(ArgSpec {
                    name: Some("val".into()),
                    description: None,
                    generators: vec![],
                    template: None,
                    suggestions: vec![],
                    is_optional: false,
                    is_variadic: false,
                })
            } else {
                None
            },
            extra_args: Vec::new(),
            priority: None,
        });
    }

    for i in 0..200 {
        let long = format!("--opt-{i}");
        let short = format!("-o{i}");
        let eq = format!("--opt-{i}=value");
        assert_eq!(
            find_option(&options, &long).map(|o| &o.name[0]),
            Some(&long),
        );
        assert_eq!(
            find_option(&options, &short).map(|o| &o.name[0]),
            Some(&long)
        );
        assert_eq!(find_option(&options, &eq).map(|o| &o.name[0]), Some(&long));
    }

    assert!(find_option(&options, "--nope").is_none());
}

#[test]
fn test_resolve_spec_provider_generators_empty_by_default() {
    let spec: CompletionSpec = read_spec(
        r#"{
            "name": "test-no-providers",
            "args": [{
                "name": "target",
                "generators": [{"type": "git_branches"}],
                "template": "filepaths"
            }]
        }"#,
    )
    .unwrap();
    let ctx = CommandContext {
        command: Some("test-no-providers".into()),
        args: vec![],
        current_word: String::new(),
        word_index: 1,
        is_flag: false,
        is_long_flag: false,
        preceding_flag: None,
        in_pipe: false,
        in_redirect: false,
        quote_state: QuoteState::Unquoted,
        is_first_segment: true,
    };
    let res = resolve_spec(&spec, &ctx);
    assert!(
        res.provider_generators.is_empty(),
        "expected empty provider_generators for non-provider spec: {:?}",
        res.provider_generators
    );
}

#[test]
fn test_resolve_spec_known_type_plus_script_does_not_double_dispatch() {
    let spec: CompletionSpec = read_spec(
        r#"{
            "name": "test-dual-dispatch",
            "args": [{
                "name": "target",
                "generators": [
                    {"type": "git_branches", "script": ["echo", "should-not-run"]}
                ]
            }]
        }"#,
    )
    .unwrap();
    let ctx = CommandContext {
        command: Some("test-dual-dispatch".into()),
        args: vec![],
        current_word: String::new(),
        word_index: 1,
        is_flag: false,
        is_long_flag: false,
        preceding_flag: None,
        in_pipe: false,
        in_redirect: false,
        quote_state: QuoteState::Unquoted,
        is_first_segment: true,
    };
    let res = resolve_spec(&spec, &ctx);
    assert!(
        res.native_generators.contains(&"git_branches".to_string()),
        "native arm must win when `type` is a known native"
    );
    assert!(
        res.script_generators.is_empty(),
        "script must NOT also dispatch when `type` matched a native arm: got {:?}",
        res.script_generators
    );
}

#[test]
fn test_resolve_spec_unknown_type_plus_script_still_dispatches_script() {
    let spec: CompletionSpec = read_spec(
        r#"{
            "name": "test-unknown-plus-script",
            "args": [{
                "name": "target",
                "generators": [
                    {"type": "nonexistent_provider", "script": ["echo", "ok"]}
                ]
            }]
        }"#,
    )
    .unwrap();
    let ctx = CommandContext {
        command: Some("test-unknown-plus-script".into()),
        args: vec![],
        current_word: String::new(),
        word_index: 1,
        is_flag: false,
        is_long_flag: false,
        preceding_flag: None,
        in_pipe: false,
        in_redirect: false,
        quote_state: QuoteState::Unquoted,
        is_first_segment: true,
    };
    let res = resolve_spec(&spec, &ctx);
    assert!(
        res.provider_generators.is_empty(),
        "unknown type must not route to providers"
    );
    assert_eq!(
        res.script_generators.len(),
        1,
        "script must still dispatch on unknown-type + script combo"
    );
}

#[test]
fn test_resolve_spec_unknown_provider_type_does_not_route_to_providers() {
    let spec: CompletionSpec = read_spec(
        r#"{
            "name": "test-unknown-provider",
            "args": [{
                "name": "target",
                "generators": [{"type": "nonexistent_provider"}]
            }]
        }"#,
    )
    .unwrap();
    let ctx = CommandContext {
        command: Some("test-unknown-provider".into()),
        args: vec![],
        current_word: String::new(),
        word_index: 1,
        is_flag: false,
        is_long_flag: false,
        preceding_flag: None,
        in_pipe: false,
        in_redirect: false,
        quote_state: QuoteState::Unquoted,
        is_first_segment: true,
    };
    let res = resolve_spec(&spec, &ctx);
    assert!(
        res.provider_generators.is_empty(),
        "unknown generator_type must not be routed to provider_generators"
    );
    assert!(
        res.native_generators
            .contains(&"nonexistent_provider".to_string()),
        "unknown generator_type should still land in native_generators (preserves unknown-type warn path)"
    );
}

#[test]
fn test_resolve_spec_routes_known_provider_to_provider_generators() {
    let provider_types: &[&str] = &[
        "ansible_doc_modules",
        "arduino_cli_boards",
        "arduino_cli_ports",
        "cargo_workspace_members",
        "defaults_domains",
        "makefile_targets",
        "mamba_envs",
        "multipass_list",
        "multipass_list_not_deleted",
        "multipass_list_deleted",
        "multipass_list_running",
        "multipass_list_stopped",
        "npm_scripts",
        "pandoc_input_formats",
        "pandoc_output_formats",
    ];
    for type_str in provider_types {
        let spec_json = format!(
            r#"{{
                "name": "test-provider-{type_str}",
                "args": [{{
                    "name": "target",
                    "generators": [{{"type": "{type_str}"}}]
                }}]
            }}"#
        );
        let spec: CompletionSpec = read_spec(&spec_json).unwrap();
        let ctx = CommandContext {
            command: Some(format!("test-provider-{type_str}")),
            args: vec![],
            current_word: String::new(),
            word_index: 1,
            is_flag: false,
            is_long_flag: false,
            preceding_flag: None,
            in_pipe: false,
            in_redirect: false,
            quote_state: QuoteState::Unquoted,
            is_first_segment: true,
        };
        let res = resolve_spec(&spec, &ctx);
        assert_eq!(
            res.provider_generators.len(),
            1,
            "provider type {type_str:?} must route to provider_generators"
        );
        assert!(
            res.native_generators.is_empty(),
            "provider type {type_str:?} must NOT also appear in native_generators: {:?}",
            res.native_generators
        );
        assert!(
            res.script_generators.is_empty(),
            "provider type {type_str:?} must NOT also dispatch a script: {:?}",
            res.script_generators
        );
        let expected_kind = kind_from_type_str(type_str)
            .unwrap_or_else(|| panic!("kind_from_type_str({type_str:?}) returned None"));
        assert_eq!(
            res.provider_generators[0], expected_kind,
            "wrong ProviderKind variant for {type_str:?}"
        );
    }
}

#[test]
fn subcommand_priority_propagates_to_suggestion() {
    let json = r#"{
        "name": "git",
        "subcommands": [
            { "name": "checkout", "priority": 95 }
        ]
    }"#;
    let spec: CompletionSpec = read_spec(json).unwrap();
    let ctx = CommandContext {
        command: Some("git".into()),
        args: vec![],
        current_word: String::new(),
        word_index: 1,
        is_flag: false,
        is_long_flag: false,
        preceding_flag: None,
        in_pipe: false,
        in_redirect: false,
        quote_state: QuoteState::Unquoted,
        is_first_segment: true,
    };
    let resolution = resolve_spec(&spec, &ctx);
    let checkout = resolution
        .subcommands
        .iter()
        .find(|s| s.text == "checkout")
        .expect("checkout subcommand should be present");
    assert_eq!(checkout.priority, Some(Priority::new(95)));
}

#[test]
fn nested_subcommand_priority_propagates_to_suggestion() {
    let json = r#"{
        "name": "git",
        "subcommands": [
            {
                "name": "remote",
                "priority": 72,
                "subcommands": [
                    { "name": "add", "priority": 85 },
                    { "name": "rm" }
                ]
            }
        ]
    }"#;
    let spec: CompletionSpec = read_spec(json).unwrap();
    let ctx = CommandContext {
        command: Some("git".into()),
        args: vec!["remote".into()],
        current_word: String::new(),
        word_index: 2,
        is_flag: false,
        is_long_flag: false,
        preceding_flag: None,
        in_pipe: false,
        in_redirect: false,
        quote_state: QuoteState::Unquoted,
        is_first_segment: true,
    };
    let resolution = resolve_spec(&spec, &ctx);
    let add = resolution
        .subcommands
        .iter()
        .find(|s| s.text == "add")
        .expect("nested `add` subcommand should be present");
    assert_eq!(add.priority, Some(Priority::new(85)));
    let rm = resolution
        .subcommands
        .iter()
        .find(|s| s.text == "rm")
        .expect("nested `rm` subcommand should be present");
    assert_eq!(rm.priority, None);
}

#[test]
fn option_priority_propagates_to_every_alias() {
    let json = r#"{
        "name": "rsync",
        "options": [
            { "name": ["-r", "--recursive"], "priority": 70 }
        ]
    }"#;
    let spec: CompletionSpec = read_spec(json).unwrap();
    let ctx = CommandContext {
        command: Some("rsync".into()),
        args: vec![],
        current_word: String::new(),
        word_index: 1,
        is_flag: false,
        is_long_flag: false,
        preceding_flag: None,
        in_pipe: false,
        in_redirect: false,
        quote_state: QuoteState::Unquoted,
        is_first_segment: true,
    };
    let resolution = resolve_spec(&spec, &ctx);
    let r = resolution
        .options
        .iter()
        .find(|s| s.text == "-r")
        .expect("`-r` flag suggestion should be present");
    let recursive = resolution
        .options
        .iter()
        .find(|s| s.text == "--recursive")
        .expect("`--recursive` flag suggestion should be present");
    assert_eq!(r.priority, Some(Priority::new(70)));
    assert_eq!(recursive.priority, Some(Priority::new(70)));
    assert_eq!(r.kind, SuggestionKind::Flag);
    assert_eq!(recursive.kind, SuggestionKind::Flag);
}

#[test]
fn test_resolve_static_suggestions_positional() {
    let spec: CompletionSpec = read_spec(
        r#"{"name":"foo","args":[{"name":"fmt","suggestions":["a","b"]}]}"#,
    )
    .unwrap();
    let ctx = CommandContext {
        command: Some("foo".into()),
        args: vec![],
        current_word: String::new(),
        word_index: 1,
        is_flag: false,
        is_long_flag: false,
        preceding_flag: None,
        in_pipe: false,
        in_redirect: false,
        quote_state: QuoteState::Unquoted,
        is_first_segment: true,
    };
    let res = resolve_spec(&spec, &ctx);
    assert_eq!(res.static_suggestions.len(), 2);
    let texts: Vec<&str> = res
        .static_suggestions
        .iter()
        .map(|s| s.text.as_str())
        .collect();
    assert!(texts.contains(&"a"));
    assert!(texts.contains(&"b"));
    assert!(res
        .static_suggestions
        .iter()
        .all(|s| s.kind == SuggestionKind::EnumValue));
    assert!(res
        .static_suggestions
        .iter()
        .all(|s| s.source == SuggestionSource::Spec));
}

#[test]
fn test_static_suggestion_type_field_maps_to_kind() {

    let spec: CompletionSpec = read_spec(
        r#"{
        "name":"foo",
        "args":[{"name":"x","suggestions":[
            {"name":"sub","type":"subcommand"},
            {"name":"opt","type":"option"},
            {"name":"file","type":"file"},
            {"name":"folder","type":"folder"},
            {"name":"defaulted"},
            {"name":"argish","type":"arg"},
            {"name":"specialish","type":"special"},
            {"name":"sh","type":"shortcut"},
            {"name":"mx","type":"mixin"},
            {"name":"ae","type":"auto-execute"},
            {"name":"unknown","type":"made_up_xyz"}
        ]}]
    }"#,
    )
    .unwrap();
    let ctx = CommandContext {
        command: Some("foo".into()),
        args: vec![],
        current_word: String::new(),
        word_index: 1,
        is_flag: false,
        is_long_flag: false,
        preceding_flag: None,
        in_pipe: false,
        in_redirect: false,
        quote_state: QuoteState::Unquoted,
        is_first_segment: true,
    };
    let res = resolve_spec(&spec, &ctx);
    let by_text: HashMap<String, SuggestionKind> = res
        .static_suggestions
        .into_iter()
        .map(|s| (s.text, s.kind))
        .collect();
    assert_eq!(by_text["sub"], SuggestionKind::Subcommand);
    assert_eq!(by_text["opt"], SuggestionKind::Flag);
    assert_eq!(by_text["file"], SuggestionKind::FilePath);
    assert_eq!(by_text["folder"], SuggestionKind::Directory);
    assert_eq!(by_text["defaulted"], SuggestionKind::EnumValue);
    assert_eq!(by_text["argish"], SuggestionKind::EnumValue);
    assert_eq!(by_text["specialish"], SuggestionKind::EnumValue);
    assert_eq!(by_text["sh"], SuggestionKind::EnumValue);
    assert_eq!(by_text["mx"], SuggestionKind::EnumValue);
    assert_eq!(by_text["ae"], SuggestionKind::EnumValue);
    assert_eq!(by_text["unknown"], SuggestionKind::EnumValue);
}

#[test]
fn preceding_flag_args_suppress_positional_static_and_generators() {
    let spec: CompletionSpec = read_spec(
        r#"{
            "name": "pip",
            "subcommands": [{
                "name": "install",
                "options": [{
                    "name": ["-r"],
                    "args": { "name": "file", "template": "filepaths" }
                }],
                "args": [{
                    "name": "pkg",
                    "suggestions": ["pos1", "pos2"],
                    "generators": [{"type": "git_branches"}]
                }]
            }]
        }"#,
    )
    .unwrap();
    let ctx = CommandContext {
        command: Some("pip".into()),
        args: vec!["install".into(), "-r".into()],
        current_word: String::new(),
        word_index: 3,
        is_flag: false,
        is_long_flag: false,
        preceding_flag: Some("-r".into()),
        in_pipe: false,
        in_redirect: false,
        quote_state: QuoteState::Unquoted,
        is_first_segment: true,
    };
    let res = resolve_spec(&spec, &ctx);
    assert!(res.preceding_flag_has_args);
    assert!(
        res.static_suggestions.is_empty(),
        "positional static suggestions must NOT leak when filling a flag arg: {:?}",
        res.static_suggestions
    );
    assert!(
        res.native_generators.is_empty(),
        "positional native generators must NOT leak when filling a flag arg: {:?}",
        res.native_generators
    );
    assert!(res.wants_filepaths);
}

#[test]
fn inert_option_arg_does_not_block_positional_generators() {
    let spec: CompletionSpec = read_spec(
        r#"{
            "name": "git",
            "subcommands": [{
                "name": "checkout",
                "options": [{
                    "name": ["-b"],
                    "args": { "name": "new-branch" }
                }],
                "args": [{
                    "name": "ref",
                    "generators": [{"type": "git_branches"}]
                }]
            }]
        }"#,
    )
    .unwrap();
    let ctx = CommandContext {
        command: Some("git".into()),
        args: vec!["checkout".into(), "-b".into()],
        current_word: "main".into(),
        word_index: 3,
        is_flag: false,
        is_long_flag: false,
        preceding_flag: None,
        in_pipe: false,
        in_redirect: false,
        quote_state: QuoteState::Unquoted,
        is_first_segment: true,
    };

    let res = resolve_spec(&spec, &ctx);
    assert!(
        res.native_generators.contains(&"git_branches".to_string()),
        "inert option args should fall through to positional generators: {:?}",
        res.native_generators
    );
}

#[test]
fn static_suggestion_priority_field_round_trips() {
    let spec: CompletionSpec = read_spec(
        r#"{
            "name": "foo",
            "args": [{
                "name": "x",
                "suggestions": [
                    {"name": "x", "priority": 90},
                    {"name": "y"}
                ]
            }]
        }"#,
    )
    .unwrap();
    let ctx = CommandContext {
        command: Some("foo".into()),
        args: vec![],
        current_word: String::new(),
        word_index: 1,
        is_flag: false,
        is_long_flag: false,
        preceding_flag: None,
        in_pipe: false,
        in_redirect: false,
        quote_state: QuoteState::Unquoted,
        is_first_segment: true,
    };
    let res = resolve_spec(&spec, &ctx);
    let by_text: HashMap<String, Option<Priority>> = res
        .static_suggestions
        .iter()
        .map(|s| (s.text.clone(), s.priority))
        .collect();
    assert_eq!(by_text["x"], Some(Priority::new(90)));
    assert_eq!(by_text["y"], None);
}

#[test]
fn option_arg_static_suggestions_emit_one_per_alias() {
    let spec: CompletionSpec = read_spec(
        r#"{
            "name": "fmt",
            "options": [{
                "name": ["--format"],
                "args": {
                    "name": "kind",
                    "suggestions": [
                        {"name": ["json", "j"], "description": "JSON output"}
                    ]
                }
            }]
        }"#,
    )
    .unwrap();
    let ctx = CommandContext {
        command: Some("fmt".into()),
        args: vec!["--format".into()],
        current_word: String::new(),
        word_index: 2,
        is_flag: false,
        is_long_flag: false,
        preceding_flag: Some("--format".into()),
        in_pipe: false,
        in_redirect: false,
        quote_state: QuoteState::Unquoted,
        is_first_segment: true,
    };
    let res = resolve_spec(&spec, &ctx);
    assert_eq!(res.static_suggestions.len(), 2);
    for s in &res.static_suggestions {
        assert_eq!(s.description.as_deref(), Some("JSON output"));
        assert_eq!(s.kind, SuggestionKind::EnumValue);
    }
    let texts: Vec<&str> = res
        .static_suggestions
        .iter()
        .map(|s| s.text.as_str())
        .collect();
    assert!(texts.contains(&"json"));
    assert!(texts.contains(&"j"));
}

#[test]
fn option_arg_after_trailing_equals_uses_first_arg_spec() {
    let spec: CompletionSpec = read_spec(
        r#"{
            "name": "fmt",
            "options": [{
                "name": ["--format"],
                "args": {
                    "name": "kind",
                    "suggestions": ["tar", "zip"]
                }
            }]
        }"#,
    )
    .unwrap();
    let ctx = CommandContext {
        command: Some("fmt".into()),
        args: vec!["--format=".into()],
        current_word: String::new(),
        word_index: 2,
        is_flag: false,
        is_long_flag: false,
        preceding_flag: Some("--format=".into()),
        in_pipe: false,
        in_redirect: false,
        quote_state: QuoteState::Unquoted,
        is_first_segment: true,
    };

    let res = resolve_spec(&spec, &ctx);
    let texts: Vec<&str> = res
        .static_suggestions
        .iter()
        .map(|s| s.text.as_str())
        .collect();
    assert_eq!(texts, vec!["tar", "zip"]);
}

#[test]
fn option_args_array_preserves_positional_arg_specs() {
    let spec: CompletionSpec = read_spec(
        r#"{
            "name": "chezmoi",
            "options": [{
                "name": ["-t", "--track"],
                "args": [
                    {"name": "branch", "suggestions": ["main", "dev"]},
                    {"name": "start-point", "suggestions": ["origin/main"]}
                ]
            }]
        }"#,
    )
    .unwrap();

    let first_ctx = CommandContext {
        command: Some("chezmoi".into()),
        args: vec!["-t".into()],
        current_word: String::new(),
        word_index: 2,
        is_flag: false,
        is_long_flag: false,
        preceding_flag: Some("-t".into()),
        in_pipe: false,
        in_redirect: false,
        quote_state: QuoteState::Unquoted,
        is_first_segment: true,
    };
    let first = resolve_spec(&spec, &first_ctx);
    let first_texts: Vec<&str> = first
        .static_suggestions
        .iter()
        .map(|s| s.text.as_str())
        .collect();
    assert_eq!(first_texts, vec!["main", "dev"]);

    let second_ctx = CommandContext {
        command: Some("chezmoi".into()),
        args: vec!["-t".into(), "main".into()],
        current_word: String::new(),
        word_index: 3,
        is_flag: false,
        is_long_flag: false,
        preceding_flag: None,
        in_pipe: false,
        in_redirect: false,
        quote_state: QuoteState::Unquoted,
        is_first_segment: true,
    };
    let second = resolve_spec(&spec, &second_ctx);
    let second_texts: Vec<&str> = second
        .static_suggestions
        .iter()
        .map(|s| s.text.as_str())
        .collect();
    assert_eq!(second_texts, vec!["origin/main"]);
}

#[test]
fn duplicate_suggestion_names_emit_both_entries() {
    let spec: CompletionSpec = read_spec(
        r#"{"name":"d","args":[{"name":"x","suggestions":["foo","foo"]}]}"#,
    )
    .unwrap();
    let ctx = CommandContext {
        command: Some("d".into()),
        args: vec![],
        current_word: String::new(),
        word_index: 1,
        is_flag: false,
        is_long_flag: false,
        preceding_flag: None,
        in_pipe: false,
        in_redirect: false,
        quote_state: QuoteState::Unquoted,
        is_first_segment: true,
    };
    let res = resolve_spec(&spec, &ctx);
    assert_eq!(res.static_suggestions.len(), 2);
    assert!(res.static_suggestions.iter().all(|s| s.text == "foo"));
}

// --- guarding and validating ------------------------------------------------

fn build_nested_subcommands(depth: usize) -> String {
    let mut s = String::with_capacity(depth * 32);
    for _ in 0..depth {
        s.push_str(r#"{"name":"x","subcommands":["#);
    }
    s.push_str(r#"{"name":"leaf"}"#);
    for _ in 0..depth {
        s.push_str("]}");
    }
    s
}

#[test]
fn test_check_json_depth_accepts_well_within_cap() {
    let src = build_nested_subcommands(7);
    assert!(check_json_depth(&src, MAX_SPEC_JSON_DEPTH).is_ok());
}

#[test]
fn test_check_json_depth_ignores_brackets_inside_strings() {
    let src = format!(r#"{{"name":"{}"}}"#, "{".repeat(1000));
    assert!(check_json_depth(&src, 4).is_ok());
}

#[test]
fn test_validate_spec_generators_iterative_handles_deep_subcommand_chain() {
    let mut spec = CompletionSpec {
        name: "deep".into(),
        description: None,
        subcommands: Vec::new(),
        options: Vec::new(),
        args: Vec::new(),
    };
    let mut tail = &mut spec.subcommands;
    for i in 0..200 {
        tail.push(SubcommandSpec {
            name: format!("s{i}"),
            description: None,
            subcommands: Vec::new(),
            options: Vec::new(),
            args: Vec::new(),
            priority: None,
        });
        tail = &mut tail[0].subcommands;
    }
    let warnings = validate_spec_generators(&mut spec);
    assert!(warnings.is_empty());
}

#[test]
fn test_validate_spec_strips_invalid_generator_pipeline() {
    let mut dir = Dir::new("/dir");
    dir.write("test.json", r#"{
            "name": "test",
            "args": [{
                "name": "target",
                "generators": [
                    {"type": "git_branches"},
                    {"script": ["cmd"], "transforms": ["filter_empty", "split_lines"]}
                ]
            }]
        }"#);

    let mut result = load_from_dir(&dir);
    let spec = result.store.get("test").unwrap();
    assert_eq!(
        spec.args[0].generators.len(),
        1,
        "invalid generator should be removed; remaining: {:?}",
        spec.args[0].generators
    );
    assert_eq!(
        spec.args[0].generators[0].generator_type.as_deref(),
        Some("git_branches"),
    );
}

#[test]
fn test_validate_spec_keeps_valid_pipeline() {
    let mut dir = Dir::new("/dir");
    dir.write("test.json", r#"{
            "name": "test",
            "args": [{
                "name": "target",
                "generators": [
                    {"script": ["cmd"], "transforms": ["split_lines", "filter_empty", "trim"]}
                ]
            }]
        }"#);

    let mut result = load_from_dir(&dir);
    let spec = result.store.get("test").unwrap();
    assert_eq!(
        spec.args[0].generators.len(),
        1,
        "valid generator should be kept"
    );
}

#[test]
fn test_validate_spec_empty_transforms_kept() {
    let mut dir = Dir::new("/dir");
    dir.write("test.json", r#"{
            "name": "test",
            "args": [{
                "name": "target",
                "generators": [
                    {"type": "git_branches"},
                    {"script": ["cmd"]}
                ]
            }]
        }"#);

    let mut result = load_from_dir(&dir);
    let spec = result.store.get("test").unwrap();
    assert_eq!(
        spec.args[0].generators.len(),
        2,
        "generators with empty transforms should be kept"
    );
}

#[test]
fn test_validate_spec_recursive_subcommands() {
    let mut dir = Dir::new("/dir");
    dir.write("test.json", r#"{
            "name": "test",
            "subcommands": [{
                "name": "sub",
                "args": [{
                    "name": "target",
                    "generators": [
                        {"script": ["cmd"], "transforms": ["trim", "split_lines"]}
                    ]
                }]
            }]
        }"#);

    let mut result = load_from_dir(&dir);
    let spec = result.store.get("test").unwrap();
    assert_eq!(
        spec.subcommands[0].args[0].generators.len(),
        0,
        "invalid generator in subcommand should be removed"
    );
}

#[test]
fn test_validate_spec_option_args() {
    let mut dir = Dir::new("/dir");
    dir.write("test.json", r#"{
            "name": "test",
            "options": [{
                "name": ["-f"],
                "description": "flag",
                "args": {
                    "name": "val",
                    "generators": [
                        {"script": ["cmd"], "transforms": ["split_lines", "split_lines"]}
                    ]
                }
            }]
        }"#);

    let mut result = load_from_dir(&dir);
    let spec = result.store.get("test").unwrap();
    assert_eq!(
        spec.options[0].args.as_ref().unwrap().generators.len(),
        0,
        "double-split generator in option args should be removed"
    );
}

#[test]
fn sanitize_strips_control_chars_in_suggestion_name() {
    let json = "{\"name\":\"x\",\"args\":{\"name\":\"y\",\"suggestions\":[{\"name\":\"ev\\u001bil\",\"description\":\"d\\u001b\"},\"pl\\u001bain\"]}}";
    let spec = parse_spec_checked_and_sanitized(json).unwrap();
    let arg = &spec.args[0];
    match &arg.suggestions[0] {
        SuggestionEntry::Object(o) => {
            assert_eq!(o.name[0], "evil");
            assert_eq!(o.description.as_deref(), Some("d"));
        }
        _ => panic!("expected Object"),
    }
    match &arg.suggestions[1] {
        SuggestionEntry::Plain(s) => assert_eq!(s, "plain"),
        _ => panic!("expected Plain"),
    }
}

#[test]
fn empty_suggestion_names_are_pruned_with_warning() {
    let json = r#"{
        "name": "x",
        "args": {
            "name": "y",
            "suggestions": [
                {"name": []},
                {"name": ""},
                "ok"
            ]
        }
    }"#;
    let mut spec = parse_spec_checked_and_sanitized(json).unwrap();
    let warnings = validate_spec_generators(&mut spec);
    assert_eq!(
        spec.args[0].suggestions.len(),
        1,
        "only 'ok' should survive pruning"
    );
    match &spec.args[0].suggestions[0] {
        SuggestionEntry::Plain(s) => assert_eq!(s, "ok"),
        _ => panic!("expected Plain(\"ok\")"),
    }
    assert_eq!(
        warnings.len(),
        2,
        "expected two warnings (one per empty entry)"
    );
    for w in &warnings {
        assert!(
            w.contains('x'),
            "warning should contain the spec name 'x', got: {w}"
        );
    }
}

#[test]
fn hidden_suggestion_is_dropped_at_load_time() {
    let json = r#"{
        "name": "x",
        "args": {
            "name": "y",
            "suggestions": [
                {"name": "visible"},
                {"name": "hush", "hidden": true},
                "plain-also-visible"
            ]
        }
    }"#;
    let mut spec = parse_spec_checked_and_sanitized(json).unwrap();
    let warnings = validate_spec_generators(&mut spec);
    assert!(
        warnings.is_empty(),
        "hidden entries should be dropped silently"
    );
    let names: Vec<&str> = spec.args[0]
        .suggestions
        .iter()
        .map(|e| match e {
            SuggestionEntry::Plain(s) => s.as_str(),
            SuggestionEntry::Object(o) => o.name[0].as_str(),
        })
        .collect();
    assert_eq!(names, vec!["visible", "plain-also-visible"]);
}

#[test]
fn unknown_suggestion_type_warns_at_load_time() {
    let json = r#"{"name":"x","args":{"name":"y","suggestions":[
        {"name":"a","type":"made_up_xyz"},
        {"name":"b","type":"file"}
    ]}}"#;
    let mut spec = parse_spec_checked_and_sanitized(json).unwrap();
    let warnings = validate_spec_generators(&mut spec);
    assert!(warnings.iter().any(|w| w.contains("made_up_xyz")));
    assert!(!warnings.iter().any(|w| w.contains("\"file\"")));
    assert_eq!(
        spec.args[0].suggestions.len(),
        2,
        "unknown-type entry should NOT be dropped"
    );
}

#[test]
fn suggestion_object_ignores_reserved_fig_fields() {
    let json = r#"{
        "name": "x",
        "args": {
            "name": "y",
            "suggestions": [{
                "name": "a",
                "description": "desc",
                "insertValue": "a ",
                "displayName": "Alpha",
                "replaceValue": "alpha",
                "icon": "fig://icon?type=string",
                "isDangerous": true,
                "deprecated": true
            }]
        }
    }"#;
    let mut spec = parse_spec_checked_and_sanitized(json).unwrap();
    let warnings = validate_spec_generators(&mut spec);
    assert_eq!(
        spec.args[0].suggestions.len(),
        1,
        "entry with reserved fields should parse and survive validation"
    );
    match &spec.args[0].suggestions[0] {
        SuggestionEntry::Object(o) => {
            assert_eq!(o.name, vec!["a".to_string()]);
            assert_eq!(o.description.as_deref(), Some("desc"));
        }
        _ => panic!("expected Object"),
    }
    assert!(
        warnings.is_empty(),
        "reserved Fig fields must not produce warnings, got: {warnings:?}"
    );
}

#[test]
fn pure_control_char_suggestion_name_pruned_after_sanitize() {
    let json = "{\"name\":\"x\",\"args\":{\"name\":\"y\",\"suggestions\":[{\"name\":\"\\u0001\\u0002\"},\"ok\"]}}";
    let mut spec = parse_spec_checked_and_sanitized(json).unwrap();
    let _ = validate_spec_generators(&mut spec);
    assert_eq!(spec.args[0].suggestions.len(), 1);
    match &spec.args[0].suggestions[0] {
        SuggestionEntry::Plain(s) => assert_eq!(s, "ok"),
        _ => panic!("expected Plain(\"ok\") to be the sole survivor"),
    }
}

#[test]
fn test_load_spec_rejects_pathologically_nested_json() {
    let mut dir = Dir::new("/dir");
    dir.write("evil.json", build_nested_subcommands(10_000));

    let mut result = load_from_dir(&dir);
    let aliases = result
        .store
        .entries()
        .iter()
        .find(|e| e.id == "evil")
        .expect("evil entry must register even if its parse fails")
        .aliases
        .clone();
    assert_eq!(
        aliases,
        vec!["evil"],
        "too-deep JSON must not register the shallow-parsed name alias"
    );
    assert!(
        result.store.get("x").is_none() && result.store.get("leaf").is_none(),
        "pathologically nested spec must not register name-derived aliases"
    );
    assert!(
        result.store.get("evil").is_none(),
        "pathologically nested spec must not load through its stem"
    );
    assert!(
        result.store.entries()[0].load_error().is_some(),
        "lazy parse of pathologically nested spec must fail and record an error"
    );
}

#[test]
fn test_load_spec_rejects_moderately_nested_json_above_cap() {
    let mut dir = Dir::new("/dir");
    dir.write("evil.json", build_nested_subcommands(100));

    let mut result = load_from_dir(&dir);
    let aliases = result
        .store
        .entries()
        .iter()
        .find(|e| e.id == "evil")
        .expect("evil entry must register")
        .aliases
        .clone();
    assert_eq!(
        aliases,
        vec!["evil"],
        "too-deep JSON must not register the shallow-parsed name alias"
    );
    assert!(
        result.store.get("x").is_none() && result.store.get("leaf").is_none(),
        "depth-100 spec must not register name-derived aliases"
    );
    assert!(
        result.store.get("evil").is_none(),
        "depth-100 spec must be rejected by our own cap (serde_json's 128 default would still let it through)"
    );
    assert!(
        result.store.entries()[0].load_error().is_some(),
        "lazy parse of depth-100 spec must surface an error via load_error"
    );
}

#[test]
fn test_load_spec_accepts_real_world_depth() {
    let mut dir = Dir::new("/dir");
    dir.write("ok.json", build_nested_subcommands(12));

    let mut result = load_from_dir(&dir);
    assert!(
        result.directory_errors.is_empty(),
        "depth-12 spec should parse cleanly, got directory errors: {:?}",
        result.directory_errors
    );
    assert!(
        result.store.get("x").is_some(),
        "depth-12 spec should be loaded"
    );
}

#[test]
fn test_load_spec_strips_ansi_from_name_and_description() {
    let mut dir = Dir::new("/dir");
    dir.write("evil.json", "{\
            \"name\": \"evil\\u001b[2J\",\
            \"description\": \"steal\\u001b]0;pwned\\u0007rest\",\
            \"subcommands\": [\
                {\"name\": \"sub\\u001b[2J\", \"description\": \"d\\u001bx\"}\
            ],\
            \"options\": [\
                {\"name\": [\"--flag\"], \"description\": \"o\\u001b[2J\"}\
            ]\
        }");

    let mut result = load_from_dir(&dir);
    let by_alias = format!(
        "{:?}",
        result
            .store
            .get("evil[2J")
            .expect("sanitized name should also resolve as alias")
    );
    let by_stem = result
        .store
        .get("evil")
        .expect("spec should be addressable by filename stem");
    assert_eq!(format!("{by_stem:?}"), by_alias);
    let spec = by_stem;
    assert!(
        !spec.name.contains('\x1b'),
        "name kept ESC: {:?}",
        spec.name
    );
    assert!(
        !spec.description.as_deref().unwrap_or("").contains('\x1b'),
        "description kept ESC: {:?}",
        spec.description
    );
    assert!(
        !spec.description.as_deref().unwrap_or("").contains('\x07'),
        "description kept BEL: {:?}",
        spec.description
    );
    assert!(
        !spec.subcommands[0].name.contains('\x1b'),
        "subcommand name kept ESC: {:?}",
        spec.subcommands[0].name
    );
    assert!(
        !spec.subcommands[0]
            .description
            .as_deref()
            .unwrap_or("")
            .contains('\x1b'),
        "subcommand description kept ESC"
    );
    assert!(
        !spec.options[0]
            .description
            .as_deref()
            .unwrap_or("")
            .contains('\x1b'),
        "option description kept ESC"
    );
}

// --- the store --------------------------------------------------------------

#[test]
fn test_load_from_dir_mixed_valid_and_invalid() {
    let mut dir = Dir::new("/dir");
    dir.write("good.json", r#"{"name": "good", "args": []}"#);
    dir.write("bad.json", r#"{"not_a_spec": true}"#);
    dir.write("broken.json", "{ totally busted");

    let mut result = load_from_dir(&dir);
    assert!(
        result.store.get("good").is_some(),
        "valid spec should be loaded"
    );

    let _: Vec<_> = result.store.iter().collect();
    let load_errors: Vec<(&str, &str)> = result
        .store
        .entries()
        .iter()
        .filter_map(|e| e.load_error().map(|err| (e.id.as_str(), err)))
        .collect();
    assert_eq!(load_errors.len(), 2, "should have 2 load errors");
    assert!(
        load_errors.iter().any(|(id, _)| *id == "bad"),
        "errors should include bad.json: {:?}",
        load_errors
    );
    assert!(
        load_errors.iter().any(|(id, _)| *id == "broken"),
        "errors should include broken.json: {:?}",
        load_errors
    );
}

#[test]
fn test_load_from_dir_all_valid() {
    let mut dir = Dir::new("/dir");
    dir.write("alpha.json", r#"{"name": "alpha"}"#);
    dir.write("beta.json", r#"{"name": "beta"}"#);

    let mut result = load_from_dir(&dir);
    assert!(result.directory_errors.is_empty(), "no errors expected");
    assert!(result.store.get("alpha").is_some());
    assert!(result.store.get("beta").is_some());
}

#[test]
fn test_load_from_dir_nonexistent() {
    let listing = DirListing { dir: "/nonexistent/path/specs".to_string(), files: Ok(Vec::new()) };
    let mut result = SpecStore::load_from_dir(listing);
    assert!(result.directory_errors.is_empty());
    assert!(result
        .store
        .get("anything", &|_: &SpecSource| panic!("there is nothing to load"))
        .is_none());
}

#[test]
fn kubecolor_resolves_by_filename_stem_and_kubectl_wins_alias() {
    let mut dir = Dir::new("/dir");
    dir.write("kubecolor.json", r#"{
            "name": "kubectl",
            "subcommands": [{"name": "from-kubecolor"}]
        }"#);
    dir.write("kubectl.json", r#"{
            "name": "kubectl",
            "subcommands": [{"name": "from-kubectl-spec"}]
        }"#);

    let mut result = load_from_dir(&dir);
    let store = &mut result.store;

    let by_kubecolor = store.get("kubecolor").expect("kubecolor stem must resolve");
    assert_eq!(by_kubecolor.subcommands[0].name, "from-kubecolor");
    let by_kubectl = store.get("kubectl").expect("kubectl stem must resolve");
    assert_eq!(by_kubectl.subcommands[0].name, "from-kubectl-spec");

    let conflicts = store.conflicts();
    assert_eq!(conflicts.len(), 1, "expected one alias conflict");
    let c = &conflicts[0];
    assert_eq!(c.alias, "kubectl");
    assert_eq!(c.kind, AliasConflictKind::NameMatchesOtherStem);
    assert_eq!(c.winner.filename_stem, "kubectl");
    assert_eq!(c.loser.filename_stem, "kubecolor");

    assert_eq!(store.entries().len(), 2);
    assert_eq!(store.aliases_count(), 2, "two stems, no extra alias");
}

#[test]
fn duplicate_name_collision_surfaces_conflict() {
    let mut dir = Dir::new("/dir");
    dir.write("alpha.json", r#"{"name": "shared", "subcommands": [{"name": "from-alpha"}]}"#);
    dir.write("beta.json", r#"{"name": "shared", "subcommands": [{"name": "from-beta"}]}"#);

    let mut result = load_from_dir(&dir);
    let store = &mut result.store;

    assert_eq!(
        store.get("alpha").unwrap().subcommands[0].name,
        "from-alpha"
    );
    assert_eq!(store.get("beta").unwrap().subcommands[0].name, "from-beta");

    let by_name = store
        .get("shared")
        .expect("name alias must resolve to the winner");
    assert_eq!(by_name.subcommands[0].name, "from-alpha");

    let conflicts = store.conflicts();
    assert_eq!(conflicts.len(), 1);
    let c = &conflicts[0];
    assert_eq!(c.alias, "shared");
    assert_eq!(c.kind, AliasConflictKind::DuplicateName);
    assert_eq!(c.winner.filename_stem, "alpha");
    assert_eq!(c.loser.filename_stem, "beta");

    assert_eq!(store.entries().len(), 2);
    assert_eq!(store.aliases_count(), 3);
}

#[test]
fn uppercase_lowercase_stems_are_case_sensitive() {
    let mut dir = Dir::new("/dir");
    dir.write("R.json", r#"{"name": "R", "subcommands": [{"name": "from-uppercase"}]}"#);
    dir.write("Rscript.json", r#"{"name": "Rscript", "subcommands": [{"name": "from-rscript"}]}"#);

    let mut result = load_from_dir(&dir);
    let store = &mut result.store;

    let by_r = store.get("R").expect("uppercase R must resolve");
    assert_eq!(by_r.subcommands[0].name, "from-uppercase");
    let by_rscript = store.get("Rscript").expect("Rscript must resolve");
    assert_eq!(by_rscript.subcommands[0].name, "from-rscript");

    assert!(
        store.conflicts().is_empty(),
        "no conflicts expected, got {:?}",
        store.conflicts()
    );
    assert_eq!(store.entries().len(), 2);
    assert_eq!(store.aliases_count(), 2);
}

#[test]
fn user_override_replaces_embedded_with_directory_precedence() {
    let mut user_dir = Dir::new("/user_dir");
    let mut embedded_dir = Dir::new("/embedded_dir");
    user_dir.write("git.json", r#"{"name": "git", "subcommands": [{"name": "user-override"}]}"#);
    embedded_dir.write("git.json", r#"{"name": "git", "subcommands": [{"name": "embedded-default"}]}"#);

    let mut result = load_from_dirs(&[&user_dir, &embedded_dir]);
    let store = &mut result.store;

    let by_git = store.get("git").expect("git must resolve");
    assert_eq!(
        by_git.subcommands[0].name, "user-override",
        "user copy must win (earlier dir = higher precedence)"
    );

    let conflicts = store.conflicts();
    assert_eq!(conflicts.len(), 1);
    let c = &conflicts[0];
    assert_eq!(c.alias, "git");
    assert_eq!(c.kind, AliasConflictKind::DirectoryPrecedence);
    assert_eq!(c.disposition, AliasConflictDisposition::FallbackCandidate);
    assert_eq!(c.winner.source_dir, user_dir.path());
    assert_eq!(c.loser.source_dir, embedded_dir.path());

    assert_eq!(store.entries().len(), 2);
    assert_eq!(store.iter().count(), 1);
    assert_eq!(store.aliases_count(), 1);
}

#[test]
fn lower_precedence_filesystem_duplicate_used_when_primary_fails() {
    let mut bad_dir = Dir::new("/bad_dir");
    let mut good_dir = Dir::new("/good_dir");
    bad_dir.write("git.json", "{not valid json");
    good_dir.write("git.json", r#"{"name":"git","subcommands":[{"name":"from-good-dir"}]}"#);

    let mut result = load_from_dirs(&[&bad_dir, &good_dir]);
    let store = &mut result.store;

    let by_git = store
        .get("git")
        .expect("valid lower-precedence spec should win");
    assert_eq!(by_git.subcommands[0].name, "from-good-dir");
    assert_eq!(
        store.nonfunctional_aliases_count(),
        0,
        "git remains functional through the lower-precedence parsed candidate"
    );
    let bad_entry = store
        .entries()
        .iter()
        .find(|entry| matches!(&entry.source, SpecSource::Filesystem(path) if path.starts_with(bad_dir.path())))
        .expect("bad primary remains visible for diagnostics");
    assert!(bad_entry.load_error().is_some());
    assert_eq!(store.iter().count(), 1);
}

#[test]
fn nonfunctional_alias_count_increments_when_all_candidates_fail() {
    let mut dir = Dir::new("/dir");
    dir.write("broken.json", "{not valid json");

    let mut result = load_from_dir(&dir);
    let store = &mut result.store;

    assert!(store.get("broken").is_none());
    assert_eq!(store.nonfunctional_aliases_count(), 1);
}

#[test]
fn filesystem_duplicate_fallback_wins_before_embedded() {
    let mut bad_dir = Dir::new("/bad_dir");
    let mut good_dir = Dir::new("/good_dir");
    bad_dir.write("git.json", "{not valid json");
    good_dir.write("git.json", r#"{"name":"git","subcommands":[{"name":"from-good-dir"}]}"#);

    let mut result = load_with_embedded(&[&bad_dir, &good_dir]);
    let by_git = result
        .store
        .get("git")
        .expect("valid filesystem fallback should win before embedded");
    assert_eq!(by_git.subcommands[0].name, "from-good-dir");
}

#[test]
fn embedded_stem_falls_back_when_filesystem_name_alias_parse_fails() {
    let mut bad_dir = Dir::new("/bad_dir");
    bad_dir.write("foo.json", r#"{"name":"git","subcommands":"not an array"}"#);

    let mut result = load_with_embedded(&[&bad_dir]);
    let store = &mut result.store;

    let by_git = store
        .get("git")
        .expect("embedded git should fall back behind bad filesystem alias");
    assert_eq!(by_git.name, "git");

    let bad_entry = store
        .entries()
        .iter()
        .find(|entry| matches!(&entry.source, SpecSource::Filesystem(path) if path.starts_with(bad_dir.path())))
        .expect("bad filesystem entry remains visible for diagnostics");
    assert!(
        bad_entry.load_error().is_some(),
        "failed filesystem alias owner should record its lazy parse error"
    );

    let conflict = store
        .conflicts()
        .iter()
        .find(|conflict| {
            conflict.alias == "git"
                && conflict.kind == AliasConflictKind::NameMatchesOtherStem
                && conflict.winner.filename_stem == "foo"
                && conflict.loser.filename_stem == "git"
        })
        .expect("embedded git fallback should be recorded as an alias conflict");
    assert_eq!(
        conflict.disposition,
        AliasConflictDisposition::FallbackCandidate
    );
}

#[test]
fn embedded_name_alias_falls_back_when_filesystem_name_alias_parse_fails() {
    let mut bad_dir = Dir::new("/bad_dir");
    bad_dir.write("foo.json", r#"{"name":"index","subcommands":"not an array"}"#);

    let mut result = load_with_embedded(&[&bad_dir]);
    let store = &mut result.store;

    let by_index = store
        .get("index")
        .expect("embedded appwrite should fall back behind bad filesystem name alias");
    assert_eq!(by_index.name, "index");

    let bad_entry = store
        .entries()
        .iter()
        .find(|entry| matches!(&entry.source, SpecSource::Filesystem(path) if path.starts_with(bad_dir.path())))
        .expect("bad filesystem entry remains visible for diagnostics");
    assert!(
        bad_entry.load_error().is_some(),
        "failed filesystem alias owner should record its lazy parse error"
    );

    let conflict = store
        .conflicts()
        .iter()
        .find(|conflict| {
            conflict.alias == "index"
                && conflict.kind == AliasConflictKind::DuplicateName
                && conflict.winner.filename_stem == "foo"
                && conflict.loser.filename_stem == "appwrite"
        })
        .expect("embedded appwrite name alias fallback should be recorded as a conflict");
    assert_eq!(
        conflict.disposition,
        AliasConflictDisposition::FallbackCandidate
    );
}

#[test]
fn cross_dir_stem_matches_earlier_name_alias_is_not_directory_precedence() {
    let mut dir1 = Dir::new("/dir1");
    let mut dir2 = Dir::new("/dir2");
    dir1.write("foo.json", r#"{"name": "kubectl", "subcommands": [{"name": "from-foo"}]}"#);
    dir2.write("kubectl.json", r#"{"name": "kubectl", "subcommands": [{"name": "from-kubectl"}]}"#);

    let mut result = load_from_dirs(&[&dir1, &dir2]);
    let store = &mut result.store;

    assert_eq!(
        store.get("foo").unwrap().subcommands[0].name,
        "from-foo",
        "dir1 foo.json must address by its own stem"
    );
    assert_eq!(
        store.get("kubectl").unwrap().subcommands[0].name,
        "from-foo",
        "dir1's name claim wins because it loaded first"
    );

    let conflicts = store.conflicts();
    assert_eq!(
        conflicts.len(),
        1,
        "expected one conflict, got {conflicts:?}"
    );
    let c = &conflicts[0];
    assert_eq!(c.alias, "kubectl");
    assert_eq!(
        c.kind,
        AliasConflictKind::NameMatchesOtherStem,
        "different filename stems must classify as NameMatchesOtherStem, \
         not DirectoryPrecedence — distinct files in distinct dirs are \
         not the user-override scenario"
    );
    assert_eq!(c.winner.filename_stem, "foo");
    assert_eq!(c.winner.source_dir, dir1.path());
    assert_eq!(c.loser.filename_stem, "kubectl");
    assert_eq!(c.loser.source_dir, dir2.path());

    assert_eq!(store.entries().len(), 1);
    assert_eq!(store.aliases_count(), 2);
}

#[test]
fn iter_yields_one_tuple_per_unique_spec_not_per_alias() {
    let mut dir = Dir::new("/dir");
    dir.write("alias-target.json", r#"{"name": "different-name", "subcommands": [{"name": "x"}]}"#);
    dir.write("plain.json", r#"{"name": "plain", "subcommands": [{"name": "y"}]}"#);

    let mut result = load_from_dir(&dir);
    let store = &mut result.store;

    assert_eq!(store.entries().len(), 2);
    assert_eq!(store.aliases_count(), 3);

    let iter_count = store.iter().count();
    assert_eq!(
        iter_count, 2,
        "iter() must yield one tuple per unique spec, not per alias"
    );

    for (id, name) in store.iter() {
        let got = store.get(&id).expect("stem must resolve");
        assert_eq!(got.name, name);
    }
}

#[test]
fn installed_specs_win_precedence_over_embedded_via_load_with_embedded() {
    let mut installed = Dir::new("/installed");
    installed.write("git.json", r#"{"name":"git","subcommands":[{"name":"installed-copy"}]}"#);

    let mut result = load_with_embedded(&[&installed]);
    let git = result.store.get("git").expect("git spec must load");
    assert_eq!(
        git.subcommands[0].name, "installed-copy",
        "installed specs must keep precedence when embedded ships the \
         same filename"
    );
}

#[test]
fn embedded_corpus_yields_non_empty_spec_store() {
    let mut result = load_with_embedded(&[]);
    assert!(
        !result.store.is_empty(),
        "SpecStore must be non-empty after loading the embedded corpus"
    );
    let known = ["git", "docker", "cargo"];
    assert!(
        known.iter().any(|cmd| result.store.get(cmd).is_some()),
        "expected at least one of {known:?} to be loaded from the \
         embedded corpus; the corpus may be empty"
    );
    assert!(result.store.entries().iter().all(|e| e.source_dir == EMBEDDED_VIRTUAL_DIR));
}

#[test]
fn directories_that_cannot_be_read_are_reported() {
    let result = SpecStore::load_from_dirs(vec![DirListing {
        dir: "/locked".to_string(),
        files: Err("permission denied".to_string()),
    }]);
    assert_eq!(result.directory_errors.len(), 1);
    assert!(result.directory_errors[0].contains("permission denied"));
    assert!(result.store.is_empty());
}

#[test]
fn lookups_say_why_they_failed() {
    let mut dir = Dir::new("/specs");
    dir.write("broken.json", "{ totally busted");
    let mut result = load_from_dir(&dir);
    match result.store.get_result("missing") {
        Err(SpecLookupError::NoSuchSpec { command }) => assert_eq!(command, "missing"),
        other => panic!("expected no such spec, got {other:?}"),
    }
    match result.store.get_result("broken") {
        Err(e) => {
            assert!(e.message().contains("broken"));
            assert!(matches!(e, SpecLookupError::LoadFailed { .. }));
        }
        Ok(s) => panic!("expected a load failure, got {s:?}"),
    }
    assert_eq!(result.store.load_error_ids(), vec!["broken"]);
}

#[test]
fn a_failed_load_is_not_tried_again() {
    let mut dir = Dir::new("/specs");
    dir.write("broken.json", "{ totally busted");
    let mut result = load_from_dir(&dir);
    assert!(result.store.get("broken").is_none());
    result.store.disk.insert("/specs/broken.json".to_string(), r#"{"name":"broken"}"#.to_string());
    assert!(result.store.get("broken").is_none());
}

#[test]
fn only_json_files_are_specs() {
    assert!(is_spec_file("git.json"));
    assert!(!is_spec_file("git.toml"));
    assert!(!is_spec_file("README"));
    assert_eq!(file_stem("git.json"), "git");
    assert_eq!(file_stem("a.b.json"), "a.b");
    let mut dir = Dir::new("/specs");
    dir.write("README", "hello");
    assert!(load_from_dir(&dir).store.is_empty());
}

#[test]
fn nesting_is_refused_one_level_above_the_cap() {
    assert!(check_json_depth("[[]]", 2).is_ok());
    let err = check_json_depth("[[[]]]", 2).unwrap_err();
    assert!(err.contains("maximum JSON nesting depth of 2"));
    assert!(check_json_depth(r#"["\"[[["]"#, 1).is_ok());
    assert!(check_json_depth("]]]]", 0).is_ok());
}

#[test]
fn control_characters_are_found_and_stripped() {
    assert!(has_control_char("a\u{1b}"));
    assert!(has_control_char("a\u{85}"));
    assert!(has_control_char("\u{7f}"));
    assert!(!has_control_char("aé\u{a0}"));
    assert_eq!(sanitize_text("a\u{1b}[2J\u{9f}é"), "a[2Jé");
    let mut spec = read_spec(r#"{"name":"a\u0007b","args":{"name":"\u0001x"}}"#).unwrap();
    sanitize_spec_strings(&mut spec);
    assert_eq!(spec.name, "ab");
    assert_eq!(spec.args[0].name.as_deref(), Some("x"));
}

#[test]
fn a_template_list_prefers_files_to_folders() {
    let pick = |v: &[&str]| choose_template(&v.iter().map(|s| s.to_string()).collect());
    assert_eq!(pick(&["folders", "filepaths"]).as_deref(), Some("filepaths"));
    assert_eq!(pick(&["history", "folders"]).as_deref(), Some("folders"));
    assert_eq!(pick(&["history", "help"]).as_deref(), Some("history"));
    assert_eq!(pick(&[]), None);
}

#[test]
fn names_are_read_from_the_header_only_when_the_text_is_shallow() {
    assert_eq!(shallow_parse_name(r#"{"name":"g\u001bit"}"#, header_name).as_deref(), Some("git"));
    assert_eq!(shallow_parse_name("broken", header_name), None);
    let deep = build_nested_subcommands(100);
    assert_eq!(shallow_parse_name(&deep, |_: &str| panic!("not to be read")), None);
}

#[test]
fn suggestion_types_have_kinds() {
    assert_eq!(suggestion_kind_from_type(Some("folder")), SuggestionKind::Directory);
    assert_eq!(suggestion_kind_from_type(None), SuggestionKind::EnumValue);
    assert!(is_known_suggestion_type("auto-execute"));
    assert!(!is_known_suggestion_type("made_up_xyz"));
}

#[test]
fn a_double_dash_is_noticed() {
    let spec = test_spec();
    let ctx = CommandContext {
        command: Some("test-cmd".to_string()),
        args: vec!["--".to_string()],
        current_word: String::new(),
        word_index: 2,
        is_flag: false,
        is_long_flag: false,
        preceding_flag: None,
        in_pipe: false,
        in_redirect: false,
        quote_state: QuoteState::Unquoted,
        is_first_segment: true,
    };
    let res = resolve_spec(&spec, &ctx);
    assert!(res.past_double_dash);
    assert!(!resolve_spec(&spec, &CommandContext { args: Vec::new(), ..ctx }).past_double_dash);
}

#[test]
fn a_bigger_spec_is_estimated_bigger() {
    let small = read_spec(r#"{"name":"a"}"#).unwrap();
    let big = read_spec(
        r#"{"name":"a","description":"a longer text","subcommands":[{"name":"b"},{"name":"c"}]}"#,
    )
    .unwrap();
    assert!(estimated_heap_bytes(&small) >= 1);
    assert!(estimated_heap_bytes(&big) > estimated_heap_bytes(&small) + 12);
}

fn plain_ctx(args: &[&str]) -> CommandContext {
    CommandContext {
        command: Some("test-cmd".to_string()),
        args: args.iter().map(|s| s.to_string()).collect(),
        current_word: String::new(),
        word_index: args.len() + 1,
        is_flag: false,
        is_long_flag: false,
        preceding_flag: None,
        in_pipe: false,
        in_redirect: false,
        quote_state: QuoteState::Unquoted,
        is_first_segment: true,
    }
}

#[test]
fn no_subcommand_is_entered_after_a_positional_word() {
    let spec = test_spec();
    let entered = resolve_spec(&spec, &plain_ctx(&["sub1"]));
    assert!(entered.subcommands.is_empty());
    for words in [["push.sh", "sub1"], ["--", "sub1"]] {
        let stayed = resolve_spec(&spec, &plain_ctx(&words));
        assert_eq!(stayed.subcommands.len(), 2);
        assert_eq!(stayed.options[0].text, "--help");
    }
}

#[test]
fn validation_changes_nothing_of_what_is_suggested() {
    let json = r#"{"name":"t","args":{"suggestions":[
        "a", {"name":"b","hidden":true}, {"name":" "}, {"name":["c","d"],"type":"file"}
    ]}}"#;
    let before = resolve_spec(&read_spec(json).unwrap(), &plain_ctx(&[]));
    let mut spec = read_spec(json).unwrap();
    validate_spec_generators(&mut spec);
    let after = resolve_spec(&spec, &plain_ctx(&[]));
    let texts: Vec<&str> = after.static_suggestions.iter().map(|s| s.text.as_str()).collect();
    assert_eq!(texts, vec!["a", "c", "d"]);
    assert_eq!(
        format!("{:?}", before.static_suggestions),
        format!("{:?}", after.static_suggestions)
    );
}

#[test]
fn entries_tell_what_became_of_them() {
    let mut dir = Dir::new("/specs");
    dir.write("good.json", r#"{"name":"good"}"#);
    dir.write("bad.json", "{");
    let mut result = load_from_dir(&dir);
    assert!(result.store.entries().iter().all(|e| !e.is_parsed() && e.load_error().is_none()));
    assert!(result.store.get("good").is_some());
    assert!(result.store.get("bad").is_none());
    let good = result.store.entries().iter().find(|e| e.id == "good").unwrap();
    assert!(good.is_parsed());
    assert!(good.load_error().is_none());
    let bad = result.store.entries().iter().find(|e| e.id == "bad").unwrap();
    assert!(bad.load_error().is_some());
    assert_eq!(
        result.store.inner.filesystem_paths(),
        vec![
            ("bad".to_string(), "/specs/bad.json".to_string()),
            ("good".to_string(), "/specs/good.json".to_string())
        ]
    );
    assert_eq!(result.store.inner.locations().len(), 2);
}

#[test]
fn an_inline_option_value_is_no_word_of_its_own() {
    let spec = read_spec(
        r#"{"name":"t","options":[{"name":["--output"],"args":{"name":"fmt"}}],
            "subcommands":[{"name":"sub1","subcommands":[{"name":"leaf"}]}]}"#,
    )
    .unwrap();
    for words in [vec!["--output=json", "sub1"], vec!["--output", "json", "sub1"]] {
        let found = resolve_spec(&spec, &plain_ctx(&words));
        let texts: Vec<&str> = found.subcommands.iter().map(|s| s.text.as_str()).collect();
        assert_eq!(texts, vec!["leaf"], "{words:?}");
    }
    let value = resolve_spec(&spec, &plain_ctx(&["--output", "sub1"]));
    assert_eq!(value.subcommands[0].text, "sub1");
}

#[test]
fn an_inline_value_counts_toward_an_option_with_more_arguments() {
    let spec = read_spec(
        r#"{"name":"t","options":[{"name":["--pair"],"args":[{"name":"a"},{"name":"b"}]}],
            "subcommands":[{"name":"sub1","subcommands":[{"name":"leaf"}]}]}"#,
    )
    .unwrap();
    let found = resolve_spec(&spec, &plain_ctx(&["--pair=x", "y", "sub1"]));
    assert_eq!(found.subcommands[0].text, "leaf");
    let second = resolve_spec(&spec, &plain_ctx(&["--pair=x", "sub1"]));
    assert_eq!(second.subcommands[0].text, "sub1");
}

#[test]
fn validating_twice_repeats_unknown_types_only() {
    let json = r#"{"name":"t",
        "args":{"suggestions":["a", {"name":" "}, {"name":"b","type":"odd"}]},
        "subcommands":[{"name":"s","subcommands":[{"name":"deep","args":{"suggestions":[
            {"name":"c","type":"strange"}, {"name":"h","hidden":true}, ""
        ]}}]}]}"#;
    let mut spec = read_spec(json).unwrap();
    let first = validate_spec_generators(&mut spec);
    let once = format!("{spec:?}");
    let second = validate_spec_generators(&mut spec);
    assert_eq!(format!("{spec:?}"), once);
    assert_eq!(first.len(), 4);
    assert_eq!(second.len(), 2);
    assert!(second.iter().all(|w| w.contains("has unknown `type`")));
    let kept: Vec<&String> = first.iter().filter(|w| second.contains(w)).collect();
    assert_eq!(kept, second.iter().collect::<Vec<&String>>());
}

#[test]
fn a_longer_text_adds_its_bytes_at_every_depth() {
    let mut spec = read_spec(
        r#"{"name":"t","subcommands":[{"name":"a"},{"name":"b","description":"x",
            "subcommands":[{"name":"c"}]}]}"#,
    )
    .unwrap();
    let before = estimated_heap_bytes(&spec);
    spec.subcommands[1].subcommands[0].name.push_str("éé");
    assert_eq!(estimated_heap_bytes(&spec), before + 4);
    spec.subcommands[1].description = Some(String::from("xyz"));
    assert_eq!(estimated_heap_bytes(&spec), before + 6);
    let mut roomy = String::with_capacity(1000);
    roomy.push_str("t0");
    spec.name = roomy;
    assert_eq!(estimated_heap_bytes(&spec), before + 7);
}

#[test]
fn resolved_entries_are_those_that_an_alias_leads_to() {
    let mut first = Dir::new("/first");
    first.write("git.json", r#"{"name":"git","subcommands":[{"name":"mine"}]}"#);
    first.write("hub.json", "{ broken");
    let mut second = Dir::new("/second");
    second.write("git.json", r#"{"name":"git","subcommands":[{"name":"theirs"}]}"#);
    second.write("hub.json", r#"{"name":"hub","subcommands":[{"name":"other"}]}"#);
    let mut result = load_from_dirs(&[&first, &second]);
    let disk = result.store.disk.clone();
    let found: Vec<(String, String)> = result
        .store
        .inner
        .resolved_entries(&|s: &SpecSource| load_source(&disk, s))
        .into_iter()
        .map(|e| (e.id.clone(), e.source_dir.clone()))
        .collect();
    assert_eq!(
        found,
        vec![
            ("git".to_string(), "/first".to_string()),
            ("hub".to_string(), "/second".to_string())
        ]
    );
    assert!(result.store.entries().iter().all(|e| e.is_parsed() || e.load_error().is_some()));
    let ids: Vec<String> = result.store.iter().map(|(id, _)| id).collect();
    assert_eq!(ids, vec!["git", "hub"]);
    assert!(ids.iter().all(|id| result.store.get(id).is_some()));
    assert_eq!(result.store.nonfunctional_aliases_count(), 0);
}

#[test]
fn dead_aliases_are_the_ones_without_an_answer() {
    let mut dir = Dir::new("/specs");
    dir.write("good.json", r#"{"name":"fine"}"#);
    dir.write("bad.json", r#"{"name":"worse","subcommands":7}"#);
    let mut result = load_from_dir(&dir);
    assert_eq!(result.store.aliases_count(), 4);
    assert_eq!(result.store.nonfunctional_aliases_count(), 2);
    for (alias, answered) in [("good", true), ("fine", true), ("bad", false), ("worse", false)] {
        assert_eq!(result.store.get(alias).is_some(), answered, "{alias}");
    }
}

#[test]
fn embedded_specs_only_add_to_the_directories() {
    let mut dir = Dir::new("/specs");
    dir.write("git.json", r#"{"name":"git","subcommands":[{"name":"installed-copy"}]}"#);
    dir.write("docker.json", "{ broken");
    let mut alone = load_from_dirs(&[&dir]);
    let mut all = load_with_embedded(&[&dir]);
    assert_eq!(all.directory_errors, alone.directory_errors);
    let mut locations: Vec<String> =
        alone.store.inner.locations().iter().map(|l| format!("{l:?}")).collect();
    for stem in ["appwrite", "cargo", "docker", "git"] {
        locations.push(format!("Embedded {{ stem: {stem:?} }}"));
    }
    let got: Vec<String> = all.store.inner.locations().iter().map(|l| format!("{l:?}")).collect();
    assert_eq!(got, locations);
    let want = format!("{:?}", alone.store.get("git").unwrap());
    assert_eq!(format!("{:?}", all.store.get("git").unwrap()), want);
    assert!(alone.store.get("docker").is_none());
    assert_eq!(all.store.get("docker").unwrap().subcommands[0].name, "run");
}
