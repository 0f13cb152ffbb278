//! Providers that read the files of a project, against a disk that is kept in
//! memory.
use gc_suggest::providers::local_project::cargo_workspace::{
    find_cargo_root, has_workspace_section, line_scan_has_workspace, member_suggestions,
    resolve_workspace, stamp_matches, CargoCache, CargoPackageName, CargoTomlMin, MemberInfo,
    PackageMin, ResolvedRoot, StampState, WorkspaceMin,
};
use gc_suggest::providers::local_project::fifo::{FifoMap, MAX_CACHE_ENTRIES};
use gc_suggest::providers::local_project::makefile::{
    find_makefile, logical_lines, parse_makefile_targets, target_suggestions,
};
use gc_suggest::providers::local_project::mtime_cache::{FileMeta, FileTime, MtimeCache};
use gc_suggest::providers::local_project::npm_scripts::{
    find_package_json, script_suggestions, NpmScriptEntry, ScriptField,
};
use gc_suggest::text::MAX_DESCRIPTION_CHARS;
use gc_suggest::types::{Suggestion, SuggestionKind, SuggestionSource};
use std::cell::Cell;
use std::collections::BTreeMap;

const MAX_CARGO_CACHE_ENTRIES: usize = MAX_CACHE_ENTRIES;

// --- a disk in memory -------------------------------------------------------

#[derive(Default)]
struct Disk {
    files: BTreeMap<String, (Vec<u8>, i64)>,
    dirs: BTreeMap<String, i64>,
    clock: i64,
}

fn parent(path: &str) -> Option<String> {
    let at = path.rfind('/')?;
    if at == 0 {
        None
    } else {
        Some(path[..at].to_string())
    }
}

impl Disk {
    fn new() -> Disk {
        let mut disk = Disk::default();
        disk.mkdir("/p");
        disk
    }

    fn tick(&mut self) -> i64 {
        self.clock += 1;
        self.clock
    }

    fn mkdir(&mut self, path: &str) {
        if self.dirs.contains_key(path) {
            return;
        }
        if let Some(up) = parent(path) {
            self.mkdir(&up);
            let now = self.tick();
            self.dirs.insert(up, now);
        }
        let now = self.tick();
        self.dirs.insert(path.to_string(), now);
    }

    fn write(&mut self, path: &str, body: &str) {
        let up = parent(path).unwrap();
        self.mkdir(&up);
        let now = self.tick();
        if !self.files.contains_key(path) {
            self.dirs.insert(up, now);
        }
        self.files.insert(path.to_string(), (body.as_bytes().to_vec(), now));
    }

    fn remove_dir(&mut self, path: &str) {
        let inside = format!("{path}/");
        self.files.retain(|p, _| !p.starts_with(&inside));
        self.dirs.retain(|p, _| p != path && !p.starts_with(&inside));
        let now = self.tick();
        self.dirs.insert(parent(path).unwrap(), now);
    }

    fn is_file(&self, path: &str) -> bool {
        self.files.contains_key(path)
    }

    fn text(&self, path: &str) -> Option<String> {
        let (body, _) = self.files.get(path)?;
        String::from_utf8(body.clone()).ok()
    }

    fn meta(&self, path: &str) -> Option<FileMeta> {
        let (body, mtime) = self.files.get(path)?;
        Some(FileMeta {
            mtime: Some(FileTime { secs: *mtime, nanos: 0 }),
            size: body.len() as u64,
        })
    }

    fn stamp(&self, path: &str) -> StampState {
        if let Some((body, mtime)) = self.files.get(path) {
            return StampState::File {
                mtime: Some(FileTime { secs: *mtime, nanos: 0 }),
                size: body.len() as u64,
            };
        }
        match self.dirs.get(path) {
            Some(mtime) => StampState::Dir { mtime: Some(FileTime { secs: *mtime, nanos: 0 }) },
            None => StampState::AbsentOrUnreadable,
        }
    }

    fn list(&self, path: &str) -> Vec<String> {
        let inside = format!("{path}/");
        let mut found: Vec<String> = self
            .dirs
            .keys()
            .filter(|p| p.starts_with(&inside) && !p[inside.len()..].contains('/'))
            .cloned()
            .collect();
        found.reverse();
        found
    }
}

fn string_at(table: &toml::Table, key: &str) -> Option<String> {
    table.get(key).and_then(|v| v.as_str()).map(|s| s.to_string())
}

fn strings_at(table: &toml::Table, key: &str) -> Vec<String> {
    match table.get(key).and_then(|v| v.as_array()) {
        Some(items) => items.iter().filter_map(|v| v.as_str()).map(|s| s.to_string()).collect(),
        None => Vec::new(),
    }
}

fn manifest(disk: &Disk, path: &str) -> Option<CargoTomlMin> {
    let table = disk.text(path)?.parse::<toml::Table>().ok()?;
    Some(CargoTomlMin {
        package: table.get("package").and_then(|v| v.as_table()).map(|p| PackageMin {
            name: string_at(p, "name"),
            version: string_at(p, "version"),
            description: string_at(p, "description"),
        }),
        workspace: table.get("workspace").and_then(|v| v.as_table()).map(|w| WorkspaceMin {
            members: strings_at(w, "members"),
            exclude: strings_at(w, "exclude"),
        }),
    })
}

fn declares_workspace(disk: &Disk, path: &str) -> bool {
    match disk.text(path) {
        Some(s) => has_workspace_section(&s, |t: &str| {
            t.parse::<toml::Table>().is_ok_and(|table| table.contains_key("workspace"))
        }),
        None => false,
    }
}

fn cargo_members(disk: &Disk, cache: &mut CargoCache, start: &str) -> Vec<Suggestion> {
    let found = find_cargo_root(
        start,
        |p: &str| disk.is_file(p),
        |p: &str| declares_workspace(disk, p),
    );
    let Some(root) = found else {
        return Vec::new();
    };
    let probe = |p: &str| disk.stamp(p);
    if let Some(kept) = cache.get(&root, &probe) {
        return member_suggestions(&kept.members);
    }
    let resolved = resolve_workspace(
        &root,
        &probe,
        &|p: &str| disk.is_file(p),
        &|p: &str| disk.list(p),
        &|p: &str| manifest(disk, p),
    );
    let suggestions = member_suggestions(&resolved.members);
    cache.store(&root, resolved);
    suggestions
}

fn members_of(disk: &Disk, start: &str) -> Vec<Suggestion> {
    cargo_members(disk, &mut CargoCache::new(), start)
}

fn write_member(disk: &mut Disk, rel: &str, name: &str) {
    disk.write(
        &format!("/p/{rel}/Cargo.toml"),
        &format!("[package]\nname = \"{name}\"\nversion = \"0.1.0\"\n"),
    );
}

fn texts(v: &[Suggestion]) -> Vec<&str> {
    v.iter().map(|s| s.text.as_str()).collect()
}

// --- makefiles --------------------------------------------------------------

#[test]
fn happy_path_three_targets() {
    let src = b"build:\n\tcc -o build\n\ntest:\n\tcargo test\n\nlint:\n\tclippy\n";
    let targets = parse_makefile_targets(src);
    assert_eq!(targets, vec!["build", "test", "lint"]);
}

#[test]
fn backslash_continuation_joins() {
    let src = b"all: \\\n\tdep_one dep_two\n\tcc -o all\n";
    assert_eq!(parse_makefile_targets(src), vec!["all"]);
}

#[test]
fn multi_target_rule_emits_each_target() {
    let src = b"build test bench: deps\n\techo go\n";
    assert_eq!(parse_makefile_targets(src), vec!["build", "test", "bench"]);
}

#[test]
fn phony_meta_targets_filtered_out() {
    let src = b".PHONY: install clean\ninstall:\n\tcp\n";
    assert_eq!(parse_makefile_targets(src), vec!["install"]);
}

#[test]
fn pattern_rules_filtered_out() {
    let src = b"%.o: %.c\n\tcc -c $<\nbuild:\n\tcc\n";
    assert_eq!(parse_makefile_targets(src), vec!["build"]);
}

#[test]
fn variable_expanded_target_filtered_out() {
    let src = b"clean: $(BUILD_DIR)\n\trm -rf\nbuild:\n\tcc\n";
    assert_eq!(parse_makefile_targets(src), vec!["clean", "build"]);
}

#[test]
fn computed_lhs_target_filtered_out() {
    let src = b"$(BUILD_DIR):\n\tmkdir -p $(BUILD_DIR)\nbuild:\n\tcc\n";
    assert_eq!(parse_makefile_targets(src), vec!["build"]);
}

#[test]
fn recipe_lines_ignored() {
    let src = b"build:\n\techo build:bytes\n";
    assert_eq!(parse_makefile_targets(src), vec!["build"]);
}

#[test]
fn comment_lines_ignored() {
    let src = b"# A header comment\n# build: not_a_target\nbuild:\n\tcc\n";
    assert_eq!(parse_makefile_targets(src), vec!["build"]);
}

#[test]
fn empty_input_returns_empty() {
    assert!(parse_makefile_targets(b"").is_empty());
    assert!(parse_makefile_targets(b"\n\n\n").is_empty());
}

#[test]
fn variable_assignment_skipped() {
    let src = b"CC := gcc\nFLAGS ?= -O2\nbuild:\n\t$(CC)\n";
    assert_eq!(parse_makefile_targets(src), vec!["build"]);
}

#[test]
fn assignment_with_a_colon_in_its_value_skipped() {
    let src = b"URL = http://x\nbuild:\n\tcc\n";
    assert_eq!(parse_makefile_targets(src), vec!["build"]);
    let src = b"A=b:c\nA ?= b:c\nA += b:c\nA != date +%H:%M\nbuild:\n\tcc\n";
    assert_eq!(parse_makefile_targets(src), vec!["build"]);
}

#[test]
fn target_specific_assignment_names_its_target() {
    let src = b"debug: CFLAGS = -g\nbuild: CFLAGS += -O2\n";
    assert_eq!(parse_makefile_targets(src), vec!["debug", "build"]);
}

#[test]
fn posix_double_colon_assignment_skipped() {
    let src = b"CC ::= gcc\nbuild:\n\t$(CC)\n";
    assert_eq!(parse_makefile_targets(src), vec!["build"]);
}

#[test]
fn crlf_line_endings_are_handled() {
    let src = b"build:\r\n\tcc\r\ntest:\r\n\tcargo test\r\n";
    assert_eq!(parse_makefile_targets(src), vec!["build", "test"]);
}

#[test]
fn crlf_with_backslash_continuation_joins() {
    let src = b"all: \\\r\n\tdep\r\n\tcc -o all\r\n";
    assert_eq!(parse_makefile_targets(src), vec!["all"]);
}

#[test]
fn dedup_preserves_first_occurrence_order() {
    let src = b"build:\n\techo\nbuild:\n\techo again\ntest:\n\techo\n";
    assert_eq!(parse_makefile_targets(src), vec!["build", "test"]);
}

#[test]
fn invalid_utf8_handled_via_lossy_decode() {
    let src: Vec<u8> = b"build:\n\techo \xFF\n".to_vec();
    assert_eq!(parse_makefile_targets(&src), vec!["build"]);
}

fn make_suggestions(disk: &Disk, start: &str) -> Vec<Suggestion> {
    match find_makefile(start, |p: &str| disk.is_file(p)) {
        Some(path) => {
            target_suggestions(parse_makefile_targets(disk.text(&path).unwrap().as_bytes()))
        }
        None => Vec::new(),
    }
}

#[test]
fn makefile_generate_with_root_against_empty_dir_returns_ok_empty() {
    assert!(make_suggestions(&Disk::new(), "/p").is_empty());
}

#[test]
fn generate_with_root_finds_makefile_and_returns_suggestions() {
    let mut disk = Disk::new();
    disk.write("/p/Makefile", "build:\n\tcc\ntest:\n\tcargo test\n");
    let suggestions = make_suggestions(&disk, "/p");
    assert_eq!(texts(&suggestions), vec!["build", "test"]);
    assert_eq!(suggestions[0].kind, SuggestionKind::ProviderValue);
    assert_eq!(suggestions[0].source, SuggestionSource::Provider);
    assert_eq!(suggestions[0].description.as_deref(), Some("Make target"));
}

#[test]
fn gnu_makefile_takes_precedence_over_makefile() {
    let mut disk = Disk::new();
    disk.write("/p/GNUmakefile", "gnu_only:\n\tcc\n");
    disk.write("/p/Makefile", "plain_only:\n\tcc\n");
    let suggestions = make_suggestions(&disk, "/p");
    assert_eq!(suggestions.len(), 1);
    assert_eq!(suggestions[0].text, "gnu_only");
}

#[test]
fn ancestor_walk_finds_makefile_in_parent() {
    let mut disk = Disk::new();
    disk.write("/p/Makefile", "top:\n\tcc\n");
    let suggestions = make_suggestions(&disk, "/p/a/b/c");
    assert_eq!(suggestions[0].text, "top");
}

#[test]
fn ancestor_walk_stops_after_the_limit() {
    let mut disk = Disk::new();
    disk.write("/p/Makefile", "top:\n\tcc\n");
    let near = format!("/p{}", "/d".repeat(31));
    let far = format!("/p{}", "/d".repeat(32));
    assert_eq!(texts(&make_suggestions(&disk, &near)), vec!["top"]);
    assert!(make_suggestions(&disk, &far).is_empty());
}

#[test]
fn continued_lines_are_joined_with_a_space() {
    assert_eq!(logical_lines("a \\\nb\nc"), vec!["a  b", "c"]);
}

// --- the cache of what was read ---------------------------------------------

fn cached_len(cache: &mut MtimeCache<usize>, disk: &Disk, path: &str, runs: &Cell<usize>) -> Option<usize> {
    cache.get_or_insert_with(
        path,
        disk.meta(path),
        || disk.files.get(path).map(|f| f.0.clone()),
        |b: &Vec<u8>| {
            runs.set(runs.get() + 1);
            b.len()
        },
    )
}

#[test]
fn cache_hit_returns_cached_value_without_reextracting() {
    let mut disk = Disk::new();
    disk.write("/p/data.txt", "hello");
    let mut cache: MtimeCache<usize> = MtimeCache::new();
    let count = Cell::new(0);
    let v1 = cached_len(&mut cache, &disk, "/p/data.txt", &count).unwrap();
    let v2 = cached_len(&mut cache, &disk, "/p/data.txt", &count).unwrap();
    assert_eq!(v1, 5);
    assert_eq!(v2, 5);
    assert_eq!(count.get(), 1, "extractor must run only once");
}

#[test]
fn mtime_change_invalidates() {
    let mut disk = Disk::new();
    disk.write("/p/data.txt", "hello");
    let mut cache: MtimeCache<usize> = MtimeCache::new();
    let runs = Cell::new(0);
    let _ = cached_len(&mut cache, &disk, "/p/data.txt", &runs).unwrap();
    disk.write("/p/data.txt", "hello");
    let _ = cached_len(&mut cache, &disk, "/p/data.txt", &runs).unwrap();
    assert_eq!(runs.get(), 2, "mtime change must invalidate cache");
}

#[test]
fn size_change_invalidates() {
    let mut disk = Disk::new();
    disk.write("/p/data.txt", "hello");
    let mut cache: MtimeCache<usize> = MtimeCache::new();
    let runs = Cell::new(0);
    let _ = cached_len(&mut cache, &disk, "/p/data.txt", &runs).unwrap();
    let mtime = disk.files["/p/data.txt"].1;
    disk.files.insert("/p/data.txt".to_string(), (b"hello world!".to_vec(), mtime));
    let _ = cached_len(&mut cache, &disk, "/p/data.txt", &runs).unwrap();
    assert_eq!(runs.get(), 2, "size change must invalidate");
}

fn full_cache(disk: &mut Disk, runs: &Cell<usize>) -> (MtimeCache<usize>, Vec<String>) {
    let mut cache: MtimeCache<usize> = MtimeCache::new();
    let mut paths = Vec::new();
    for i in 0..MAX_CACHE_ENTRIES {
        let path = format!("/p/f{i}.txt");
        disk.write(&path, "x");
        cached_len(&mut cache, disk, &path, runs).unwrap();
        paths.push(path);
    }
    (cache, paths)
}

#[test]
fn lru_evicts_oldest_at_capacity() {
    let mut disk = Disk::new();
    let warm = Cell::new(0);
    let (mut cache, paths) = full_cache(&mut disk, &warm);
    assert_eq!(cache.len(), MAX_CACHE_ENTRIES);
    disk.write("/p/extra.txt", "x");
    cached_len(&mut cache, &disk, "/p/extra.txt", &warm).unwrap();
    assert_eq!(cache.len(), MAX_CACHE_ENTRIES);
    let runs = Cell::new(0);
    cached_len(&mut cache, &disk, &paths[0], &runs).unwrap();
    assert_eq!(runs.get(), 1, "oldest must have been evicted");
}

#[test]
fn missing_file_returns_none() {
    let disk = Disk::new();
    let mut cache: MtimeCache<usize> = MtimeCache::new();
    let runs = Cell::new(0);
    assert!(cached_len(&mut cache, &disk, "/p/nope.txt", &runs).is_none());
}

#[test]
fn deletion_then_recreate_drops_stale_value() {
    let mut disk = Disk::new();
    disk.write("/p/data.txt", "hello");
    let mut cache: MtimeCache<usize> = MtimeCache::new();
    let runs = Cell::new(0);
    let v1 = cached_len(&mut cache, &disk, "/p/data.txt", &runs).unwrap();
    assert_eq!(v1, 5);
    disk.files.remove("/p/data.txt");
    let after_delete = cached_len(&mut cache, &disk, "/p/data.txt", &runs);
    assert!(after_delete.is_none(), "deletion must surface as None");
    disk.write("/p/data.txt", "hello world!");
    let v2 = cached_len(&mut cache, &disk, "/p/data.txt", &runs).unwrap();
    assert_eq!(v2, 12, "must extract fresh value, not return stale 5");
    assert_eq!(
        runs.get(),
        2,
        "extractor must run for the original write and the recreated file"
    );
}

#[test]
fn fifo_eviction_does_not_promote_on_hit() {
    let mut disk = Disk::new();
    let warm = Cell::new(0);
    let (mut cache, paths) = full_cache(&mut disk, &warm);
    assert_eq!(cache.len(), MAX_CACHE_ENTRIES);
    cached_len(&mut cache, &disk, &paths[0], &warm).unwrap();
    disk.write("/p/extra.txt", "x");
    cached_len(&mut cache, &disk, "/p/extra.txt", &warm).unwrap();
    let runs = Cell::new(0);
    cached_len(&mut cache, &disk, &paths[0], &runs).unwrap();
    assert_eq!(
        runs.get(),
        1,
        "FIFO: a hit does not promote, so paths[0] must still have been evicted"
    );
}

#[test]
fn without_a_modification_time_nothing_is_kept() {
    let mut cache: MtimeCache<usize> = MtimeCache::new();
    let meta = FileMeta { mtime: None, size: 5 };
    let runs = Cell::new(0);
    for _ in 0..2 {
        let got = cache.get_or_insert_with(
            "/p/data.txt",
            Some(meta),
            || Some(b"hello".to_vec()),
            |b: &Vec<u8>| {
                runs.set(runs.get() + 1);
                b.len()
            },
        );
        assert_eq!(got, Some(5));
    }
    assert_eq!(runs.get(), 2);
    assert_eq!(cache.len(), 0);
}

#[test]
fn bounded_map_drops_the_oldest_and_keeps_the_rest() {
    let mut map: FifoMap<usize> = FifoMap::new();
    for i in 0..MAX_CACHE_ENTRIES + 1 {
        map.store(&format!("k{i}"), i);
    }
    assert_eq!(map.len(), MAX_CACHE_ENTRIES);
    assert!(map.get("k0").is_none());
    assert_eq!(map.get("k1"), Some(&1));
    map.store("k1", 100);
    assert_eq!(map.len(), MAX_CACHE_ENTRIES);
    assert_eq!(map.get("k1"), Some(&100));
    assert_eq!(map.get("k2"), Some(&2));
    map.clear();
    assert_eq!(map.len(), 0);
}

// --- scripts of a package.json ----------------------------------------------

fn parse_npm_scripts(bytes: &[u8]) -> Vec<NpmScriptEntry> {
    let fields = match serde_json::from_slice::<serde_json::Value>(bytes) {
        Ok(value) => match value.get("scripts") {
            Some(serde_json::Value::Object(map)) => Some(
                map.iter()
                    .map(|(name, v)| ScriptField {
                        name: name.clone(),
                        command: v.as_str().map(|s| s.to_string()),
                    })
                    .collect(),
            ),
            Some(_) => None,
            None => Some(Vec::new()),
        },
        Err(_) => None,
    };
    gc_suggest::providers::local_project::npm_scripts::parse_npm_scripts(&fields)
}

fn pairs(scripts: &[NpmScriptEntry]) -> Vec<(String, Option<String>)> {
    scripts.iter().map(|e| (e.name.clone(), e.command.clone())).collect()
}

fn entry(name: &str, cmd: &str) -> (String, Option<String>) {
    (name.to_string(), Some(cmd.to_string()))
}

#[test]
fn happy_path_two_scripts() {
    let json = br#"{"scripts": {"build": "tsc", "test": "jest"}}"#;
    let scripts = parse_npm_scripts(json);
    assert_eq!(pairs(&scripts), vec![entry("build", "tsc"), entry("test", "jest")]);
}

#[test]
fn empty_scripts_object_returns_empty() {
    assert!(parse_npm_scripts(br#"{"scripts": {}}"#).is_empty());
}

#[test]
fn missing_scripts_field_returns_empty() {
    assert!(parse_npm_scripts(br#"{"name": "pkg"}"#).is_empty());
}

#[test]
fn non_string_values_skipped() {
    let json = br#"{"scripts": {"x": 42, "y": "echo y", "z": null}}"#;
    let scripts = parse_npm_scripts(json);
    assert_eq!(pairs(&scripts), vec![entry("y", "echo y")]);
}

#[test]
fn scripts_field_as_string_returns_empty() {
    assert!(parse_npm_scripts(br#"{"scripts": "oops"}"#).is_empty());
}

#[test]
fn scripts_field_as_null_returns_empty() {
    assert!(parse_npm_scripts(br#"{"scripts": null}"#).is_empty());
}

#[test]
fn scripts_field_as_array_returns_empty() {
    assert!(parse_npm_scripts(br#"{"scripts": ["start"]}"#).is_empty());
}

#[test]
fn description_truncated_at_120_chars() {
    let long = "a".repeat(200);
    let json = format!(r#"{{"scripts": {{"big": "{long}"}}}}"#);
    let scripts = parse_npm_scripts(json.as_bytes());
    let desc = scripts[0].command.as_ref().unwrap();
    assert_eq!(
        desc.chars().count(),
        MAX_DESCRIPTION_CHARS,
        "must be exactly {MAX_DESCRIPTION_CHARS} chars including the ellipsis"
    );
    assert!(desc.ends_with('…'));
}

#[test]
fn npm_scripts_truncation_respects_utf8_char_boundaries() {
    let s = "🦀".repeat(200);
    let json = format!(r#"{{"scripts": {{"crab": "{s}"}}}}"#);
    let scripts = parse_npm_scripts(json.as_bytes());
    let desc = scripts[0].command.as_ref().unwrap();
    assert_eq!(desc.chars().count(), MAX_DESCRIPTION_CHARS);
}

#[test]
fn insertion_order_preserved() {
    let json = br#"{"scripts": {"z": "1", "a": "2", "m": "3", "c": "4", "b": "5"}}"#;
    let names: Vec<String> = parse_npm_scripts(json)
        .into_iter()
        .map(|e| e.name)
        .collect();
    assert_eq!(names, vec!["z", "a", "m", "c", "b"]);
}

#[test]
fn malformed_json_returns_empty() {
    assert!(parse_npm_scripts(b"not json").is_empty());
    assert!(parse_npm_scripts(b"").is_empty());
    assert!(parse_npm_scripts(b"{").is_empty());
}

fn npm_suggestions(disk: &Disk, start: &str) -> Vec<Suggestion> {
    match find_package_json(start, |p: &str| disk.is_file(p)) {
        Some(path) => script_suggestions(&parse_npm_scripts(disk.text(&path).unwrap().as_bytes())),
        None => Vec::new(),
    }
}

#[test]
fn npm_scripts_generate_with_root_against_empty_dir_returns_ok_empty() {
    assert!(npm_suggestions(&Disk::new(), "/p").is_empty());
}

#[test]
fn generate_with_root_walks_two_ancestor_levels() {
    let mut disk = Disk::new();
    disk.write("/p/package.json", r#"{"scripts": {"start": "node x.js"}}"#);
    let suggestions = npm_suggestions(&disk, "/p/src/util");
    assert_eq!(suggestions.len(), 1);
    assert_eq!(suggestions[0].text, "start");
    assert_eq!(suggestions[0].description.as_deref(), Some("node x.js"));
    assert_eq!(suggestions[0].kind, SuggestionKind::ProviderValue);
    assert_eq!(suggestions[0].source, SuggestionSource::Provider);
}

// --- members of a Cargo workspace -------------------------------------------

#[test]
fn cargo_package_name_mirrors_cargo_grammar() {
    assert!(CargoPackageName::new("alpha".into()).is_some());
    assert!(CargoPackageName::new("alpha_beta-1".into()).is_some());
    assert!(CargoPackageName::new("_internal".into()).is_some());
    assert!(CargoPackageName::new("7zip".into()).is_some());
    assert!(CargoPackageName::new("1password-cli".into()).is_some());
    assert!(CargoPackageName::new("κ_crate".into()).is_some());
    assert!(CargoPackageName::new(String::new()).is_none());
    assert!(CargoPackageName::new("_".into()).is_none());
    assert!(CargoPackageName::new("-foo".into()).is_none());
    assert!(CargoPackageName::new("foo bar".into()).is_none());
    assert!(CargoPackageName::new("foo:bar".into()).is_none());
    assert!(CargoPackageName::new("foo/bar".into()).is_none());
    assert!(CargoPackageName::new("foo\nbar".into()).is_none());
}

#[test]
fn line_scan_detects_workspace_section() {
    assert!(line_scan_has_workspace("[workspace]\n"));
    assert!(line_scan_has_workspace("  [workspace]\n"));
    assert!(line_scan_has_workspace("[workspace.package]\nfoo = 1\n"));
    assert!(line_scan_has_workspace(
        "[package]\nname=\"a\"\n[workspace]\n"
    ));
    assert!(!line_scan_has_workspace("[workspaceextended]\n"));
    assert!(!line_scan_has_workspace("[package]\nname=\"a\"\n"));
    assert!(!line_scan_has_workspace(""));
}

#[test]
fn cargo_cache_evicts_oldest_at_capacity() {
    let mut cache = CargoCache::new();
    cache.clear();
    for i in 0..MAX_CARGO_CACHE_ENTRIES {
        cache.store(
            &format!("/cargo-cache-test/{i}/Cargo.toml"),
            ResolvedRoot::new(),
        );
    }
    assert_eq!(cache.len(), MAX_CARGO_CACHE_ENTRIES);
    cache.store(
        "/cargo-cache-test/extra/Cargo.toml",
        ResolvedRoot::new(),
    );
    assert_eq!(
        cache.len(),
        MAX_CARGO_CACHE_ENTRIES,
        "insert past capacity must evict exactly one"
    );
}

#[test]
fn single_package_crate_emits_one_suggestion() {
    let mut disk = Disk::new();
    disk.write(
        "/p/Cargo.toml",
        "[package]\nname = \"solo\"\nversion = \"0.2.0\"\ndescription = \"a crate\"\n",
    );
    let suggestions = members_of(&disk, "/p");
    assert_eq!(suggestions.len(), 1);
    assert_eq!(suggestions[0].text, "solo");
    assert_eq!(suggestions[0].description.as_deref(), Some("0.2.0 — a crate"));
}

#[test]
fn workspace_with_literal_members_emits_each() {
    let mut disk = Disk::new();
    disk.write("/p/Cargo.toml", "[workspace]\nmembers = [\"a\", \"b\"]\n");
    write_member(&mut disk, "a", "alpha");
    write_member(&mut disk, "b", "beta");
    assert_eq!(texts(&members_of(&disk, "/p")), vec!["alpha", "beta"]);
}

#[test]
fn workspace_glob_expansion_discovers_subdirs() {
    let mut disk = Disk::new();
    disk.write("/p/Cargo.toml", "[workspace]\nmembers = [\"crates/*\"]\n");
    write_member(&mut disk, "crates/one", "one");
    write_member(&mut disk, "crates/two", "two");
    write_member(&mut disk, "crates/three", "three");
    let suggestions = members_of(&disk, "/p");
    let mut names = texts(&suggestions);
    names.sort();
    assert_eq!(names, vec!["one", "three", "two"]);
}

#[test]
fn workspace_exclude_drops_listed_member() {
    let mut disk = Disk::new();
    disk.write(
        "/p/Cargo.toml",
        "[workspace]\nmembers = [\"crates/*\"]\nexclude = [\"crates/skip\"]\n",
    );
    write_member(&mut disk, "crates/keep", "keep");
    write_member(&mut disk, "crates/skip", "skip");
    assert_eq!(texts(&members_of(&disk, "/p")), vec!["keep"]);
}

#[test]
fn literal_exclude_drops_literal_member() {
    let mut disk = Disk::new();
    disk.write(
        "/p/Cargo.toml",
        "[workspace]\nmembers = [\"a\", \"b\"]\nexclude = [\"b\"]\n",
    );
    write_member(&mut disk, "a", "alpha");
    write_member(&mut disk, "b", "beta");
    assert_eq!(texts(&members_of(&disk, "/p")), vec!["alpha"]);
}

#[test]
fn exclude_of_nonexistent_member_is_noop() {
    let mut disk = Disk::new();
    disk.write(
        "/p/Cargo.toml",
        "[workspace]\nmembers = [\"a\"]\nexclude = [\"ghost\"]\n",
    );
    write_member(&mut disk, "a", "alpha");
    assert_eq!(texts(&members_of(&disk, "/p")), vec!["alpha"]);
}

#[test]
fn member_without_package_name_skipped() {
    let mut disk = Disk::new();
    disk.write("/p/Cargo.toml", "[workspace]\nmembers = [\"weird\"]\n");
    disk.write("/p/weird/Cargo.toml", "[lib]\nname = \"x\"\n");
    assert!(members_of(&disk, "/p").is_empty());
}

#[test]
fn glob_root_missing_logs_and_returns_empty() {
    let mut disk = Disk::new();
    disk.write("/p/Cargo.toml", "[workspace]\nmembers = [\"does/not/exist/*\"]\n");
    assert!(members_of(&disk, "/p").is_empty());
}

#[test]
fn missing_manifest_returns_ok_empty() {
    assert!(members_of(&Disk::new(), "/p").is_empty());
}

#[test]
fn ancestor_walk_finds_workspace_above_member_crate() {
    let mut disk = Disk::new();
    disk.write("/p/Cargo.toml", "[workspace]\nmembers = [\"a\"]\n");
    write_member(&mut disk, "a", "alpha");
    assert_eq!(texts(&members_of(&disk, "/p/a")), vec!["alpha"]);
}

#[test]
fn description_truncation_parity_with_npm() {
    let mut disk = Disk::new();
    let long = "a".repeat(200);
    disk.write(
        "/p/Cargo.toml",
        &format!("[package]\nname = \"big\"\nversion = \"0.1.0\"\ndescription = \"{long}\"\n"),
    );
    let suggestions = members_of(&disk, "/p");
    let desc = suggestions[0].description.as_ref().unwrap();
    assert_eq!(desc.chars().count(), MAX_DESCRIPTION_CHARS);
    assert!(desc.ends_with('…'));
}

#[test]
fn cargo_workspace_truncation_respects_utf8_char_boundaries() {
    let mut disk = Disk::new();
    let crab = "\u{1F980}".repeat(200);
    disk.write(
        "/p/Cargo.toml",
        &format!("[package]\nname = \"big\"\ndescription = \"{crab}\"\n"),
    );
    let suggestions = members_of(&disk, "/p");
    let desc = suggestions[0].description.as_ref().unwrap();
    assert_eq!(desc.chars().count(), MAX_DESCRIPTION_CHARS);
    assert!(desc.ends_with('…'));
}

#[test]
fn unsupported_glob_pattern_logged_and_skipped() {
    let mut disk = Disk::new();
    disk.write("/p/Cargo.toml", "[workspace]\nmembers = [\"a\", \"crates/**/leaf\"]\n");
    write_member(&mut disk, "a", "alpha");
    assert_eq!(texts(&members_of(&disk, "/p")), vec!["alpha"]);
}

#[test]
fn member_with_workspace_inheritance_still_surfaces_name() {
    let mut disk = Disk::new();
    disk.write(
        "/p/Cargo.toml",
        "[workspace]\nmembers = [\"a\"]\n[workspace.package]\nversion = \"0.1.0\"\n",
    );
    disk.write(
        "/p/a/Cargo.toml",
        "[package]\nname = \"alpha\"\nversion.workspace = true\ndescription.workspace = true\n",
    );
    assert_eq!(texts(&members_of(&disk, "/p")), vec!["alpha"]);
}

#[test]
fn member_cargo_toml_edit_invalidates_cached_members() {
    let mut disk = Disk::new();
    let mut cache = CargoCache::new();
    disk.write("/p/Cargo.toml", "[workspace]\nmembers = [\"a\"]\n");
    write_member(&mut disk, "a", "old_name");
    assert_eq!(cargo_members(&disk, &mut cache, "/p")[0].text, "old_name");
    disk.write("/p/a/Cargo.toml", "[package]\nname = \"new_name\"\nversion = \"0.2.0\"\n");
    assert_eq!(cargo_members(&disk, &mut cache, "/p")[0].text, "new_name");
}

#[test]
fn new_crate_under_glob_prefix_invalidates_cache() {
    let mut disk = Disk::new();
    let mut cache = CargoCache::new();
    disk.write("/p/Cargo.toml", "[workspace]\nmembers = [\"crates/*\"]\n");
    write_member(&mut disk, "crates/one", "one");
    assert_eq!(texts(&cargo_members(&disk, &mut cache, "/p")), vec!["one"]);
    write_member(&mut disk, "crates/two", "two");
    let second = cargo_members(&disk, &mut cache, "/p");
    let mut second_names = texts(&second);
    second_names.sort();
    assert_eq!(second_names, vec!["one", "two"]);
}

#[test]
fn deleted_member_under_glob_invalidates_cache() {
    let mut disk = Disk::new();
    let mut cache = CargoCache::new();
    disk.write("/p/Cargo.toml", "[workspace]\nmembers = [\"crates/*\"]\n");
    write_member(&mut disk, "crates/one", "one");
    write_member(&mut disk, "crates/two", "two");
    let first = cargo_members(&disk, &mut cache, "/p");
    let mut first_names = texts(&first);
    first_names.sort();
    assert_eq!(first_names, vec!["one", "two"]);
    disk.remove_dir("/p/crates/two");
    assert_eq!(texts(&cargo_members(&disk, &mut cache, "/p")), vec!["one"]);
}

#[test]
fn literal_member_appearing_invalidates_empty_cache() {
    let mut disk = Disk::new();
    let mut cache = CargoCache::new();
    disk.write("/p/Cargo.toml", "[workspace]\nmembers = [\"a\"]\n");
    let first = cargo_members(&disk, &mut cache, "/p");
    assert!(first.is_empty(), "expected no members before crate created");
    write_member(&mut disk, "a", "alpha");
    assert_eq!(texts(&cargo_members(&disk, &mut cache, "/p")), vec!["alpha"]);
}

#[test]
fn cargo_toml_added_to_existing_glob_child_invalidates() {
    let mut disk = Disk::new();
    let mut cache = CargoCache::new();
    disk.write("/p/Cargo.toml", "[workspace]\nmembers = [\"crates/*\"]\n");
    disk.mkdir("/p/crates/foo");
    let first = cargo_members(&disk, &mut cache, "/p");
    assert!(first.is_empty(), "child dir without Cargo.toml is not a member");
    disk.write("/p/crates/foo/Cargo.toml", "[package]\nname = \"foo\"\nversion = \"0.1.0\"\n");
    assert_eq!(texts(&cargo_members(&disk, &mut cache, "/p")), vec!["foo"]);
}

#[test]
fn glob_prefix_dir_appearing_invalidates_empty_cache() {
    let mut disk = Disk::new();
    let mut cache = CargoCache::new();
    disk.write("/p/Cargo.toml", "[workspace]\nmembers = [\"crates/*\"]\n");
    assert!(cargo_members(&disk, &mut cache, "/p").is_empty());
    write_member(&mut disk, "crates/foo", "foo");
    assert_eq!(texts(&cargo_members(&disk, &mut cache, "/p")), vec!["foo"]);
}

#[test]
fn malformed_workspace_root_returns_empty_then_recovers() {
    let mut disk = Disk::new();
    let mut cache = CargoCache::new();
    disk.write("/p/Cargo.toml", "[workspace\nmembers = [\n");
    let first = cargo_members(&disk, &mut cache, "/p");
    assert!(first.is_empty(), "malformed TOML must yield empty Vec");
    disk.write("/p/Cargo.toml", "[workspace]\nmembers = [\"a\"]\n");
    write_member(&mut disk, "a", "alpha");
    assert_eq!(texts(&cargo_members(&disk, &mut cache, "/p")), vec!["alpha"]);
}

#[test]
fn cache_hit_returns_same_data_on_repeated_calls() {
    let mut disk = Disk::new();
    let mut cache = CargoCache::new();
    disk.write("/p/Cargo.toml", "[workspace]\nmembers = [\"a\", \"b\"]\n");
    write_member(&mut disk, "a", "alpha");
    write_member(&mut disk, "b", "beta");
    let first = cargo_members(&disk, &mut cache, "/p");
    let second = cargo_members(&disk, &mut cache, "/p");
    assert_eq!(texts(&first), texts(&second));
}

#[test]
fn glob_members_come_in_the_order_of_their_directories() {
    let mut disk = Disk::new();
    disk.write("/p/Cargo.toml", "[workspace]\nmembers = [\"crates/*\"]\n");
    write_member(&mut disk, "crates/zeta", "z");
    write_member(&mut disk, "crates/alpha", "a");
    assert_eq!(texts(&members_of(&disk, "/p")), vec!["a", "z"]);
}

#[test]
fn an_unknown_modification_time_counts_as_a_change() {
    let unknown = StampState::File { mtime: None, size: 3 };
    assert!(!stamp_matches(&unknown, &unknown));
    let known = StampState::File { mtime: Some(FileTime { secs: 1, nanos: 0 }), size: 3 };
    assert!(stamp_matches(&known, &known));
    assert!(stamp_matches(&StampState::AbsentOrUnreadable, &StampState::AbsentOrUnreadable));
}

#[test]
fn a_recorded_path_keeps_its_latest_state() {
    let mut root = ResolvedRoot::new();
    root.record("/a", StampState::AbsentOrUnreadable);
    root.record("/a", StampState::Dir { mtime: None });
    assert_eq!(root.stamps.len(), 1);
    assert!(matches!(root.stamps[0].state, StampState::Dir { .. }));
}

#[test]
fn a_package_without_a_valid_name_is_no_member() {
    let package = PackageMin {
        name: Some("not valid".to_string()),
        version: None,
        description: None,
    };
    assert!(MemberInfo::from_package(&package).is_none());
}
