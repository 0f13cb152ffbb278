//! Scripts, commands given as one string, and where specs are looked for.
use gc_suggest::encoding::{quote_list, truncate_utf8};
use gc_suggest::script::{
    has_new_metacharacter, script_result, substitute_template, ScriptEnd, ScriptError,
    ScriptOutput, MAX_GENERATOR_STDOUT_BYTES, MAX_SUBSTITUTION_LEN,
};
use gc_suggest::shell_runner::{argv_from_words, shell_argv, ArgvError};
use gc_suggest::spec_dirs::{
    auto_detect_spec_dirs, expand_tilde, resolve_spec_dirs, resolve_spec_dirs_with_provenance,
    SpecDirPartition, SpecDirRoots,
};

fn strings(v: &[&str]) -> Vec<String> {
    v.iter().map(|s| s.to_string()).collect()
}

// --- templates --------------------------------------------------------------

#[test]
fn test_substitute_template_prev_token() {
    let template = vec![
        "cmd".to_string(),
        "--flag".to_string(),
        "{prev_token}".to_string(),
    ];
    let result = substitute_template(&template, Some("value"), None);
    assert_eq!(result, vec!["cmd", "--flag", "value"]);
}

#[test]
fn test_substitute_template_current_token() {
    let template = vec!["cmd".to_string(), "{current_token}".to_string()];
    let result = substitute_template(&template, None, Some("partial"));
    assert_eq!(result, vec!["cmd", "partial"]);
}

#[test]
fn test_substitute_template_length_limit() {
    let long = "a".repeat(2000);
    let template = vec!["cmd".to_string(), "{prev_token}".to_string()];
    let result = substitute_template(&template, Some(&long), None);
    assert!(result[1].len() <= 1024);
}

#[test]
fn test_substitute_template_multibyte_truncation() {
    let emojis = "\u{1F600}".repeat(257);
    assert_eq!(emojis.len(), 1028);
    let template = vec!["cmd".to_string(), "{prev_token}".to_string()];
    let result = substitute_template(&template, Some(&emojis), None);
    assert!(result[1].len() <= 1024);
    assert!(result[1].is_char_boundary(result[1].len()));
}

#[test]
fn placeholders_without_a_value_are_emptied() {
    let template = strings(&["a{prev_token}b", "{current_token}"]);
    assert_eq!(substitute_template(&template, None, None), vec!["ab", ""]);
    assert_eq!(
        substitute_template(&template, Some("{current_token}"), Some("x")),
        vec!["axb", "x"]
    );
}

#[test]
fn template_parts_without_a_placeholder_stay() {
    let template = strings(&["git", "log", "--format=%h"]);
    assert_eq!(substitute_template(&template, Some("x"), Some("y")), template);
}

#[test]
fn a_value_is_cut_at_its_limit() {
    let long = "b".repeat(MAX_SUBSTITUTION_LEN + 1);
    let got = substitute_template(&strings(&["{prev_token}"]), Some(&long), None);
    assert_eq!(got[0].len(), MAX_SUBSTITUTION_LEN);
    assert_eq!(truncate_utf8("aéb", 2), "a");
    assert_eq!(truncate_utf8("aéb", 3), "aé");
    assert_eq!(truncate_utf8("abc", 9), "abc");
}

#[test]
fn metacharacters_that_a_value_brought_are_noticed() {
    assert!(has_new_metacharacter("{prev_token}", "a;b"));
    assert!(!has_new_metacharacter("a;b", "a;b"));
    assert!(!has_new_metacharacter("{prev_token}", "ab"));
}

// --- script output ----------------------------------------------------------

fn fed(stdout: &[&[u8]], stderr: &[&[u8]]) -> ScriptOutput {
    let mut output = ScriptOutput::new();
    for chunk in stdout {
        if output.wants_more() {
            output.take_stdout(chunk);
        }
    }
    for chunk in stderr {
        if output.wants_more() {
            output.take_stderr(chunk);
        }
    }
    output
}

#[test]
fn script_output_is_returned_on_success() {
    let output = fed(&[b"foo\n", b"bar", b""], &[b"note", b""]);
    assert!(!output.wants_more());
    let got = script_result(&strings(&["printf"]), 5000, &output, ScriptEnd::Exited(true));
    assert_eq!(got.unwrap(), "foo\nbar");
}

#[test]
fn script_output_that_is_no_utf8_is_repaired() {
    let output = fed(&[b"a\xffb", b""], &[b""]);
    let got = script_result(&strings(&["x"]), 5000, &output, ScriptEnd::Exited(true));
    assert_eq!(got.unwrap(), "a\u{fffd}b");
}

#[test]
fn a_failed_script_shows_nothing() {
    let output = fed(&[b"partial", b""], &[b"fake auth error", b""]);
    let got = script_result(&strings(&["sh"]), 5000, &output, ScriptEnd::Exited(false));
    assert_eq!(got.unwrap(), "");
}

#[test]
fn script_output_is_capped() {
    let chunk = vec![b'a'; 700_000];
    let output = fed(&[&chunk, &chunk], &[]);
    assert!(output.truncated);
    assert!(!output.wants_more());
    assert_eq!(output.stdout.len(), MAX_GENERATOR_STDOUT_BYTES);
    let got = script_result(&strings(&["yes"]), 5000, &output, ScriptEnd::Exited(false));
    assert_eq!(got.unwrap().len(), MAX_GENERATOR_STDOUT_BYTES);
    let end = ScriptEnd::WaitFailed("lost".to_string());
    let got = script_result(&strings(&["yes"]), 5000, &output, end);
    assert_eq!(got.unwrap().len(), MAX_GENERATOR_STDOUT_BYTES);
    assert!(script_result(&strings(&["yes"]), 5000, &output, ScriptEnd::TimedOut).is_err());
}

#[test]
fn it_does_not_matter_how_output_is_cut_into_chunks() {
    let whole = fed(&[b"abcdef"], &[b"xyz"]);
    let cut = fed(&[b"ab", b"c", b"def"], &[b"x", b"yz"]);
    assert_eq!(whole.stdout, cut.stdout);
    assert_eq!(whole.stderr, cut.stderr);
}

#[test]
fn script_failures_have_their_messages() {
    let argv = strings(&["sleep", "10"]);
    let output = ScriptOutput::new();
    let end = |e: ScriptEnd| script_result(&argv, 100, &output, e).unwrap_err();
    let timeout = end(ScriptEnd::TimedOut);
    assert!(matches!(timeout, ScriptError::Timeout(100)));
    assert_eq!(timeout.message(&argv), r#"script timed out after 100ms: ["sleep", "10"]"#);
    let spawn = end(ScriptEnd::SpawnFailed("gone".to_string()));
    assert_eq!(spawn.message(&argv), r#"script execution failed for ["sleep", "10"]: gone"#);
    let io = end(ScriptEnd::ReadFailed("pipe".to_string()));
    assert_eq!(io.message(&argv), r#"script I/O error for ["sleep", "10"]: pipe"#);
    let wait = end(ScriptEnd::WaitFailed("lost".to_string()));
    assert_eq!(wait.message(&argv), r#"script wait error for ["sleep", "10"]: lost"#);
    let none: Vec<String> = Vec::new();
    let empty = script_result(&none, 100, &output, ScriptEnd::Exited(true)).unwrap_err();
    assert!(matches!(empty, ScriptError::EmptyCommand));
    assert_eq!(empty.message(&none), "empty script command");
}

#[test]
fn lists_are_quoted_as_rust_writes_them() {
    let argv = strings(&["a\"b", "c\n"]);
    assert_eq!(quote_list(&argv), format!("{argv:?}"));
    assert_eq!(quote_list(&Vec::new()), "[]");
}

// --- commands ---------------------------------------------------------------

#[test]
fn run_string_shlex_failure_classifies_as_argv_parse() {
    let err = shell_argv("echo \"unmatched").expect_err("unmatched quote must surface as error");
    assert!(
        matches!(err, ArgvError::Unparsed(_)),
        "expected a parse failure, got: {err:?}"
    );
    assert_eq!(err.message(), r#"shlex could not parse: "echo \"unmatched""#);
}

#[test]
fn a_command_is_cut_into_its_words() {
    assert_eq!(shell_argv("ls -l 'my dir'").unwrap(), vec!["ls", "-l", "my dir"]);
    let err = shell_argv("  \t ").unwrap_err();
    assert!(matches!(err, ArgvError::Empty));
    assert_eq!(err.message(), "shell-string parsed to empty argv");
    assert_eq!(argv_from_words("x", Some(strings(&["x"]))).unwrap(), vec!["x"]);
}

// --- directories ------------------------------------------------------------

fn is_dir(path: &str) -> bool {
    path == "." || path == "/specs" || path == "/home/u/.config/ghost-complete/specs"
}

fn partition_spec_dirs(configured: &[String]) -> SpecDirPartition {
    gc_suggest::spec_dirs::partition_spec_dirs(&configured.to_vec(), &None, &is_dir)
}

fn no_roots() -> SpecDirRoots {
    SpecDirRoots { home: None, config_dir: None, exe: None }
}

#[test]
fn partition_spec_dirs_separates_valid_and_invalid() {
    let configured = vec![
        ".".to_string(),
        "/ghost-complete-nonexistent-xyz-1".to_string(),
        "/ghost-complete-nonexistent-xyz-2".to_string(),
    ];
    let partition = partition_spec_dirs(&configured);
    assert_eq!(partition.valid.len(), 1, "expected only `.` to be valid");
    assert_eq!(partition.valid[0], ".");
    assert_eq!(
        partition.invalid,
        vec![
            "/ghost-complete-nonexistent-xyz-1".to_string(),
            "/ghost-complete-nonexistent-xyz-2".to_string(),
        ],
        "invalid list must preserve raw configured strings in input order"
    );
}

#[test]
fn partition_spec_dirs_empty_input() {
    let partition = partition_spec_dirs(&[]);
    assert!(partition.valid.is_empty());
    assert!(partition.invalid.is_empty());
}

#[test]
fn partition_spec_dirs_all_valid() {
    let configured = vec![".".to_string()];
    let partition = partition_spec_dirs(&configured);
    assert_eq!(partition.valid, vec!["."]);
    assert!(partition.invalid.is_empty());
}

#[test]
fn partition_spec_dirs_all_invalid() {
    let configured = vec!["/ghost-complete-fake-path-zzz".to_string()];
    let partition = partition_spec_dirs(&configured);
    assert!(partition.valid.is_empty());
    assert_eq!(
        partition.invalid,
        vec!["/ghost-complete-fake-path-zzz".to_string()]
    );
}

#[test]
fn valid_configured_spec_dirs_disable_embedded_fallback() {
    let configured = strings(&["/specs"]);

    let resolution = resolve_spec_dirs_with_provenance(&configured, &no_roots(), &is_dir);

    assert_eq!(resolution.dirs, vec!["/specs"]);
    assert!(
        !resolution.include_embedded,
        "valid explicit paths.spec_dirs must be an exact runtime override"
    );
    assert_eq!(resolve_spec_dirs(&configured, &no_roots(), &is_dir), resolution.dirs);
}

#[test]
fn auto_detected_spec_dirs_include_embedded_fallback() {
    let resolution = resolve_spec_dirs_with_provenance(&Vec::new(), &no_roots(), &is_dir);

    assert!(
        resolution.include_embedded,
        "auto-detected runtime dirs must still be supplemented by embedded specs"
    );
}

#[test]
fn only_invalid_configured_dirs_fall_back_to_detection() {
    let roots = SpecDirRoots {
        home: Some("/home/u".to_string()),
        config_dir: Some("/home/u/.config/ghost-complete".to_string()),
        exe: None,
    };
    let resolution =
        resolve_spec_dirs_with_provenance(&strings(&["/nowhere"]), &roots, &is_dir);
    assert!(resolution.include_embedded);
    assert_eq!(resolution.dirs, auto_detect_spec_dirs(&roots, &is_dir));
    assert!(resolution.dirs.contains(&"/home/u/.config/ghost-complete/specs".to_string()));
}

#[test]
fn a_leading_tilde_stands_for_the_home_directory() {
    let home = Some("/home/u".to_string());
    assert_eq!(expand_tilde("~/specs", &home), "/home/u/specs");
    assert_eq!(expand_tilde("/a/~/b", &home), "/a/~/b");
    assert_eq!(expand_tilde("~/specs", &None), "~/specs");
}
