//! Providers whose tool answers in JSON.
use gc_suggest::providers::ansible_doc::{
    ansible_suggestions, modules_to_suggestions, AnsibleDocModuleMap,
};
use gc_suggest::providers::arduino_cli::{
    ports_from_output, suggestions_from_output, ArduinoBoardListOutput, DetectedPort,
    MatchingBoard, PortInfo,
};
use gc_suggest::providers::aws_sdk::{
    aws_cache_key, aws_profile, aws_region, aws_request, call_result, failure_message,
    is_supported_operation, keep_answer, recent_answer, suggestions_from_values, value_to_string,
    AwsCache, AwsCacheKey, AwsCallEnd, AwsRequest, AwsSdkErrorKind, JsonScalar,
    AWS_SDK_CACHE_TTL_MS,
};
use gc_suggest::providers::cargo_metadata::{
    active_package_for_cwd, feature_suggestions, keep_stdout, parse_cargo_features,
    parse_cargo_targets, parse_cargo_workspace_members, recent_stdout, target_kind,
    CargoMetadataCache, CargoMetadataKey, CargoMetadataOutput, CargoPackage, CargoTarget,
    CARGO_METADATA_TTL_MS,
};
use gc_suggest::providers::context::ProviderCtx;
use gc_suggest::providers::docker::{
    binary_from_ctx, parse_docker_json_lines, row_to_suggestion, DockerKind, DockerRow,
};
use gc_suggest::providers::kubectl::{
    first_call, next_call, parse_kubectl_json_list, parse_kubectl_lines, K8sKind, KubernetesItem,
    KubernetesMetadata, KubernetesSpec, KubernetesStatus,
};
use gc_suggest::providers::local_project::mtime_cache::{FileMeta, FileTime};
use gc_suggest::providers::multipass::{
    filtered_suggestions, MultipassInstance, MultipassInstanceFilter, MultipassListOutput,
};
use gc_suggest::providers::npm_local::{
    cached_dependencies, parse_npm_dependencies, NpmDependencyCache, NpmDependencyMode,
};
use gc_suggest::providers::systemd_units;
use gc_suggest::providers::systemd_units::{
    json_args, parse_systemd_json_units, systemd_units_to_suggestions, text_args, tries_json,
    SystemctlCall, SystemctlStep, SystemdFilter, SystemdJsonUnit, SystemdListing, SystemdScope,
    SystemdUnit,
};
use gc_suggest::providers::util::{
    lossy_output, parse_json_lines, raw_output, strict_output, CommandEnd,
};
use gc_suggest::text_map::TextMap;
use gc_suggest::types::{provider_value, Suggestion, SuggestionKind, SuggestionSource};
use serde_json::Value;
use std::sync::Arc;

fn texts(v: &[Suggestion]) -> Vec<&str> {
    v.iter().map(|s| s.text.as_str()).collect()
}

fn map(pairs: &[(&str, &str)]) -> Arc<TextMap> {
    let mut m = TextMap::new();
    for (key, value) in pairs {
        m.insert(key.to_string(), value.to_string());
    }
    Arc::new(m)
}

fn ctx_with(env: &[(&str, &str)], params: &[(&str, &str)]) -> ProviderCtx {
    ProviderCtx {
        cwd: "/tmp".to_string(),
        env: map(env),
        current_token: String::new(),
        params: map(params),
    }
}

fn text_at(v: &Value, key: &str) -> Option<String> {
    v.get(key).and_then(|x| x.as_str()).map(|s| s.to_string())
}

fn list_at<'a>(v: &'a Value, key: &str) -> &'a [Value] {
    match v.get(key).and_then(|x| x.as_array()) {
        Some(items) => items,
        None => &[],
    }
}

fn texts_at(v: &Value, key: &str) -> Vec<String> {
    list_at(v, key).iter().filter_map(|x| x.as_str()).map(|s| s.to_string()).collect()
}

// --- arduino-cli ------------------------------------------------------------

fn detected_port(v: &Value) -> DetectedPort {
    DetectedPort {
        port: v.get("port").map(|p| PortInfo { address: text_at(p, "address") }),
        matching_boards: v.get("matching_boards").and_then(|b| b.as_array()).map(|boards| {
            boards
                .iter()
                .map(|b| MatchingBoard { name: text_at(b, "name"), fqbn: text_at(b, "fqbn") })
                .collect()
        }),
    }
}

fn board_list(json: &str) -> Option<ArduinoBoardListOutput> {
    let v: Value = serde_json::from_str(json).ok()?;
    match v.as_array() {
        Some(ports) => {
            Some(ArduinoBoardListOutput::Flat(ports.iter().map(detected_port).collect()))
        }
        None => Some(ArduinoBoardListOutput::Wrapped {
            detected_ports: list_at(&v, "detected_ports").iter().map(detected_port).collect(),
        }),
    }
}

fn parse_board_list(json: &str) -> Vec<Suggestion> {
    board_list(json).map(suggestions_from_output).unwrap_or_default()
}

fn parse_port_list(json: &str) -> Vec<Suggestion> {
    board_list(json).map(ports_from_output).unwrap_or_default()
}

#[test]
fn parses_wrapped_shape() {
    let json = r#"{
        "detected_ports": [
            {
                "port": {"address": "/dev/ttyACM0"},
                "matching_boards": [
                    {"name": "Arduino Uno", "fqbn": "arduino:avr:uno"}
                ]
            }
        ]
    }"#;
    let suggestions = parse_board_list(json);
    assert_eq!(suggestions.len(), 1);
    assert_eq!(suggestions[0].text, "arduino:avr:uno");
    assert_eq!(
        suggestions[0].description.as_deref(),
        Some("Arduino Uno on port /dev/ttyACM0")
    );
    assert_eq!(suggestions[0].kind, SuggestionKind::ProviderValue);
    assert_eq!(suggestions[0].source, SuggestionSource::Provider);
}

#[test]
fn parses_flat_array_shape() {
    let json = r#"[
        {
            "port": {"address": "/dev/ttyUSB0"},
            "matching_boards": [
                {"name": "Arduino Mega", "fqbn": "arduino:avr:mega"}
            ]
        }
    ]"#;
    let suggestions = parse_board_list(json);
    assert_eq!(suggestions.len(), 1);
    assert_eq!(suggestions[0].text, "arduino:avr:mega");
    assert_eq!(
        suggestions[0].description.as_deref(),
        Some("Arduino Mega on port /dev/ttyUSB0")
    );
}

#[test]
fn empty_detected_ports_yields_empty_vec() {
    assert!(parse_board_list(r#"{"detected_ports": []}"#).is_empty());
    assert!(parse_board_list("[]").is_empty());
}

#[test]
fn entries_without_matching_boards_are_skipped() {
    let json = r#"{
        "detected_ports": [
            {"port": {"address": "/dev/ttyS0"}, "matching_boards": null},
            {"port": {"address": "/dev/ttyS1"}},
            {"port": {"address": "/dev/ttyS2"}, "matching_boards": []},
            {
                "port": {"address": "/dev/ttyACM0"},
                "matching_boards": [
                    {"name": "Arduino Uno", "fqbn": "arduino:avr:uno"}
                ]
            }
        ]
    }"#;
    let suggestions = parse_board_list(json);
    assert_eq!(suggestions.len(), 1);
    assert_eq!(suggestions[0].text, "arduino:avr:uno");
}

#[test]
fn malformed_json_yields_empty_vec() {
    assert!(parse_board_list("not json").is_empty());
    assert!(parse_board_list("").is_empty());
    assert!(parse_board_list("{").is_empty());
}

#[test]
fn suggestion_shape_for_mixed_fixture() {
    let json = r#"{
        "detected_ports": [
            {"port": {"address": "/dev/ttyS0"}, "matching_boards": null},
            {
                "port": {"address": "/dev/ttyACM0"},
                "matching_boards": [
                    {"name": "Arduino Uno", "fqbn": "arduino:avr:uno"}
                ]
            }
        ]
    }"#;
    let suggestions = parse_board_list(json);
    assert_eq!(suggestions.len(), 1);
    assert_eq!(suggestions[0].text, "arduino:avr:uno");
    assert_eq!(
        suggestions[0].description,
        Some("Arduino Uno on port /dev/ttyACM0".to_string())
    );
    assert_eq!(suggestions[0].kind, SuggestionKind::ProviderValue);
    assert_eq!(suggestions[0].source, SuggestionSource::Provider);
}

#[test]
fn extract_ports_happy_path() {
    let json = r#"{
        "detected_ports": [
            {
                "port": {"address": "/dev/ttyACM0"},
                "matching_boards": [
                    {"name": "Arduino Uno", "fqbn": "arduino:avr:uno"}
                ]
            },
            {
                "port": {"address": "/dev/ttyUSB0"},
                "matching_boards": [
                    {"name": "Arduino Mega", "fqbn": "arduino:avr:mega"}
                ]
            }
        ]
    }"#;
    let suggestions = parse_port_list(json);
    assert_eq!(suggestions.len(), 2);
    assert_eq!(suggestions[0].text, "/dev/ttyACM0");
    assert_eq!(
        suggestions[0].description.as_deref(),
        Some("Arduino Uno port connection")
    );
    assert_eq!(suggestions[0].kind, SuggestionKind::ProviderValue);
    assert_eq!(suggestions[0].source, SuggestionSource::Provider);
    assert_eq!(suggestions[1].text, "/dev/ttyUSB0");
    assert_eq!(
        suggestions[1].description.as_deref(),
        Some("Arduino Mega port connection")
    );
}

#[test]
fn extract_ports_filters_without_matching_boards() {
    let json = r#"{
        "detected_ports": [
            {
                "port": {"address": "/dev/ttyACM0"},
                "matching_boards": [
                    {"name": "Arduino Uno", "fqbn": "arduino:avr:uno"}
                ]
            },
            {"port": {"address": "/dev/ttyS0"}, "matching_boards": null},
            {"port": {"address": "/dev/ttyS1"}, "matching_boards": []}
        ]
    }"#;
    let suggestions = parse_port_list(json);
    assert_eq!(suggestions.len(), 1);
    assert_eq!(suggestions[0].text, "/dev/ttyACM0");
    assert_eq!(
        suggestions[0].description.as_deref(),
        Some("Arduino Uno port connection")
    );
}

#[test]
fn extract_ports_empty_input() {
    assert!(parse_port_list(r#"{"detected_ports": []}"#).is_empty());
    assert!(parse_port_list("[]").is_empty());
}

#[test]
fn ports_provider_subprocess_failure_returns_empty() {
    let empty = ArduinoBoardListOutput::Flat(Vec::new());
    assert!(ports_from_output(empty).is_empty());
}

#[test]
fn a_board_without_an_id_is_left_out() {
    let json = r#"[
        {"port": {"address": "/dev/a"}, "matching_boards": [{"name": "No id"}]},
        {"port": {"address": "/dev/b"}, "matching_boards": [{"name": "Uno", "fqbn": "arduino:avr:uno"}]}
    ]"#;
    assert_eq!(texts(&parse_board_list(json)), vec!["arduino:avr:uno"]);
}

// --- ansible-doc ------------------------------------------------------------

fn parse_ansible_doc_raw(json: &str) -> Option<AnsibleDocModuleMap> {
    gc_suggest::providers::ansible_doc::parse_ansible_doc_raw(json.as_bytes())
}

#[test]
fn ansible_doc_parse_happy_path() {
    let json = r#"{
        "ansible.builtin.copy": "Copy files to remote locations",
        "ansible.builtin.apt": "Manages apt-packages",
        "community.general.homebrew": "Package manager for Homebrew"
    }"#;
    let modules = parse_ansible_doc_raw(json).expect("parse should succeed");
    let suggestions = modules_to_suggestions(&modules);
    assert_eq!(suggestions.len(), 3);
    assert_eq!(suggestions[0].text, "ansible.builtin.apt");
    assert_eq!(
        suggestions[0].description.as_deref(),
        Some("Manages apt-packages")
    );
    assert_eq!(suggestions[1].text, "ansible.builtin.copy");
    assert_eq!(
        suggestions[1].description.as_deref(),
        Some("Copy files to remote locations")
    );
    assert_eq!(suggestions[2].text, "community.general.homebrew");
    assert_eq!(
        suggestions[2].description.as_deref(),
        Some("Package manager for Homebrew")
    );
    for s in &suggestions {
        assert_eq!(s.kind, SuggestionKind::ProviderValue);
        assert_eq!(s.source, SuggestionSource::Provider);
    }
}

#[test]
fn parse_empty_object() {
    let modules = parse_ansible_doc_raw("{}").expect("parse should succeed");
    assert!(modules.is_empty());
    assert!(modules_to_suggestions(&modules).is_empty());
}

#[test]
fn ansible_doc_parse_malformed_json_returns_none() {
    assert!(parse_ansible_doc_raw("not json").is_none());
    assert!(parse_ansible_doc_raw("[]").is_none());
    assert!(parse_ansible_doc_raw("").is_none());
    assert!(parse_ansible_doc_raw("{").is_none());
}

#[test]
fn parse_description_with_special_chars() {
    let json = r#"{
        "ansible.builtin.debug": "Print statements during execution, with \"pretty\" quoting",
        "community.general.unicode": "Manages résumé, naïve, and emoji payloads"
    }"#;
    let modules = parse_ansible_doc_raw(json).expect("parse should succeed");
    let suggestions = modules_to_suggestions(&modules);
    assert_eq!(suggestions.len(), 2);
    assert_eq!(suggestions[0].text, "ansible.builtin.debug");
    assert_eq!(
        suggestions[0].description.as_deref(),
        Some("Print statements during execution, with \"pretty\" quoting")
    );
    assert_eq!(suggestions[1].text, "community.general.unicode");
    assert_eq!(
        suggestions[1].description.as_deref(),
        Some("Manages résumé, naïve, and emoji payloads")
    );
}

#[test]
fn ansible_modules_come_straight_from_the_output() {
    assert_eq!(texts(&ansible_suggestions(br#"{"z": "last", "a": "first"}"#)), vec!["a", "z"]);
    assert!(ansible_suggestions(b"broken").is_empty());
    assert!(ansible_suggestions(br#"{"a": 1}"#).is_empty());
}

// --- multipass --------------------------------------------------------------

fn parse_multipass_list_raw(json: &str) -> Option<MultipassListOutput> {
    let v: Value = serde_json::from_str(json).ok()?;
    Some(MultipassListOutput {
        list: list_at(&v, "list")
            .iter()
            .map(|i| MultipassInstance {
                name: text_at(i, "name"),
                release: text_at(i, "release"),
                state: text_at(i, "state"),
            })
            .collect(),
    })
}

fn instances_to_suggestions(output: MultipassListOutput) -> Vec<Suggestion> {
    gc_suggest::providers::multipass::instances_to_suggestions(&output)
}

#[test]
fn multipass_parse_happy_path() {
    let json = r#"{
        "list": [
            {"name": "primary", "release": "22.04 LTS", "state": "Running", "ipv4": ["10.0.0.1"]},
            {"name": "dev-box", "release": "20.04 LTS", "state": "Stopped", "ipv4": []}
        ]
    }"#;
    let output = parse_multipass_list_raw(json).expect("parse should succeed");
    let suggestions = instances_to_suggestions(output);
    assert_eq!(suggestions.len(), 2);
    assert_eq!(suggestions[0].text, "primary");
    assert_eq!(
        suggestions[0].description.as_deref(),
        Some("22.04 LTS (Running)")
    );
    assert_eq!(suggestions[0].kind, SuggestionKind::Command);
    assert_eq!(suggestions[0].source, SuggestionSource::Provider);
    assert_eq!(suggestions[1].text, "dev-box");
    assert_eq!(
        suggestions[1].description.as_deref(),
        Some("20.04 LTS (Stopped)")
    );
}

#[test]
fn parse_empty_list() {
    let output = parse_multipass_list_raw(r#"{"list": []}"#).expect("parse should succeed");
    assert!(instances_to_suggestions(output).is_empty());
}

#[test]
fn parse_missing_name_filtered() {
    let json = r#"{
        "list": [
            {"name": null, "release": "22.04 LTS", "state": "Running"},
            {"name": "keeper", "release": "22.04 LTS", "state": "Running"}
        ]
    }"#;
    let output = parse_multipass_list_raw(json).expect("parse should succeed");
    let suggestions = instances_to_suggestions(output);
    assert_eq!(suggestions.len(), 1);
    assert_eq!(suggestions[0].text, "keeper");
}

#[test]
fn parse_missing_release_or_state_graceful() {
    let json = r#"{
        "list": [
            {"name": "no-release", "state": "Running"},
            {"name": "no-state", "release": "22.04 LTS"},
            {"name": "neither"}
        ]
    }"#;
    let output = parse_multipass_list_raw(json).expect("parse should succeed");
    let suggestions = instances_to_suggestions(output);
    assert_eq!(suggestions.len(), 3);
    assert_eq!(suggestions[0].text, "no-release");
    assert_eq!(suggestions[0].description.as_deref(), Some("(Running)"));
    assert_eq!(suggestions[1].text, "no-state");
    assert_eq!(suggestions[1].description.as_deref(), Some("22.04 LTS"));
    assert_eq!(suggestions[2].text, "neither");
    assert_eq!(suggestions[2].description, None);
    for s in &suggestions {
        if let Some(d) = s.description.as_deref() {
            assert!(
                !d.contains("undefined") && !d.contains("null"),
                "description leaked sentinel: {d:?}"
            );
        }
    }
}

#[test]
fn multipass_parse_malformed_json_returns_none() {
    assert!(parse_multipass_list_raw("not json").is_none());
    assert!(parse_multipass_list_raw("").is_none());
    assert!(parse_multipass_list_raw("{").is_none());
}

#[test]
fn instance_filters_part_the_list() {
    let output = parse_multipass_list_raw(
        r#"{"list": [
            {"name": "a", "state": "Running"},
            {"name": "b", "state": "Deleted"},
            {"name": "c", "state": "Stopped"}
        ]}"#,
    )
    .unwrap();
    let shown = |f: MultipassInstanceFilter| {
        filtered_suggestions(&output, f).into_iter().map(|s| s.text).collect::<Vec<String>>()
    };
    assert_eq!(shown(MultipassInstanceFilter::All), vec!["a", "b", "c"]);
    assert_eq!(shown(MultipassInstanceFilter::NotDeleted), vec!["a", "c"]);
    assert_eq!(shown(MultipassInstanceFilter::Deleted), vec!["b"]);
    assert_eq!(shown(MultipassInstanceFilter::Running), vec!["a"]);
    assert_eq!(shown(MultipassInstanceFilter::Stopped), vec!["c"]);
}

// --- shared helpers ---------------------------------------------------------

#[derive(Debug, PartialEq, Eq)]
struct Row {
    name: String,
}

#[test]
fn parse_json_lines_ignores_blank_lines() {
    let rows: Vec<Row> = parse_json_lines("{\"name\":\"one\"}\n\n{\"name\":\"two\"}\n", &|line: &str| {
        let v: Value = serde_json::from_str(line).ok()?;
        Some(Row { name: text_at(&v, "name")? })
    })
    .unwrap();

    assert_eq!(
        rows,
        vec![
            Row {
                name: "one".to_string(),
            },
            Row {
                name: "two".to_string(),
            },
        ]
    );
}

#[test]
fn one_bad_line_spoils_the_rows() {
    let parse = |line: &str| line.parse::<u32>().ok();
    assert_eq!(parse_json_lines("1\n2\n", &parse), Some(vec![1, 2]));
    assert_eq!(parse_json_lines("1\nx\n2\n", &parse), None);
}

#[test]
fn only_a_successful_command_has_output() {
    let bytes = b"a\xffb".to_vec();
    let ended = |success: bool| CommandEnd::Exited { success, stdout: b"a\xffb".to_vec() };
    assert_eq!(raw_output(ended(true)), Some(bytes));
    assert_eq!(lossy_output(ended(true)), Some("a\u{fffd}b".to_string()));
    assert_eq!(strict_output(ended(true)), None);
    assert_eq!(
        strict_output(CommandEnd::Exited { success: true, stdout: b"ghost\n".to_vec() }),
        Some("ghost\n".to_string())
    );
    assert_eq!(raw_output(ended(false)), None);
    assert_eq!(lossy_output(CommandEnd::NotStarted), None);
    assert_eq!(strict_output(CommandEnd::TimedOut), None);
}

// --- docker -----------------------------------------------------------------

fn docker_row(line: &str) -> Option<DockerRow> {
    let v: Value = serde_json::from_str(line).ok()?;
    Some(DockerRow {
        repository: text_at(&v, "Repository"),
        tag: text_at(&v, "Tag"),
        id: text_at(&v, "ID"),
        image: text_at(&v, "Image"),
        names: text_at(&v, "Names"),
        name: text_at(&v, "Name"),
        status: text_at(&v, "Status"),
        state: text_at(&v, "State"),
        size: text_at(&v, "Size"),
        driver: text_at(&v, "Driver"),
        scope: text_at(&v, "Scope"),
        mountpoint: text_at(&v, "Mountpoint"),
    })
}

#[test]
fn docker_images_are_named_by_repository_and_tag() {
    let out = concat_lines(&[
        r#"{"Repository":"nginx","Tag":"latest","ID":"abc","Size":"10MB"}"#,
        r#"{"Repository":"<none>","Tag":"<none>","ID":"def","Size":"N/A"}"#,
    ]);
    let shown = parse_docker_json_lines(&out, DockerKind::Images, &docker_row);
    assert_eq!(texts(&shown), vec!["nginx:latest", "def"]);
    assert_eq!(shown[0].description.as_deref(), Some("abc 10MB"));
    assert_eq!(shown[1].description.as_deref(), Some("def"));
}

fn concat_lines(lines: &[&str]) -> String {
    lines.join("\n")
}

#[test]
fn running_containers_are_those_that_run() {
    let out = concat_lines(&[
        r#"{"Names":"web","Image":"nginx","Status":"Up 2 hours"}"#,
        r#"{"Names":"job","Image":"alpine","Status":"Exited (0)","State":"exited"}"#,
    ]);
    let all = parse_docker_json_lines(&out, DockerKind::Containers, &docker_row);
    let running = parse_docker_json_lines(&out, DockerKind::RunningContainers, &docker_row);
    assert_eq!(texts(&all), vec!["web", "job"]);
    assert_eq!(all[0].description.as_deref(), Some("nginx (Up 2 hours)"));
    assert_eq!(texts(&running), vec!["web"]);
}

#[test]
fn docker_output_that_is_no_json_shows_nothing() {
    assert!(parse_docker_json_lines("oops", DockerKind::Volumes, &docker_row).is_empty());
    let nameless = docker_row("{}").unwrap();
    assert!(row_to_suggestion(&nameless, DockerKind::Networks).is_none());
}

#[test]
fn docker_commands_and_binary() {
    assert_eq!(DockerKind::Containers.args(), vec!["ps", "-a", "--format", "{{json .}}"]);
    assert_eq!(binary_from_ctx(&ctx_with(&[], &[])), "docker");
    assert_eq!(binary_from_ctx(&ctx_with(&[], &[("binary", " podman ")])), "podman");
    assert_eq!(binary_from_ctx(&ctx_with(&[], &[("binary", "  ")])), "docker");
}

// --- kubectl ----------------------------------------------------------------

fn kubernetes_items(json: &str) -> Option<Vec<KubernetesItem>> {
    let v: Value = serde_json::from_str(json).ok()?;
    Some(
        list_at(&v, "items")
            .iter()
            .map(|i| KubernetesItem {
                metadata: i.get("metadata").map(|m| KubernetesMetadata {
                    name: text_at(m, "name"),
                    namespace: text_at(m, "namespace"),
                }),
                status: i.get("status").map(|s| KubernetesStatus { phase: text_at(s, "phase") }),
                spec: i.get("spec").map(|s| KubernetesSpec {
                    service_type: text_at(s, "type"),
                    cluster_ip: text_at(s, "clusterIP"),
                }),
            })
            .collect(),
    )
}

#[test]
fn kubernetes_objects_are_described() {
    let pods = r#"{"items":[
        {"metadata":{"name":"web","namespace":"prod"},"status":{"phase":"Running"}},
        {"metadata":{"name":"job"},"status":{"phase":"Pending"}},
        {"metadata":{"namespace":"prod"}}
    ]}"#;
    let shown = parse_kubectl_json_list(pods, K8sKind::Pods, kubernetes_items);
    assert_eq!(texts(&shown), vec!["web", "job"]);
    assert_eq!(shown[0].description.as_deref(), Some("prod (Running)"));
    assert_eq!(shown[1].description.as_deref(), Some("Pending"));

    let services = r#"{"items":[{"metadata":{"name":"api","namespace":"prod"},
        "spec":{"type":"ClusterIP","clusterIP":"10.0.0.7"}}]}"#;
    let shown = parse_kubectl_json_list(services, K8sKind::Services, kubernetes_items);
    assert_eq!(shown[0].description.as_deref(), Some("prod ClusterIP 10.0.0.7"));

    assert!(parse_kubectl_json_list("oops", K8sKind::Nodes, kubernetes_items).is_empty());
    assert!(parse_kubectl_json_list(pods, K8sKind::Contexts, kubernetes_items).is_empty());
}

#[test]
fn kubernetes_names_come_one_per_line() {
    let shown = parse_kubectl_lines("NAME SHORT\npods po\n\nservices svc\n", K8sKind::Resources);
    assert_eq!(texts(&shown), vec!["pods", "services"]);
    assert_eq!(shown[0].description.as_deref(), Some("kubernetes resource"));
    let shown = parse_kubectl_lines(" kind-dev \n", K8sKind::Contexts);
    assert_eq!(texts(&shown), vec!["kind-dev"]);
    assert!(parse_kubectl_lines("web", K8sKind::Pods).is_empty());
}

#[test]
fn old_kubectl_is_asked_the_old_way() {
    let first = first_call(K8sKind::Resources, Some(false));
    assert!(first.legacy);
    assert_eq!(first.args, vec!["api-resources"]);
    assert!(next_call(K8sKind::Resources, &first).is_none());

    let first = first_call(K8sKind::Resources, None);
    assert_eq!(first.args, vec!["api-resources", "-o", "name"]);
    let second = next_call(K8sKind::Resources, &first).unwrap();
    assert_eq!(second.args, vec!["api-resources"]);
    assert!(next_call(K8sKind::Resources, &second).is_none());

    let pods = first_call(K8sKind::Pods, Some(false));
    assert_eq!(pods.args, vec!["get", "pods", "-o", "json"]);
    assert!(next_call(K8sKind::Pods, &pods).is_none());
}

// --- systemd ----------------------------------------------------------------

fn systemd_rows(json: &str) -> Option<Vec<SystemdJsonUnit>> {
    let v: Value = serde_json::from_str(json).ok()?;
    let rows = v.as_array()?;
    Some(
        rows.iter()
            .map(|r| SystemdJsonUnit {
                unit: text_at(r, "unit"),
                active: text_at(r, "active"),
                description: text_at(r, "description"),
            })
            .collect(),
    )
}

#[test]
fn systemd_rows_become_units() {
    let json = r#"[
        {"unit":"ssh.service","active":"active","description":"OpenSSH"},
        {"unit":" ","active":"active"},
        {"unit":"cron.service"}
    ]"#;
    let units = parse_systemd_json_units(json, systemd_rows).unwrap();
    assert_eq!(units.len(), 2);
    assert_eq!(units[1].active, "unknown");
    let all = systemd_units_to_suggestions(&units, SystemdFilter::All);
    assert_eq!(texts(&all), vec!["cron.service", "ssh.service"]);
    assert_eq!(all[0].description.as_deref(), Some("unknown"));
    assert_eq!(all[1].description.as_deref(), Some("active - OpenSSH"));
    let active = systemd_units_to_suggestions(&units, SystemdFilter::ActiveOnly);
    assert_eq!(texts(&active), vec!["ssh.service"]);
    assert!(parse_systemd_json_units("{}", systemd_rows).is_none());
}

#[test]
fn systemd_pending_states_say_so() {
    let units = vec![SystemdUnit {
        unit: "a.service".to_string(),
        active: "activating".to_string(),
        description: Some("  ".to_string()),
    }];
    let shown = systemd_units_to_suggestions(&units, SystemdFilter::All);
    assert_eq!(shown[0].description.as_deref(), Some("pending activating"));
}

#[test]
fn systemctl_is_asked_for_json_unless_it_is_old() {
    assert!(tries_json(Some(true)));
    assert!(tries_json(None));
    assert!(!tries_json(Some(false)));
    assert_eq!(
        json_args(SystemdScope::User),
        vec!["--user", "list-units", "-o", "json", "--all", "--full"]
    );
    assert_eq!(
        text_args(SystemdScope::System),
        vec!["list-units", "--no-legend", "--all", "--full"]
    );
}

fn next_systemctl(call: &SystemctlCall, stdout: Option<&str>) -> SystemctlStep {
    systemd_units::next_step(SystemdScope::User, call, stdout, |json: &str| {
        let rows: Vec<Value> = serde_json::from_str(json).ok()?;
        let field = |row: &Value, key: &str| row[key].as_str().map(|s| s.to_string());
        Some(
            rows.iter()
                .map(|row| SystemdJsonUnit {
                    unit: field(row, "unit"),
                    active: field(row, "active"),
                    description: field(row, "description"),
                })
                .collect(),
        )
    })
}

#[test]
fn a_json_listing_falls_back_to_a_plain_one_and_that_to_nothing() {
    let call = systemd_units::first_call(SystemdScope::User, None);
    assert!(call.json);
    assert_eq!(call.args, json_args(SystemdScope::User));
    match next_systemctl(&call, Some(r#"[{"unit":"a.service","active":"active"}]"#)) {
        SystemctlStep::Units(units) => assert_eq!(units[0].unit, "a.service"),
        other => panic!("expected units, got {other:?}"),
    }
    for failed in [None, Some("no json")] {
        let again = match next_systemctl(&call, failed) {
            SystemctlStep::Again(again) => again,
            other => panic!("expected another run, got {other:?}"),
        };
        assert!(!again.json);
        assert_eq!(again.args, text_args(SystemdScope::User));
        assert!(matches!(next_systemctl(&again, None), SystemctlStep::Nothing));
        match next_systemctl(&again, Some("b.service loaded active running B\n")) {
            SystemctlStep::Units(units) => assert_eq!(units[0].unit, "b.service"),
            other => panic!("expected units, got {other:?}"),
        }
    }
    let old = systemd_units::first_call(SystemdScope::System, Some(false));
    assert!(!old.json);
    assert_eq!(old.args, text_args(SystemdScope::System));
}

#[test]
fn systemd_listings_have_a_scope_and_a_filter() {
    assert_eq!(SystemdListing::UserUnits.scope(), SystemdScope::User);
    assert_eq!(SystemdListing::UserUnits.filter(), SystemdFilter::All);
    assert_eq!(SystemdListing::ActiveUnits.scope(), SystemdScope::System);
    assert_eq!(SystemdListing::ActiveUnits.filter(), SystemdFilter::ActiveOnly);
    assert_eq!(SystemdListing::Units.filter(), SystemdFilter::All);
}

// --- npm --------------------------------------------------------------------

const PACKAGE_JSON: &[u8] = br#"{
    "dependencies": {"react": "^18", "left-pad": 3},
    "devDependencies": {"vitest": "1.0", "react": "dev"},
    "scripts": {"build": "tsc"}
}"#;

#[test]
fn npm_dependencies_are_listed_by_field() {
    let plain = parse_npm_dependencies(PACKAGE_JSON, NpmDependencyMode::Dependencies);
    let dev = parse_npm_dependencies(PACKAGE_JSON, NpmDependencyMode::DevDependencies);
    let all = parse_npm_dependencies(PACKAGE_JSON, NpmDependencyMode::AllDependencies);
    assert!(texts(&plain).contains(&"react"));
    assert!(!texts(&plain).contains(&"vitest"));
    assert_eq!(dev.len(), 2);
    assert_eq!(texts(&all).iter().filter(|t| **t == "react").count(), 1);
    assert!(texts(&all).contains(&"vitest"));
    let react = all.iter().find(|s| s.text == "react").unwrap();
    let from_plain = plain.iter().find(|s| s.text == "react").unwrap();
    assert_eq!(react.description, from_plain.description);
    assert!(parse_npm_dependencies(b"broken", NpmDependencyMode::AllDependencies).is_empty());
}

#[test]
fn npm_dependencies_are_kept_while_the_file_is_unchanged() {
    let mut cache = NpmDependencyCache::new();
    let meta = |secs: i64| FileMeta { mtime: Some(FileTime { secs, nanos: 0 }), size: 9 };
    let mode = NpmDependencyMode::Dependencies;
    let first = cached_dependencies(&mut cache, "/p/package.json", mode, Some(meta(1)), || {
        Some(PACKAGE_JSON.to_vec())
    })
    .unwrap();
    let again = cached_dependencies(&mut cache, "/p/package.json", mode, Some(meta(1)), || {
        panic!("nothing has changed")
    })
    .unwrap();
    assert_eq!(texts(&first), texts(&again));
    let changed = cached_dependencies(&mut cache, "/p/package.json", mode, Some(meta(2)), || {
        Some(b"{}".to_vec())
    })
    .unwrap();
    assert!(changed.is_empty());
}

// --- cargo metadata ---------------------------------------------------------

fn cargo_metadata(json: &str) -> Option<CargoMetadataOutput> {
    let v: Value = serde_json::from_str(json).ok()?;
    Some(CargoMetadataOutput {
        packages: list_at(&v, "packages")
            .iter()
            .map(|p| CargoPackage {
                id: text_at(p, "id").unwrap_or_default(),
                name: text_at(p, "name").unwrap_or_default(),
                manifest_path: text_at(p, "manifest_path"),
                features: match p.get("features").and_then(|f| f.as_object()) {
                    Some(f) => f.keys().cloned().collect(),
                    None => Vec::new(),
                },
                targets: list_at(p, "targets")
                    .iter()
                    .map(|t| CargoTarget {
                        name: text_at(t, "name").unwrap_or_default(),
                        kind: texts_at(t, "kind"),
                    })
                    .collect(),
            })
            .collect(),
        workspace_members: texts_at(&v, "workspace_members"),
    })
}

const METADATA: &str = r#"{
    "packages": [
        {"id": "z 1", "name": "zeta", "manifest_path": "/w/zeta/Cargo.toml",
         "features": {"fast": [], "default": []},
         "targets": [{"name": "zeta", "kind": ["lib"]}, {"name": "run", "kind": ["bin"]}]},
        {"id": "a 1", "name": "alpha", "manifest_path": "/w/Cargo.toml",
         "features": {"slow": []},
         "targets": [{"name": "run", "kind": ["bin"]}, {"name": "demo", "kind": ["example"]}]},
        {"id": "x 1", "name": "extern_dep", "manifest_path": "/r/x/Cargo.toml",
         "features": {}, "targets": [{"name": "x", "kind": ["bin"]}]}
    ],
    "workspace_members": ["z 1", "a 1"]
}"#;

#[test]
fn cargo_members_are_the_workspace_s_own() {
    let shown = parse_cargo_workspace_members(METADATA, cargo_metadata);
    let mut names = texts(&shown);
    names.sort();
    assert_eq!(names, vec!["alpha", "zeta"]);
    assert!(parse_cargo_workspace_members("broken", cargo_metadata).is_empty());
}

#[test]
fn cargo_targets_are_chosen_by_kind_and_not_repeated() {
    assert_eq!(texts(&parse_cargo_targets(METADATA, "bin", cargo_metadata)), vec!["run"]);
    assert_eq!(texts(&parse_cargo_targets(METADATA, "example", cargo_metadata)), vec!["demo"]);
    assert_eq!(target_kind(&ctx_with(&[], &[])), "bin");
    assert_eq!(target_kind(&ctx_with(&[], &[("kind", "example")])), "example");
}

#[test]
fn cargo_features_are_those_of_the_nearest_package() {
    let m = cargo_metadata(METADATA).unwrap();
    assert_eq!(active_package_for_cwd(&m, "/w/zeta/src").unwrap().name, "zeta");
    assert_eq!(active_package_for_cwd(&m, "/w/other").unwrap().name, "alpha");
    let mut shown = feature_suggestions(&m, "/w/zeta");
    shown.sort_by(|a, b| a.text.cmp(&b.text));
    assert_eq!(texts(&shown), vec!["default", "fast"]);
    assert_eq!(texts(&parse_cargo_features(METADATA, "/w", cargo_metadata)), vec!["slow"]);
}

#[test]
fn cargo_output_is_kept_for_its_time() {
    let mut cache = CargoMetadataCache::new();
    let key = |cwd: &str| CargoMetadataKey { cwd: cwd.to_string(), binary: "cargo".to_string() };
    keep_stdout(&mut cache, key("/w"), "out".to_string(), 10);
    assert_eq!(recent_stdout(&cache, &key("/w"), 20).map(|s| s.as_str()), Some("out"));
    assert!(recent_stdout(&cache, &key("/v"), 20).is_none());
    assert!(recent_stdout(&cache, &key("/w"), 10 + CARGO_METADATA_TTL_MS).is_none());
}

// --- AWS --------------------------------------------------------------------

fn aws_lookup(path: &str) -> Option<Vec<JsonScalar>> {
    match path {
        "Users[*].UserName" => Some(vec![JsonScalar::Text("alice".to_string())]),
        "Users[*].Arn" => Some(vec![JsonScalar::Text("arn:aws:iam::123:user/alice".to_string())]),
        _ => None,
    }
}

fn aws_answer(params: &[(&str, &str)], end: AwsCallEnd) -> Result<Vec<Suggestion>, String> {
    let ctx = ctx_with(&[], params);
    let request = aws_request(&ctx).unwrap();
    call_result(&ctx, &request, &end, &aws_lookup)
}

#[test]
fn generate_uses_runtime_seam_for_supported_operation() {
    let suggestions = aws_answer(
        &[
            ("service", "iam"),
            ("operation", "ListUsers"),
            ("field", "Users[*].UserName"),
            ("description_field", "Users[*].Arn"),
        ],
        AwsCallEnd::Answered,
    )
    .unwrap();

    assert_eq!(suggestions.len(), 1);
    assert_eq!(suggestions[0].text, "alice");
    assert_eq!(
        suggestions[0].description.as_deref(),
        Some("arn:aws:iam::123:user/alice")
    );
}

#[test]
fn aws_cache_key_includes_profile_region_and_params_hash() {
    let ctx = ctx_with(
        &[("AWS_PROFILE", "env-profile"), ("AWS_REGION", "us-east-1")],
        &[
            ("field", "Users[*].UserName"),
            ("operation", "ListUsers"),
            ("profile", "param-profile"),
            ("region", "eu-west-1"),
            ("service", "iam"),
        ],
    );

    assert_eq!(
        aws_cache_key(&ctx, "iam", "ListUsers"),
        AwsCacheKey {
            service: "iam".to_string(),
            operation: "ListUsers".to_string(),
            params_hash: ctx.params_hash(),
            profile: Some("param-profile".to_string()),
            region: Some("eu-west-1".to_string()),
        }
    );
}

#[test]
fn aws_answers_are_kept_for_a_minute_and_failures_are_not() {
    let mut cache = AwsCache::new();
    let key = |profile: &str| {
        aws_cache_key(&ctx_with(&[("AWS_PROFILE", profile)], &[]), "iam", "ListUsers")
    };
    keep_answer(&mut cache, key("dev"), &Err("no luck".to_string()), 5);
    assert!(recent_answer(&cache, &key("dev"), 5).is_none());
    keep_answer(&mut cache, key("dev"), &Ok(vec![provider_value("alice".to_string(), None)]), 5);
    assert_eq!(AWS_SDK_CACHE_TTL_MS, 60_000);
    let kept = recent_answer(&cache, &key("dev"), 60_004).unwrap();
    assert_eq!(texts(&kept), vec!["alice"]);
    assert!(recent_answer(&cache, &key("dev"), 60_005).is_none());
    assert!(recent_answer(&cache, &key("prod"), 6).is_none());
}

const LIST_USERS: [(&str, &str); 3] =
    [("service", "iam"), ("operation", "ListUsers"), ("field", "Users[*].UserName")];

#[test]
fn generate_surfaces_auth_errors_for_ui_diagnostics() {
    let err = aws_answer(
        &LIST_USERS,
        AwsCallEnd::Failed {
            kind: AwsSdkErrorKind::AuthMissing,
            message: "no credentials".to_string(),
        },
    )
    .unwrap_err();
    assert!(
        err.contains("AWS credentials"),
        "auth failures should become user-visible provider diagnostics: {err}"
    );
}

#[test]
fn generate_surfaces_network_errors_for_ui_diagnostics() {
    let err = aws_answer(
        &LIST_USERS,
        AwsCallEnd::Failed {
            kind: AwsSdkErrorKind::Network,
            message: "dispatch failure".to_string(),
        },
    )
    .unwrap_err();
    assert!(
        err.contains("unreachable"),
        "network failures should reach the dynamic-feedback channel: {err}"
    );
}

#[test]
fn generate_surfaces_other_errors_for_ui_diagnostics() {
    let rendered = aws_answer(
        &LIST_USERS,
        AwsCallEnd::Failed {
            kind: AwsSdkErrorKind::Other,
            message: "AccessDeniedException: not authorized".to_string(),
        },
    )
    .unwrap_err();
    assert!(
        rendered.contains("ListUsers") && rendered.contains("AccessDeniedException"),
        "other failures should include the operation and underlying message: {rendered}"
    );
}

#[test]
fn aws_requests_need_a_known_operation() {
    assert!(is_supported_operation("iam", "ListUsers"));
    assert!(!is_supported_operation("iam", "DeleteUser"));
    assert!(aws_request(&ctx_with(&[], &[("service", "iam")])).is_none());
    let asked = ctx_with(&[], &[("service", "iam"), ("operation", "DeleteUser")]);
    assert!(aws_request(&asked).is_none());
}

#[test]
fn aws_profile_and_region_fall_back_to_the_environment() {
    let ctx = ctx_with(&[("AWS_PROFILE", "work"), ("AWS_REGION", "us-east-1")], &[]);
    assert_eq!(aws_profile(&ctx).as_deref(), Some("work"));
    assert_eq!(aws_region(&ctx).as_deref(), Some("us-east-1"));
    assert_eq!(aws_profile(&ctx_with(&[], &[])), None);
}

#[test]
fn aws_failures_are_told_in_words() {
    let request = AwsRequest { service: "iam".to_string(), operation: "ListUsers".to_string() };
    let missing = failure_message(AwsSdkErrorKind::AuthMissing, &request, "m");
    let expired = failure_message(AwsSdkErrorKind::AuthExpired, &request, "m");
    assert_eq!(
        missing,
        "AWS credentials unavailable or expired; run `aws sso login` or configure AWS credentials"
    );
    assert_eq!(missing, expired);
}

#[test]
fn an_aws_call_that_takes_too_long_shows_nothing() {
    assert!(aws_answer(&LIST_USERS, AwsCallEnd::TimedOut).unwrap().is_empty());
}

#[test]
fn aws_values_are_shown_as_text() {
    assert_eq!(value_to_string(&JsonScalar::Text("a".to_string())).as_deref(), Some("a"));
    assert_eq!(value_to_string(&JsonScalar::Number("7".to_string())).as_deref(), Some("7"));
    assert_eq!(value_to_string(&JsonScalar::Bool(true)).as_deref(), Some("true"));
    assert_eq!(value_to_string(&JsonScalar::Other), None);
    let shown = suggestions_from_values(
        &vec![JsonScalar::Other, JsonScalar::Text("b".to_string())],
        &vec![JsonScalar::Text("for a".to_string()), JsonScalar::Text("for b".to_string())],
    );
    assert_eq!(texts(&shown), vec!["b"]);
    assert_eq!(shown[0].description.as_deref(), Some("for b"));
}
