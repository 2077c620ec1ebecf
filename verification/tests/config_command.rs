//! Editing of gateway configuration files.

use openshell::config_command::{
    detected_driver_name, split_assignment, Assignment, ComputeDriverKind, Update,
};

const SCHEMA_VERSION: u32 = 1;

fn settings(assignments: &[&str]) -> Vec<Assignment> {
    assignments
        .iter()
        .map(|assignment| Assignment::from_str(assignment).unwrap())
        .collect()
}

fn edit(original: &str, assignments: &[&str]) -> Result<String, String> {
    openshell::config_command::edit("gateway.toml", original, &settings(assignments), SCHEMA_VERSION)
}

/// Updates a file whose edited text the schema gives a verdict on.
fn update(original: &str, assignments: &[&str], validated: Result<(), String>) -> Update {
    let before = Some(original.to_string());
    openshell::config_command::set(before, edit(original, assignments), validated)
}

fn load(text: &str) -> toml::Table {
    text.parse().unwrap()
}

fn gateway(table: &toml::Table) -> &toml::Table {
    table["openshell"]["gateway"].as_table().unwrap()
}

fn strings(value: &toml::Value) -> Vec<&str> {
    value
        .as_array()
        .unwrap()
        .iter()
        .map(|item| item.as_str().unwrap())
        .collect()
}

#[test]
fn detect_driver_output_is_machine_readable() {
    assert_eq!(
        detected_driver_name(Some(ComputeDriverKind::Podman)),
        "podman"
    );
    assert_eq!(
        detected_driver_name(Some(ComputeDriverKind::Docker)),
        "docker"
    );
    assert_eq!(detected_driver_name(None), "none");
}

#[test]
fn set_creates_config_with_driver_and_bind_address() {
    let written = edit(
        "",
        &[
            "openshell.gateway.compute_drivers=[\"podman\"]",
            "openshell.gateway.bind_address=0.0.0.0:17670",
        ],
    )
    .unwrap();

    let loaded = load(&written);
    assert_eq!(
        loaded["openshell"]["version"].as_integer(),
        Some(i64::from(SCHEMA_VERSION))
    );
    assert_eq!(strings(&gateway(&loaded)["compute_drivers"]), vec!["podman"]);
    assert_eq!(gateway(&loaded)["bind_address"].as_str(), Some("0.0.0.0:17670"));
}

#[test]
fn set_preserves_comments_and_unrelated_settings() {
    let updated = edit(
        "# keep this comment\n[openshell]\nversion = 1\n\n[openshell.gateway]\nlog_level = \"debug\"\ncompute_drivers = [\"docker\"]\n",
        &["openshell.gateway.compute_drivers=[\"podman\"]"],
    )
    .unwrap();

    assert!(updated.contains("# keep this comment"));
    assert!(updated.contains("log_level = \"debug\""));
    let loaded = load(&updated);
    assert_eq!(strings(&gateway(&loaded)["compute_drivers"]), vec!["podman"]);
}

#[test]
fn empty_driver_array_enables_auto_detection_without_changing_bind_address() {
    let updated = edit(
        "[openshell]\nversion = 1\n\n[openshell.gateway]\nbind_address = \"0.0.0.0:17670\"\ncompute_drivers = [\"podman\"]\n",
        &["openshell.gateway.compute_drivers=[]"],
    )
    .unwrap();

    let loaded = load(&updated);
    assert!(strings(&gateway(&loaded)["compute_drivers"]).is_empty());
    assert_eq!(gateway(&loaded)["bind_address"].as_str(), Some("0.0.0.0:17670"));
}

#[test]
fn invalid_existing_config_is_not_replaced() {
    let original = "[openshell\ninvalid";

    let after = update(
        original,
        &["openshell.gateway.compute_drivers=[\"docker\"]"],
        Ok(()),
    );

    let error = after.result.unwrap_err();
    assert!(error.to_string().contains("failed to parse gateway config"));
    assert_eq!(after.content.as_deref(), Some(original));
}

#[test]
fn schema_validation_failure_is_not_written() {
    let original = "[openshell]\nversion = 999\n";
    let rendered = edit(original, &["openshell.gateway.compute_drivers=[\"docker\"]"]).unwrap();
    assert_eq!(load(&rendered)["openshell"]["version"].as_integer(), Some(999));

    let after = update(
        original,
        &["openshell.gateway.compute_drivers=[\"docker\"]"],
        Err("unsupported gateway config version 999".to_string()),
    );

    let error = after.result.unwrap_err();
    assert!(error.contains("unsupported gateway config version"));
    assert_eq!(after.content.as_deref(), Some(original));
}

#[test]
fn unknown_key_is_not_written() {
    let original = "[openshell]\nversion = 1\n";

    let after = update(
        original,
        &["openshell.gateway.unknown_setting=value"],
        Err("unknown field `unknown_setting`".to_string()),
    );

    let error = after.result.unwrap_err();
    assert!(error.contains("unknown field"));
    assert_eq!(after.content.as_deref(), Some(original));
}

#[test]
fn repeated_assignments_are_atomic_when_validation_fails() {
    let original = "[openshell]\nversion = 1\n\n[openshell.gateway]\nlog_level = \"info\"\n";

    let after = update(
        original,
        &[
            "openshell.gateway.log_level=debug",
            "openshell.gateway.unknown_setting=value",
        ],
        Err("unknown field `unknown_setting`".to_string()),
    );

    let error = after.result.unwrap_err();
    assert!(error.contains("unknown field"));
    assert_eq!(after.content.as_deref(), Some(original));
}

#[test]
fn valid_updates_are_written() {
    let after = update("", &["openshell.gateway.log_level=debug"], Ok(()));
    assert_eq!(after.result, Ok(()));
    let written = after.content.unwrap();
    assert_eq!(gateway(&load(&written))["log_level"].as_str(), Some("debug"));
}

#[test]
fn assignment_values_support_toml_types_and_unquoted_strings() {
    let written = edit(
        "",
        &[
            "openshell.gateway.log_level=debug",
            "openshell.gateway.grpc_rate_limit_requests=42",
            "openshell.gateway.enable_loopback_service_http=false",
            "openshell.gateway.server_sans=[\"gateway.example.com\", \"*.example.com\"]",
            "openshell.drivers.vm.vcpus=4",
        ],
    )
    .unwrap();

    let loaded = load(&written);
    let gateway = gateway(&loaded);
    assert_eq!(gateway["log_level"].as_str(), Some("debug"));
    assert_eq!(gateway["grpc_rate_limit_requests"].as_integer(), Some(42));
    assert_eq!(gateway["enable_loopback_service_http"].as_bool(), Some(false));
    assert_eq!(
        strings(&gateway["server_sans"]),
        vec!["gateway.example.com", "*.example.com"]
    );
    assert_eq!(
        loaded["openshell"]["drivers"]["vm"]
            .get("vcpus")
            .and_then(toml::Value::as_integer),
        Some(4)
    );
}

#[test]
fn later_assignment_to_the_same_key_wins() {
    let written = edit(
        "",
        &[
            "openshell.gateway.log_level=info",
            "openshell.gateway.log_level=debug",
        ],
    )
    .unwrap();

    let loaded = load(&written);
    assert_eq!(gateway(&loaded)["log_level"].as_str(), Some("debug"));
}

#[test]
fn assignment_requires_key_value_syntax_and_bare_dotted_keys() {
    let missing_value = Assignment::from_str("openshell.gateway.log_level")
        .err()
        .unwrap();
    assert!(missing_value.contains("KEY=VALUE"));

    let invalid_key = Assignment::from_str("openshell.gateway.bad key=value")
        .err()
        .unwrap();
    assert!(invalid_key.contains("dot-separated TOML bare keys"));
}

#[test]
fn tables_stand_in_the_way_of_values() {
    let error = edit(
        "[openshell]\nversion = 1\ngateway = 3\n",
        &["openshell.gateway.log_level=debug"],
    )
    .unwrap_err();
    assert!(error.contains("gateway"), "{error}");
}

#[test]
fn assignments_are_taken_apart_at_the_first_sign() {
    assert_eq!(
        split_assignment("a.b=c=d"),
        Ok((vec!["a".to_string(), "b".to_string()], "c=d".to_string()))
    );
    assert!(split_assignment("=x").is_err());
    assert!(split_assignment("a..b=x").is_err());
}

#[test]
fn values_that_are_no_toml_are_texts() {
    let written = edit("", &["openshell.name=hello \"world\""]).unwrap();
    assert_eq!(
        load(&written)["openshell"]["name"].as_str(),
        Some("hello \"world\"")
    );
}

#[test]
fn comments_of_what_is_not_assigned_are_kept() {
    let updated = edit(
        "# first\n[openshell] # header\nversion = 1\n\n# section\n[openshell.gateway]\n# level\nlog_level = 'debug' # quiet\ncompute_drivers = [\"docker\"] # gone\n# last\n",
        &["openshell.gateway.compute_drivers=[\"podman\"]", "openshell.drivers.podman.a=0x1F"],
    )
    .unwrap();

    for kept in
        ["# first\n", " # header", "\n# section\n", "# level\n", "'debug'", " # quiet", "# last\n", "0x1F"]
    {
        assert!(updated.contains(kept), "{kept}");
    }
    assert!(!updated.contains("docker"));
}
