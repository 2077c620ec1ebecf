//! Gateway messages as JSON, and reviews of gateway operations.

use openshell::adapters::config::{
    policy_merge_operation_from_json, policy_merge_operation_to_json, setting_value_from_json,
    setting_value_to_json, MergeOperation, PolicyMergeOperation, RemoveNetworkRule, SettingKind,
    SettingValue,
};
use openshell::adapters::fields::{
    json_i64, json_u64, string_array_field, string_map_field, u32_field,
};
use openshell::adapters::policy::{
    sandbox_policy_from_json, sandbox_policy_to_json, SandboxPolicy,
};
use openshell::adapters::provider::{provider_from_json, provider_to_json, Provider};
use openshell::adapters::review::{
    apply_patches_to_original, interceptor_principal, provider_patch_targets_allowed,
    request_info, review_error_to_status, review_input, review_json, settle_patched_object,
    Action, Activity, Disposition, Principal, ReviewedOperation, OP_CREATE, RESOURCE_SANDBOX,
};
use openshell::interceptors::config::{PHASE_MODIFY_OBJECT, PHASE_VALIDATE_OBJECT};
use openshell::interceptors::review::{
    InterceptorRuntime, JsonPatch, ReviewError, ReviewProgress,
};
use openshell::json::{Json, Number};
use openshell::l7_middleware::Severity;
use openshell::sidecar_control::{
    bootstrap_request, connect_process_client, connect_with_retry, decode_client_message,
    decode_server_message, entrypoint_started, first_client_line, later_client_line,
    BootstrapData, ConnectStep, ControlUpdate, Publisher, WireClientMessage, WireServerMessage,
};
use openshell::status::{Code, Status};

fn text(value: &str) -> String {
    value.to_string()
}

fn from_value(value: &serde_json::Value) -> Json {
    match value {
        serde_json::Value::Null => Json::Null,
        serde_json::Value::Bool(flag) => Json::Bool(*flag),
        serde_json::Value::Number(number) => {
            let double = number.as_f64().unwrap().to_bits();
            Json::Number(if let Some(value) = number.as_u64() {
                Number::Unsigned { value, double }
            } else if let Some(value) = number.as_i64() {
                Number::Negative { value, double }
            } else {
                Number::Double { bits: double }
            })
        }
        serde_json::Value::String(value) => Json::Text(value.clone()),
        serde_json::Value::Array(values) => Json::List(values.iter().map(from_value).collect()),
        serde_json::Value::Object(members) => Json::Object(
            members
                .iter()
                .map(|(key, value)| (key.clone(), from_value(value)))
                .collect(),
        ),
    }
}

fn json(source: &str) -> Json {
    from_value(&serde_json::from_str(source).unwrap())
}

fn members(source: &str) -> Vec<(String, Json)> {
    match json(source) {
        Json::Object(members) => members,
        _ => panic!("an object"),
    }
}

fn patch(op: &str, path: &str, from: &str, value: Option<&str>) -> JsonPatch {
    JsonPatch { op: text(op), path: text(path), from: text(from), value: value.map(text) }
}

fn operation(phase: &str) -> ReviewedOperation {
    ReviewedOperation {
        phase: text(phase),
        resource: text(RESOURCE_SANDBOX),
        operation: text(OP_CREATE),
        object: text("{}"),
        old_object: None,
        request: None,
        labels: vec![],
        compute_driver: text("docker"),
    }
}

fn bootstrap() -> BootstrapData {
    BootstrapData {
        policy_proto: vec![8, 7],
        provider_env_revision: 3,
        provider_child_env: vec![(text("GITHUB_TOKEN"), text("secret"))],
        proxy_ca_cert_path: Some(text("/tmp/ca.pem")),
        proxy_ca_bundle_path: Some(text("/tmp/bundle.pem")),
    }
}

#[test]
fn sandbox_policy_from_json_accepts_protobuf_struct_integer_floats() {
    let policy = sandbox_policy_from_json(&json(r#"{"version": 1.0, "network_policies": {}}"#))
        .expect("policy adapter should accept exact integer-valued floats");

    assert_eq!(policy.version, 1);
}

#[test]
fn json_integer_fields_reject_fractional_floats() {
    let err = json_u64(&json("1.5"), "version").expect_err("fractional value must fail");

    assert_eq!(err.code(), Code::InvalidArgument);
    assert!(err.message().contains("unsigned integer"));
}

#[test]
fn integers_are_read_from_every_number() {
    assert_eq!(json_u64(&json("7"), "n"), Ok(7));
    assert_eq!(json_u64(&json("18446744073709551615"), "n"), Ok(u64::MAX));
    assert!(json_u64(&json("-7"), "n").is_err());
    assert_eq!(json_i64(&json("-7"), "n"), Ok(-7));
    assert_eq!(json_i64(&json("-7.0"), "n"), Ok(-7));
    assert!(json_i64(&json("9223372036854775808"), "n").is_err());
    assert!(json_i64(&json("\"7\""), "n").is_err());
}

#[test]
fn fields_have_their_types() {
    let object = members(r#"{"a": ["x", "y"], "m": {"k": "v", "n": 1}, "big": 4294967296}"#);
    assert_eq!(string_array_field(&object, "a"), Ok(vec![text("x"), text("y")]));
    assert_eq!(string_array_field(&object, "absent"), Ok(vec![]));
    assert!(string_array_field(&object, "m").is_err());
    assert!(u32_field(&object, "big").is_err());
    assert_eq!(u32_field(&object, "absent"), Ok(0));
    let map = string_map_field(&object, "m");
    assert!(map.contains(&(text("k"), text("v"))));
}

#[test]
fn policies_are_read_back() {
    let source = r#"{
        "version": 2,
        "filesystem": {"include_workdir": true, "read_only": ["/usr"], "read_write": ["/tmp"]},
        "network_policies": {"api": {
            "name": "api",
            "endpoints": [{"host": "h", "port": 443, "ports": [443], "protocol": "rest"}],
            "binaries": [{"path": "/usr/bin/curl"}]
        }}
    }"#;
    let policy = sandbox_policy_from_json(&json(source)).unwrap();
    assert_eq!(policy.network_policies[0].0, "api");
    let again: SandboxPolicy = sandbox_policy_from_json(&sandbox_policy_to_json(&policy)).unwrap();
    assert_eq!(again, policy);
    assert!(sandbox_policy_from_json(&json("[]")).is_err());
    assert!(sandbox_policy_from_json(&json(r#"{"version": "x"}"#)).is_err());
}

#[test]
fn credentials_are_hidden_from_reviews() {
    let provider = || Provider {
        metadata: None,
        provider_type: text("github"),
        credentials: vec![(text("GH_TOKEN"), text("never-log-this-secret"))],
        config: vec![(text("k"), text("v"))],
        credential_expires_at_ms: vec![(text("GH_TOKEN"), 5)],
    };
    let open = provider_from_json(&provider_to_json(&provider(), false)).unwrap();
    assert_eq!(open, provider());
    let hidden = format!("{:?}", provider_to_json(&provider(), true));
    assert!(!hidden.contains("never-log-this-secret"));
    assert!(hidden.contains("GH_TOKEN"));
}

#[test]
fn setting_values_are_read_back() {
    for kind in [
        SettingKind::Text(text("a")),
        SettingKind::Flag(true),
        SettingKind::Number(-3),
        SettingKind::Bytes(vec![0, 255, 1]),
    ] {
        let value = SettingValue { value: Some(kind) };
        assert_eq!(setting_value_from_json(&setting_value_to_json(&value)), Ok(value));
    }
    let encoded = format!(
        "{:?}",
        setting_value_to_json(&SettingValue { value: Some(SettingKind::Bytes(vec![0, 255, 1])) })
    );
    assert!(encoded.contains("AP8B"), "{encoded}");
}

#[test]
fn merge_operations_are_read_back() {
    let operation = PolicyMergeOperation {
        operation: Some(MergeOperation::RemoveRule(RemoveNetworkRule { rule_name: text("r") })),
    };
    assert_eq!(
        policy_merge_operation_from_json(&policy_merge_operation_to_json(&operation)),
        Ok(operation)
    );
}

#[test]
fn callers_are_described_to_interceptors() {
    let user = Principal::User { subject: text("alice"), roles: vec![text("dev")] };
    assert_eq!(interceptor_principal(Some(&user)).groups, vec![text("dev")]);
    let sandbox = Principal::Sandbox { sandbox_id: text("sb") };
    assert_eq!(interceptor_principal(Some(&sandbox)).kind, "sandbox");
    assert_eq!(interceptor_principal(Some(&Principal::Anonymous)).kind, "anonymous");
    assert_eq!(interceptor_principal(None).kind, "anonymous");
    assert_eq!(request_info(None, Some("req-1"), "fresh").request_id, "req-1");
    assert_eq!(request_info(None, Some("  "), "fresh").request_id, "fresh");
    assert_eq!(request_info(None, None, "fresh").request_id, "fresh");
}

#[test]
fn only_two_phases_change_objects() {
    let input = |phase: &str| review_input(request_info(None, None, "id"), operation(phase));
    assert!(input(PHASE_MODIFY_OBJECT).modification_allowed);
    let checked = input(PHASE_VALIDATE_OBJECT);
    assert!(!checked.modification_allowed);
    assert_eq!(checked.context.gateway_replica_id, "openshell-gateway");
    let ReviewProgress::Done(outcome) = review_json(&InterceptorRuntime::empty(), &checked) else {
        panic!("nobody is asked");
    };
    assert_eq!(outcome.object, "{}");
}

#[test]
fn credentials_cannot_be_patched() {
    let check = |patch: JsonPatch| provider_patch_targets_allowed(&vec![patch]);
    assert_eq!(check(patch("replace", "/config/a", "", Some("1"))), Ok(()));
    assert_eq!(check(patch("add", "/credentials_note", "", Some("1"))), Ok(()));
    for path in ["/credentials", "/credentials/GH_TOKEN"] {
        let status = check(patch("replace", path, "", Some("1"))).unwrap_err();
        assert_eq!(status.code(), Code::PermissionDenied);
        assert!(status.message().contains("cannot modify"));
        let status = check(patch("copy", "/config/a", path, None)).unwrap_err();
        assert!(status.message().contains("cannot read"));
    }
}

#[test]
fn patches_change_the_original() {
    let patched =
        apply_patches_to_original("{}", &vec![patch("add", "/a", "", Some("1"))]).unwrap();
    let patched: serde_json::Value = serde_json::from_str(&patched).unwrap();
    assert_eq!(patched["a"], 1);
    let error =
        apply_patches_to_original("{}", &vec![patch("remove", "/a", "", None)]).unwrap_err();
    assert_eq!(error.code(), Code::InvalidArgument);
    assert!(error.message().starts_with("apply interceptor patches failed: "));
    assert_eq!(settle_patched_object(Ok(text("{}"))), Ok(text("{}")));
}

#[test]
fn stopped_reviews_are_reported() {
    let denied = ReviewError::Denied {
        interceptor: text("org"),
        binding: text("b"),
        phase: text("validate_object"),
        resource: text("sandbox"),
        operation: text("create"),
        status_code: Code::PermissionDenied,
        reason: text("not here"),
    };
    let (finding, status) = review_error_to_status(denied, "p", "r", "o", "c");
    assert_eq!(finding.uid, "gateway_interceptor_denial");
    assert_eq!(finding.activity, Activity::Open);
    assert_eq!(finding.action, Action::Denied);
    assert_eq!(finding.disposition, Disposition::Blocked);
    assert_eq!((finding.severity, finding.risk_level), (Severity::High, Severity::High));
    assert_eq!(
        finding.message,
        "Gateway interceptor denied sandbox.create during validate_object: not here"
    );
    assert_eq!(status.code(), Code::PermissionDenied);
    let failed = ReviewError::Failed(Status::new(Code::Unavailable, text("gone")));
    let (finding, status) = review_error_to_status(failed, "p", "r", "o", "unavailable");
    assert_eq!(finding.message, "Gateway interceptor failed r.o during p: gone");
    assert_eq!((finding.action, finding.severity), (Action::Denied, Severity::High));
    assert_eq!(finding.evidence.last(), Some(&(text("code"), text("unavailable"))));
    assert_eq!(status.message(), "gone");
}

#[test]
fn bootstrap_round_trips_policy_and_provider_env() {
    let mut request = first_client_line(Some(Ok(bootstrap_request(42)))).unwrap();
    assert_eq!(request.take().map(|anchor| anchor.pid), Some(42));
    let received = connect_process_client(Some(Ok(bootstrap().to_wire())), true).unwrap();

    assert_eq!(received.policy_proto, vec![8, 7]);
    assert_eq!(received.provider_env_revision, 3);
    assert_eq!(
        received.provider_child_env,
        vec![(text("GITHUB_TOKEN"), text("secret"))]
    );
    assert_eq!(received.proxy_ca_cert_path, Some(text("/tmp/ca.pem")));
    assert_eq!(received.proxy_ca_bundle_path, Some(text("/tmp/bundle.pem")));
}

#[test]
fn entrypoint_started_is_delivered_to_server() {
    let anchor = first_client_line(Some(Ok(bootstrap_request(7)))).unwrap().unwrap();
    assert_eq!(anchor.pid, 7);
    assert!(!anchor.start_session);

    let started = later_client_line(Ok(entrypoint_started(
        4242,
        "/run/openshell-sidecar/ssh.sock",
    )))
    .unwrap()
    .unwrap();
    assert_eq!(started.pid, 4242);
    assert_eq!(started.ssh_socket_path, "/run/openshell-sidecar/ssh.sock");
    assert!(started.start_session);
}

#[test]
fn malformed_client_message_is_rejected() {
    let decoded: Result<WireClientMessage, String> =
        serde_json::from_str::<serde_json::Value>("not-json")
            .map_err(|error| error.to_string())
            .map(|_| bootstrap_request(1));
    let err = decode_client_message(decoded).unwrap_err();
    assert!(
        err.to_string()
            .contains("failed to decode sidecar client message")
    );
    let server: Result<WireServerMessage, String> = Err(text("eof"));
    assert!(decode_server_message(server)
        .unwrap_err()
        .contains("failed to decode sidecar server message"));
}

#[test]
fn sessions_begin_with_a_bootstrap() {
    assert!(first_client_line(None).is_err());
    assert!(first_client_line(Some(Ok(entrypoint_started(1, "/s")))).is_err());
    let update = WireServerMessage::ProviderEnvUpdated {
        revision: 4,
        provider_child_env: vec![],
    };
    assert!(connect_process_client(Some(Ok(update.clone())), true).is_err());
    assert!(connect_process_client(None, true).is_err());
    assert!(connect_process_client(Some(Ok(bootstrap().to_wire())), false).is_err());
    assert_eq!(
        ControlUpdate::try_from(update, true),
        Ok(ControlUpdate::ProviderEnvUpdated { revision: 4, provider_child_env: vec![] })
    );
    assert!(ControlUpdate::try_from(bootstrap().to_wire(), true).is_err());
}

#[test]
fn published_updates_reach_later_sessions() {
    let mut publisher = Publisher { state: bootstrap() };
    let sent = publisher.publish_provider_env(9, vec![(text("A"), text("1"))]);
    assert!(matches!(
        sent,
        Some(WireServerMessage::ProviderEnvUpdated { revision: 9, .. })
    ));
    assert_eq!(publisher.state.provider_env_revision, 9);
    assert_eq!(publisher.state.provider_child_env, vec![(text("A"), text("1"))]);
    let sent = publisher.publish_policy(vec![1], text("hash"), 2);
    assert!(matches!(
        sent,
        WireServerMessage::PolicyUpdated { config_revision: 2, .. }
    ));
    assert_eq!(publisher.state.policy_proto, vec![1]);
}

#[test]
fn connections_are_tried_until_the_deadline() {
    assert_eq!(connect_with_retry("/s", 9, 10), ConnectStep::Retry);
    assert!(matches!(connect_with_retry("/s", 11, 10), ConnectStep::GiveUp(_)));
}
