//! Interceptors: endpoints, configuration, planning and reviews.

use openshell::interceptors::config::{
    check_names, configured_timeout, parse_duration, validate_manifest, BindingMatchConfig,
    BindingOverrideConfig, FailurePolicy, InterceptorBinding, InterceptorConfig,
    InterceptorConfigError, InterceptorManifest, InterceptorSelector, Timeout, API_VERSION,
    DEFAULT_MAX_PATCH_COUNT, PHASE_MODIFY_OBJECT, PHASE_POST_COMMIT, PHASE_VALIDATE_OBJECT,
};
use openshell::interceptors::endpoint::{
    endpoint_warning, warns_of_plaintext, InterceptorEndpoint, UrlParts, PLAINTEXT_WARNING,
};
use openshell::interceptors::payload::{
    json_to_proto_value, json_to_struct, proto_value_to_json, struct_to_json, toml_to_json,
    toml_value_to_struct, Toml,
};
use openshell::interceptors::planning::{plan_bindings, sort_bindings, RuntimeBinding};
use openshell::interceptors::review::{
    apply_proto_patches, handle_interceptor_failure, matches_groups, matches_labels,
    matches_string, review_reply, status_code, CallOutcome, InterceptorDecision,
    InterceptorPrincipal, InterceptorRequestContext, InterceptorRuntime, JsonPatch, ReviewError,
    ReviewInput, ReviewProgress, ReviewState,
};
use openshell::interceptors::startup::{
    describe_request, plan_service, service_settings, Description, ServiceSettings, Startup,
};
use openshell::json::{Json, Number};
use openshell::proto_struct::Value;
use openshell::status::{Code, Status};

fn text(value: &str) -> String {
    value.to_string()
}

fn config() -> InterceptorConfig {
    InterceptorConfig {
        name: "org".to_string(),
        endpoint: "grpc://127.0.0.1:9000".to_string(),
        ..Default::default()
    }
}

fn binding(id: &str, phase: &str) -> InterceptorBinding {
    InterceptorBinding {
        id: id.to_string(),
        phases: vec![phase.to_string()],
        resources: vec!["sandbox".to_string()],
        operations: vec!["create".to_string()],
        order: 0,
        modifies: false,
        default_failure_policy: String::new(),
        selector: Some(InterceptorSelector::default()),
    }
}

fn manifest(bindings: Vec<InterceptorBinding>) -> InterceptorManifest {
    InterceptorManifest { api_version: API_VERSION.to_string(), bindings }
}

fn review_input(labels: Vec<(String, String)>, driver: &str) -> ReviewInput {
    ReviewInput {
        phase: PHASE_VALIDATE_OBJECT.to_string(),
        resource: "sandbox".to_string(),
        operation: "create".to_string(),
        principal: InterceptorPrincipal {
            kind: "user".to_string(),
            subject: "alice".to_string(),
            groups: Vec::new(),
        },
        context: InterceptorRequestContext {
            request_id: "req-1".to_string(),
            gateway_replica_id: "gateway".to_string(),
            compute_driver: driver.to_string(),
            dry_run: false,
            labels,
        },
        object: "{}".to_string(),
        old_object: None,
        request: None,
        modification_allowed: false,
    }
}

fn runtime_binding(id: &str, phase: &str, policy: FailurePolicy) -> RuntimeBinding {
    let mut plan = plan_bindings(&config(), &manifest(vec![binding(id, phase)]))
        .unwrap()
        .remove(0);
    plan.failure_policy = policy;
    plan
}

fn allowed(patches: Vec<JsonPatch>) -> InterceptorDecision {
    InterceptorDecision {
        allowed: true,
        reason: String::new(),
        status_code: String::new(),
        warnings: vec![text("careful")],
        audit_annotations: vec![(text("k"), text("v"))],
        patches,
    }
}

fn patch(op: &str, path: &str, value: Option<&str>) -> JsonPatch {
    JsonPatch { op: text(op), path: text(path), from: String::new(), value: value.map(text) }
}

#[test]
fn parses_endpoints() {
    assert!(matches!(
        InterceptorEndpoint::parse("grpc://127.0.0.1:9000").unwrap(),
        InterceptorEndpoint::Grpc { tls: false, .. }
    ));
    assert!(matches!(
        InterceptorEndpoint::parse("grpcs://policy.example.com:443").unwrap(),
        InterceptorEndpoint::Grpc { tls: true, .. }
    ));
    assert!(matches!(
        InterceptorEndpoint::parse("unix:///tmp/interceptor.sock").unwrap(),
        InterceptorEndpoint::Unix { .. }
    ));
    assert!(InterceptorEndpoint::parse("http://127.0.0.1:9000").is_err());
}

#[test]
fn parses_durations() {
    assert_eq!(
        parse_duration("500ms").unwrap(),
        Timeout { seconds: 0, nanoseconds: 500_000_000 }
    );
    assert_eq!(parse_duration("2s").unwrap(), Timeout { seconds: 2, nanoseconds: 0 });
    assert_eq!(parse_duration("1m").unwrap(), Timeout { seconds: 60, nanoseconds: 0 });
    assert!(parse_duration("1hour").is_err());
}

#[test]
fn applies_json_patch() {
    let object = "{\"metadata\": {\"name\": \"demo\"}}";
    let patches = vec![JsonPatch {
        op: "replace".to_string(),
        path: "/metadata/name".to_string(),
        from: String::new(),
        value: Some("\"nvidia-demo\"".to_string()),
    }];
    let object = apply_proto_patches(object, &patches).unwrap();
    let object: serde_json::Value = serde_json::from_str(&object).unwrap();
    assert_eq!(object["metadata"]["name"], "nvidia-demo");
}

#[test]
fn override_cannot_expand_declared_resources() {
    let config = InterceptorConfig {
        name: "org".to_string(),
        endpoint: "grpc://127.0.0.1:9000".to_string(),
        overrides: vec![BindingOverrideConfig {
            binding: "b".to_string(),
            match_: BindingMatchConfig {
                resources: Some(vec!["provider".to_string()]),
                ..Default::default()
            },
            ..Default::default()
        }],
        ..Default::default()
    };
    let manifest = InterceptorManifest {
        api_version: API_VERSION.to_string(),
        bindings: vec![InterceptorBinding {
            id: "b".to_string(),
            phases: vec![PHASE_VALIDATE_OBJECT.to_string()],
            resources: vec!["sandbox".to_string()],
            operations: vec!["create".to_string()],
            order: 0,
            modifies: false,
            default_failure_policy: String::new(),
            selector: Some(InterceptorSelector::default()),
        }],
    };
    let err = plan_bindings(&config, &manifest).unwrap_err();
    assert!(matches!(
        err,
        InterceptorConfigError::OverrideExpands {
            field: "resources",
            ..
        }
    ));
}

#[test]
fn manifest_rejects_modifying_validation_binding() {
    let manifest = InterceptorManifest {
        api_version: API_VERSION.to_string(),
        bindings: vec![InterceptorBinding {
            id: "b".to_string(),
            phases: vec![PHASE_VALIDATE_OBJECT.to_string()],
            resources: vec!["sandbox".to_string()],
            operations: vec!["create".to_string()],
            order: 0,
            modifies: true,
            default_failure_policy: String::new(),
            selector: Some(InterceptorSelector::default()),
        }],
    };
    let err = validate_manifest(&config(), &manifest).unwrap_err();
    assert!(matches!(
        err,
        InterceptorConfigError::InvalidModifies { .. }
    ));
}

#[test]
fn post_commit_defaults_to_ignore() {
    let manifest = InterceptorManifest {
        api_version: API_VERSION.to_string(),
        bindings: vec![InterceptorBinding {
            id: "audit".to_string(),
            phases: vec![PHASE_POST_COMMIT.to_string()],
            resources: vec!["sandbox".to_string()],
            operations: vec!["create".to_string()],
            order: 0,
            modifies: false,
            default_failure_policy: String::new(),
            selector: Some(InterceptorSelector::default()),
        }],
    };
    let bindings = plan_bindings(&config(), &manifest).unwrap();
    assert_eq!(bindings[0].failure_policy, FailurePolicy::Ignore);
}

#[test]
fn selector_matches_driver_and_labels() {
    let manifest = InterceptorManifest {
        api_version: API_VERSION.to_string(),
        bindings: vec![InterceptorBinding {
            id: "sandbox-policy".to_string(),
            phases: vec![PHASE_VALIDATE_OBJECT.to_string()],
            resources: vec!["sandbox".to_string()],
            operations: vec!["create".to_string()],
            order: 0,
            modifies: false,
            default_failure_policy: String::new(),
            selector: Some(InterceptorSelector {
                principal_kinds: Vec::new(),
                principal_groups: Vec::new(),
                labels: vec![("team".to_string(), "platform".to_string())],
                compute_drivers: vec!["docker".to_string()],
            }),
        }],
    };
    let binding = plan_bindings(&config(), &manifest).unwrap().remove(0);
    let labels = vec![("team".to_string(), "platform".to_string())];
    let input = review_input(labels, "docker");
    assert!(binding.matches(&input));
    assert!(!binding.matches(&review_input(vec![], "docker")));
}

#[test]
fn endpoints_keep_their_authority() {
    assert_eq!(
        InterceptorEndpoint::parse("grpc://127.0.0.1:9000"),
        Ok(InterceptorEndpoint::Grpc { authority: text("127.0.0.1:9000"), tls: false })
    );
    assert_eq!(
        InterceptorEndpoint::parse("unix:///tmp/i.sock"),
        Ok(InterceptorEndpoint::Unix { path: text("/tmp/i.sock") })
    );
    assert!(matches!(
        InterceptorEndpoint::parse("not a url"),
        Err(InterceptorConfigError::InvalidEndpoint { .. })
    ));
    assert!(matches!(
        InterceptorEndpoint::parse("grpc://host-without-port"),
        Err(InterceptorConfigError::InvalidEndpoint { .. })
    ));
}

#[test]
fn unset_timeouts_are_half_a_second() {
    assert_eq!(
        configured_timeout(None),
        Ok(Timeout { seconds: 0, nanoseconds: 500_000_000 })
    );
    assert_eq!(configured_timeout(Some("3s")), Ok(Timeout { seconds: 3, nanoseconds: 0 }));
    assert_eq!(
        configured_timeout(Some("soon")),
        Err(InterceptorConfigError::InvalidTimeout { value: text("soon") })
    );
}

#[test]
fn failure_policies_are_read_back() {
    for policy in [FailurePolicy::FailClosed, FailurePolicy::FailOpen, FailurePolicy::Ignore] {
        assert_eq!(FailurePolicy::parse(policy.as_str()), Ok(policy));
    }
    assert_eq!(
        FailurePolicy::parse("never"),
        Err(InterceptorConfigError::InvalidFailurePolicy { value: text("never") })
    );
}

#[test]
fn services_need_distinct_names_and_endpoints() {
    assert_eq!(check_names(&vec![config()]), Ok(()));
    assert_eq!(
        check_names(&vec![config(), config()]),
        Err(InterceptorConfigError::DuplicateName { name: text("org") })
    );
    let nameless = InterceptorConfig { name: text(" "), ..config() };
    assert_eq!(check_names(&vec![nameless]), Err(InterceptorConfigError::MissingName));
    let unreachable = InterceptorConfig { endpoint: String::new(), ..config() };
    assert_eq!(
        check_names(&vec![unreachable]),
        Err(InterceptorConfigError::MissingEndpoint { name: text("org") })
    );
}

#[test]
fn manifest_problems_are_told_apart() {
    let check = |manifest: InterceptorManifest| validate_manifest(&config(), &manifest);
    let good = || binding("b", PHASE_VALIDATE_OBJECT);
    assert_eq!(check(manifest(vec![good()])), Ok(()));
    assert!(matches!(
        check(InterceptorManifest { api_version: text("v0"), bindings: vec![good()] }),
        Err(InterceptorConfigError::UnsupportedApiVersion { .. })
    ));
    assert!(matches!(
        check(manifest(vec![good(), good()])),
        Err(InterceptorConfigError::DuplicateBinding { .. })
    ));
    let mut unnamed = good();
    unnamed.id = String::new();
    assert!(matches!(
        check(manifest(vec![unnamed])),
        Err(InterceptorConfigError::MissingBindingId { .. })
    ));
    let mut idle = good();
    idle.phases.clear();
    assert!(matches!(
        check(manifest(vec![idle])),
        Err(InterceptorConfigError::MissingPhases { .. })
    ));
    let mut strange = good();
    strange.phases = vec![text("dusk")];
    assert!(matches!(
        check(manifest(vec![strange])),
        Err(InterceptorConfigError::UnknownPhase { .. })
    ));
    let mut careless = good();
    careless.default_failure_policy = text("ignore");
    assert!(matches!(
        plan_bindings(&config(), &manifest(vec![careless])),
        Err(InterceptorConfigError::InvalidIgnorePolicy { .. })
    ));
}

#[test]
fn unknown_overrides_and_disabled_bindings() {
    let unknown = InterceptorConfig {
        overrides: vec![BindingOverrideConfig { binding: text("x"), ..Default::default() }],
        ..config()
    };
    let declared = manifest(vec![binding("b", PHASE_VALIDATE_OBJECT)]);
    assert!(matches!(
        validate_manifest(&unknown, &declared),
        Err(InterceptorConfigError::UnknownOverrideBinding { .. })
    ));
    let disabled = InterceptorConfig {
        overrides: vec![BindingOverrideConfig {
            binding: text("b"),
            enabled: Some(false),
            ..Default::default()
        }],
        ..config()
    };
    assert_eq!(plan_bindings(&disabled, &declared), Ok(vec![]));
}

#[test]
fn plans_are_in_order_of_service_and_binding() {
    let mut late = runtime_binding("late", PHASE_VALIDATE_OBJECT, FailurePolicy::FailClosed);
    late.service_order = 2;
    let mut early = runtime_binding("early", PHASE_VALIDATE_OBJECT, FailurePolicy::FailClosed);
    early.service_order = 1;
    let sorted = sort_bindings(vec![late, early]);
    let order: Vec<&str> = sorted.iter().map(|plan| plan.binding_id.as_str()).collect();
    assert_eq!(order, vec!["early", "late"]);
}

#[test]
fn selectors_accept_all_when_empty() {
    assert!(matches_string(&vec![], "anything"));
    assert!(!matches_string(&vec![text("a")], "b"));
    assert!(matches_groups(&vec![], &vec![]));
    assert!(!matches_groups(&vec![text("a")], &vec![text("b")]));
    assert!(matches_labels(&vec![], &vec![]));
    assert!(!matches_labels(&vec![(text("a"), text("1"))], &vec![(text("a"), text("2"))]));
}

#[test]
fn patch_failures_are_reported() {
    let missing = vec![patch("replace", "/nothing", Some("1"))];
    assert!(apply_proto_patches("{}", &missing).is_err());
    let unknown = vec![patch("burn", "/a", None)];
    assert!(apply_proto_patches("{}", &unknown).is_err());
    let none = apply_proto_patches("{\"b\":1,\"a\":2}", &vec![]).unwrap();
    let none: serde_json::Value = serde_json::from_str(&none).unwrap();
    assert_eq!(none["b"], 1);
}

#[test]
fn calls_end_as_decisions_or_statuses() {
    assert_eq!(
        review_reply(CallOutcome::TimedOut).unwrap_err().code(),
        Code::DeadlineExceeded
    );
    let status = Status::new(Code::Unavailable, text("gone"));
    assert_eq!(
        review_reply(CallOutcome::Refused(status)),
        Err(Status::new(Code::Unavailable, text("interceptor review failed: gone")))
    );
    let decision = allowed(vec![]);
    assert_eq!(review_reply(CallOutcome::Answered(decision.clone())), Ok(decision));
    assert_eq!(status_code("INVALID_ARGUMENT"), status_code("invalid_argument"));
}

#[test]
fn failures_stop_only_where_the_policy_is_closed() {
    let state = ReviewState {
        next: 1,
        object: text("{}"),
        applied_patches: vec![],
        warnings: vec![],
        audit_annotations: vec![],
    };
    let failure = Status::new(Code::Unavailable, text("gone"));
    for policy in [FailurePolicy::FailOpen, FailurePolicy::Ignore] {
        let open = runtime_binding("b", PHASE_VALIDATE_OBJECT, policy);
        let after = handle_interceptor_failure(&open, state.clone(), failure.clone()).unwrap();
        assert_eq!(after.object, "{}");
    }
    let closed = runtime_binding("b", PHASE_VALIDATE_OBJECT, FailurePolicy::FailClosed);
    assert!(matches!(
        handle_interceptor_failure(&closed, state, failure),
        Err(ReviewError::Failed(_))
    ));
}

#[test]
fn reviews_go_from_binding_to_binding() {
    let mut input = review_input(vec![], "docker");
    input.phase = text(PHASE_MODIFY_OBJECT);
    input.modification_allowed = true;
    let plans = vec![
        runtime_binding("first", PHASE_MODIFY_OBJECT, FailurePolicy::FailClosed),
        runtime_binding("second", PHASE_MODIFY_OBJECT, FailurePolicy::FailClosed),
    ];
    let runtime = InterceptorRuntime::from_plans(vec![text("org")], plans);
    assert_eq!(runtime.max_patch_count, DEFAULT_MAX_PATCH_COUNT);
    let ReviewProgress::Waiting { binding, review, state } = runtime.review(&input) else {
        panic!("the first binding is asked");
    };
    assert_eq!(review.binding_id, "first");
    let reply = Ok(allowed(vec![patch("add", "/name", Some("\"demo\""))]));
    let ReviewProgress::Waiting { binding, review, state } =
        runtime.resume(&input, binding, state, reply)
    else {
        panic!("the second binding is asked");
    };
    assert_eq!(review.binding_id, "second");
    let seen: serde_json::Value = serde_json::from_str(&review.object).unwrap();
    assert_eq!(seen["name"], "demo");
    let ReviewProgress::Done(outcome) =
        runtime.resume(&input, binding, state, Ok(allowed(vec![])))
    else {
        panic!("the review is over");
    };
    assert_eq!(outcome.applied_patches.len(), 1);
    assert_eq!(outcome.warnings.len(), 2);
}

#[test]
fn denials_end_a_review() {
    let input = review_input(vec![], "docker");
    let plan = runtime_binding("b", PHASE_VALIDATE_OBJECT, FailurePolicy::FailOpen);
    let runtime = InterceptorRuntime::from_plans(vec![text("org")], vec![plan]);
    let ReviewProgress::Waiting { binding, state, .. } = runtime.review(&input) else {
        panic!("the binding is asked");
    };
    let mut denial = allowed(vec![]);
    denial.allowed = false;
    denial.reason = text("not here");
    let ReviewProgress::Stopped(error) =
        runtime.resume(&input, binding, state.clone(), Ok(denial))
    else {
        panic!("the review is over");
    };
    let status = error.into_status();
    assert!(status.message().contains("not here"));

    let patched = Ok(allowed(vec![patch("add", "/a", Some("1"))]));
    let progress = runtime.resume(&input, binding, state, patched);
    let ReviewProgress::Done(outcome) = progress else {
        panic!("a binding that fails open is passed over");
    };
    assert_eq!(outcome.object, "{}");
    assert!(outcome.applied_patches.is_empty());
}

#[test]
fn an_empty_runtime_asks_nobody() {
    let runtime = InterceptorRuntime::empty();
    assert!(runtime.is_empty());
    let ReviewProgress::Done(outcome) = runtime.review(&review_input(vec![], "docker")) else {
        panic!("nobody is asked");
    };
    assert_eq!(outcome.object, "{}");
}

#[test]
fn configuration_tables_become_messages() {
    let table = Toml::Table(vec![
        (text("limit"), Toml::Integer { value: 2, double: 2.0_f64.to_bits() }),
        (text("since"), Toml::Datetime(text("2024-01-01"))),
    ]);
    let json = toml_to_json(&table);
    assert!(matches!(
        &json,
        Json::Object(members) if members.len() == 2
            && matches!(&members[0].1, Json::Number(Number::Unsigned { value: 2, .. }))
    ));
    assert!(toml_value_to_struct(&table).is_ok());
    assert!(toml_value_to_struct(&Toml::Bool(true)).is_err());
}

#[test]
fn configuration_errors_are_described() {
    let error = InterceptorConfigError::InvalidTimeout { value: text("soon") };
    assert!(error.message().contains("soon"));
}

#[test]
fn payloads_survive_their_protobuf_form() {
    let json = || {
        Json::Object(vec![
            (text("a"), Json::List(vec![Json::Bool(true), Json::Null])),
            (text("b"), Json::Text(text("x"))),
        ])
    };
    let form = json_to_struct(&json()).unwrap();
    assert_eq!(struct_to_json(&form), json());
    assert!(json_to_struct(&Json::Null).is_err());
    assert_eq!(json_to_proto_value(&Json::Null), Ok(Value::Null));
    assert_eq!(proto_value_to_json(&Value::Text(text("x"))), Json::Text(text("x")));
}

#[test]
fn interceptors_start_one_after_the_other() {
    let second = InterceptorConfig {
        name: text("late"),
        endpoint: text("unix:///run/late.sock"),
        order: -1,
        timeout: Some(text("2s")),
        config: Toml::Table(vec![(text("mode"), Toml::Text(text("strict")))]),
        ..Default::default()
    };
    let configs = vec![config(), second];
    let Startup::Connect { config: 0, settings } =
        InterceptorRuntime::from_config(&configs, &vec![], false)
    else {
        panic!("the first service is connected to");
    };
    assert_eq!(settings.timeout, Timeout { seconds: 0, nanoseconds: 500_000_000 });
    let Startup::Describe { config: 0, request, .. } =
        InterceptorRuntime::from_config(&configs, &vec![], true)
    else {
        panic!("the first service is asked");
    };
    assert_eq!(request.api_version, API_VERSION);
    assert_eq!(request.interceptor_name, "org");
    assert!(request.config.fields.is_empty());

    let first = Description::Answered(manifest(vec![binding("a", PHASE_VALIDATE_OBJECT)]));
    let Startup::Connect { config: 1, settings } =
        InterceptorRuntime::from_config(&configs, &vec![first.clone()], false)
    else {
        panic!("the second service is connected to");
    };
    assert_eq!(
        settings,
        ServiceSettings {
            endpoint: InterceptorEndpoint::Unix { path: text("/run/late.sock") },
            timeout: Timeout { seconds: 2, nanoseconds: 0 },
        }
    );
    let Startup::Describe { request, .. } =
        InterceptorRuntime::from_config(&configs, &vec![first.clone()], true)
    else {
        panic!("the second service is asked");
    };
    assert_eq!(request.config.fields.len(), 1);
    assert_eq!(request.config.fields[0].0, "mode");

    let other = Description::Answered(manifest(vec![binding("b", PHASE_VALIDATE_OBJECT)]));
    let Startup::Ready(runtime) =
        InterceptorRuntime::from_config(&configs, &vec![first, other], false)
    else {
        panic!("every service is described");
    };
    assert_eq!(runtime.services, vec![text("org"), text("late")]);
    let order: Vec<&str> =
        runtime.bindings.iter().map(|plan| plan.interceptor_name.as_str()).collect();
    assert_eq!(order, vec!["late", "org"]);
}

#[test]
fn nothing_configured_is_ready() {
    assert_eq!(
        InterceptorRuntime::from_config(&vec![], &vec![], false),
        Startup::Ready(InterceptorRuntime::empty())
    );
}

#[test]
fn failed_starts_name_their_service() {
    let failed = |message: &str| InterceptorConfigError::DescribeFailed {
        interceptor: text("org"),
        message: text(message),
    };
    let start = |description: Description| {
        InterceptorRuntime::from_config(&vec![config()], &vec![description], false)
    };
    assert_eq!(
        start(Description::Unreachable(text("refused"))),
        Startup::Failed(failed("refused"))
    );
    assert_eq!(start(Description::TimedOut), Startup::Failed(failed("deadline exceeded")));
    assert_eq!(start(Description::Refused(text("gone"))), Startup::Failed(failed("gone")));
    let strange = InterceptorManifest { api_version: text("v0"), bindings: vec![] };
    assert!(matches!(
        start(Description::Answered(strange)),
        Startup::Failed(InterceptorConfigError::UnsupportedApiVersion { .. })
    ));

    let bare = InterceptorConfig { config: Toml::Bool(true), ..config() };
    let no_table = InterceptorConfigError::ConfigMustBeTable { interceptor: text("org") };
    assert_eq!(describe_request(&bare), Err(no_table.clone()));
    assert_eq!(plan_service(&bare, &Description::TimedOut), Err(no_table.clone()));
    let unreachable = Description::Unreachable(text("refused"));
    assert_eq!(plan_service(&bare, &unreachable), Err(failed("refused")));
    assert_eq!(
        InterceptorRuntime::from_config(&vec![bare], &vec![], true),
        Startup::Failed(no_table)
    );

    let slow = InterceptorConfig { timeout: Some(text("soon")), ..config() };
    assert!(matches!(
        service_settings(&slow),
        Err(InterceptorConfigError::InvalidTimeout { .. })
    ));
    let twice = vec![config(), config()];
    assert_eq!(
        InterceptorRuntime::from_config(&twice, &vec![], false),
        Startup::Failed(InterceptorConfigError::DuplicateName { name: text("org") })
    );
}

#[test]
fn channels_are_opened_by_url() {
    let url = |raw: &str| InterceptorEndpoint::parse(raw).unwrap().channel_url();
    assert_eq!(url("grpc://127.0.0.1:9000"), Some(text("http://127.0.0.1:9000")));
    assert_eq!(
        url("grpcs://policy.example.com:443"),
        Some(text("https://policy.example.com:443"))
    );
    assert_eq!(url("unix:///tmp/interceptor.sock"), None);
}

#[test]
fn failing_moves_are_errors() {
    let moved = JsonPatch { from: text("/x"), ..patch("move", "/nope/y", None) };
    let patches = vec![patch("add", "/x", Some("5")), moved];
    assert!(apply_proto_patches("{}", &patches).is_err());
}

#[test]
fn values_of_patches_are_single_json_values() {
    let smuggled = vec![patch("add", "/a", Some("1,\"path\":\"/b\""))];
    assert!(apply_proto_patches("{}", &smuggled).is_err());
    let two = vec![patch("add", "/a", Some("1},{\"op\":\"add\",\"path\":\"/b\",\"value\":2"))];
    assert!(apply_proto_patches("{}", &two).is_err());
    let spaced = vec![patch("add", "/a", Some(" { \"b\" : [ 1 ] } "))];
    assert_eq!(apply_proto_patches("{}", &spaced), Ok(text("{\"a\":{\"b\":[1]}}")));
}

#[test]
fn paths_are_written_as_json_strings() {
    let name = "q\"b\\s\u{8}\u{c}\n\r\t\u{1}\u{1f}\u{e9}";
    let patches = vec![patch("add", &format!("/{name}"), Some("1"))];
    let object = apply_proto_patches("{}", &patches).unwrap();
    let object: serde_json::Value = serde_json::from_str(&object).unwrap();
    assert_eq!(object[name], 1);
}

#[test]
fn applied_patches_replay_to_the_reviewed_object() {
    let mut input = review_input(vec![], "docker");
    input.phase = text(PHASE_MODIFY_OBJECT);
    input.modification_allowed = true;
    input.object = text("{\"rate\": 7.2e-1, \"old\": 1}");
    let plans = vec![
        runtime_binding("first", PHASE_MODIFY_OBJECT, FailurePolicy::FailOpen),
        runtime_binding("second", PHASE_MODIFY_OBJECT, FailurePolicy::FailOpen),
        runtime_binding("third", PHASE_MODIFY_OBJECT, FailurePolicy::FailOpen),
    ];
    let runtime = InterceptorRuntime::from_plans(vec![text("org")], plans);
    let replies = [
        vec![patch("add", "/name", Some("\"demo\""))],
        vec![patch("remove", "/nothing", None)],
        vec![patch("remove", "/old", None)],
    ];
    let mut progress = runtime.review(&input);
    for reply in replies {
        let ReviewProgress::Waiting { binding, state, .. } = progress else {
            panic!("every binding is asked");
        };
        progress = runtime.resume(&input, binding, state, Ok(allowed(reply)));
    }
    let ReviewProgress::Done(outcome) = progress else {
        panic!("the review is over");
    };
    assert_eq!(outcome.applied_patches.len(), 2);
    let replayed = apply_proto_patches(&input.object, &outcome.applied_patches);
    assert_eq!(replayed, Ok(outcome.object));
}

fn warns_of(scheme: &str, host: &str) -> bool {
    warns_of_plaintext(&UrlParts {
        scheme: text(scheme),
        host: Some(text(host)),
        port: Some(9000),
        path: String::new(),
    })
}

#[test]
fn plaintext_endpoints_are_warned_of_unless_local() {
    assert!(warns_of("grpc", "policy.example.com"));
    assert!(!warns_of("grpcs", "policy.example.com"));
    for host in ["localhost", "LocalHost", "127.0.0.1", "127.255.0.9"] {
        assert!(!warns_of("grpc", host), "{host}");
    }
    for host in [
        "",
        "localhost.",
        "128.0.0.1",
        "0127.0.0.1",
        "127.0.0.256",
        "127.0.0.01",
        "127.0.0",
        "127.0.0.",
        "127.0.0.1.1",
    ] {
        assert!(warns_of("grpc", host), "{host}");
    }
    for host in [
        "::1",
        "0::1",
        "0000::0001",
        "0:0:0:0:0:0:0:1",
        "::0:1",
        "0:0:0:0:0:0::1",
        "::0.0.0.1",
        "0:0:0:0:0:0:0.0.0.1",
        "::0:0:0:0:0:0:1",
    ] {
        assert!(!warns_of("grpc", host), "{host}");
    }
    for host in [
        "::",
        "1",
        ":1",
        "::2",
        "::1:0",
        "1::1",
        "0:::1",
        "::0::1",
        "00000::1",
        "0:0:0:0:0:0:1",
        "0:0:0:0:0:0:0:0:1",
        "0:0:0:0:0:0:0::1",
        "::0:0:0:0:0:0:0:1",
        "[::1]",
        "::127.0.0.1",
        "::1%eth0",
    ] {
        assert!(warns_of("grpc", host), "{host}");
    }
    let silent =
        UrlParts { scheme: text("grpc"), host: None, port: None, path: String::new() };
    assert!(!warns_of_plaintext(&silent));
}

#[test]
fn warnings_are_of_endpoints_that_are_accepted() {
    assert_eq!(endpoint_warning("grpc://policy.example.com:9000"), Some(text(PLAINTEXT_WARNING)));
    assert_eq!(endpoint_warning("grpc://127.0.0.1:9000"), None);
    assert_eq!(endpoint_warning("grpcs://policy.example.com:443"), None);
    assert_eq!(endpoint_warning("grpc://policy.example.com"), None);
    assert_eq!(endpoint_warning("unix:///tmp/interceptor.sock"), None);
    assert_eq!(endpoint_warning("no url"), None);
}
