//! Supervisor middlewares: configuration, chains and the built-in redaction.

use openshell::middleware::builtins::{manifest, validate_config, MiddlewareManifest};
use openshell::middleware::chain::{
    ChainRunner, ChainState, ChainStep, InProcessMiddlewareService, ReplyView,
    SupervisorMiddleware,
};
use openshell::middleware::config::{validate_builtin_config, SecretsConfig, SecretsMode};
use openshell::middleware::scripted;
use openshell::middleware::scripted::{scripted_reply, ScriptedReply};
use openshell::middleware::secrets::redact_common_secrets;
use openshell::middleware::{
    build_evaluation, is_safe_append_header, is_safe_header_value, safe_reason,
    validate_header_mutations, ChainEntry, Decision, EvaluationView, Finding, HttpRequestEvaluation,
    HttpRequestInput, HttpRequestResult, OnError, API_VERSION, BUILTIN_SECRETS,
    HTTP_REQUEST_OPERATION, PRE_CREDENTIALS_PHASE,
};
use openshell::proto_struct::{Struct, Value};

fn string_config(key: &str, value: &str) -> Struct {
    Struct { fields: vec![(key.to_string(), Value::Text(value.to_string()))] }
}

fn entry(name: &str, on_error: OnError) -> ChainEntry {
    ChainEntry {
        name: name.into(),
        implementation: BUILTIN_SECRETS.into(),
        config: string_config("secrets", "redact"),
        on_error,
    }
}

fn missing(on_error: OnError) -> ChainEntry {
    ChainEntry {
        name: "missing".into(),
        implementation: "third-party/missing".into(),
        config: Struct::default(),
        on_error,
    }
}

fn input(body: &str) -> HttpRequestInput {
    HttpRequestInput {
        request_id: "req".into(),
        sandbox_id: "sbx".into(),
        scheme: "https".into(),
        host: "api.example.com".into(),
        port: 443,
        method: "POST".into(),
        path: "/v1".into(),
        query: String::new(),
        headers: vec![],
        body: body.as_bytes().to_vec(),
    }
}

/// A middleware that gives the same result to every evaluation.
struct ScriptedService {
    result: HttpRequestResult,
}

impl SupervisorMiddleware for ScriptedService {
    fn answers(&self, _evaluation: EvaluationView, _reply: ReplyView) -> bool {
        true
    }

    fn describe(&self) -> MiddlewareManifest {
        MiddlewareManifest { api_version: String::new(), bindings: vec![] }
    }

    fn evaluate_http_request(
        &self,
        _evaluation: &HttpRequestEvaluation,
    ) -> Result<HttpRequestResult, String> {
        Ok(self.result.clone())
    }
}

fn allow_result() -> HttpRequestResult {
    HttpRequestResult {
        decision: Decision::Allow,
        reason: String::new(),
        body: Vec::new(),
        has_body: false,
        add_headers: vec![],
        findings: Vec::new(),
        metadata: vec![],
    }
}

fn unsafe_header_service() -> ScriptedService {
    ScriptedService {
        result: HttpRequestResult {
            add_headers: vec![(
                "x-openshell-middleware-inject".to_string(),
                "ok\r\nHost: evil".to_string(),
            )],
            ..allow_result()
        },
    }
}

#[test]
fn secrets_config_defaults_to_redact() {
    let config = SecretsConfig::from_struct(&Struct::default()).unwrap();
    assert_eq!(config.secrets, SecretsMode::Redact);
}

#[test]
fn secrets_config_accepts_explicit_redact() {
    let config = SecretsConfig::from_struct(&string_config("secrets", "redact")).unwrap();
    assert_eq!(config.secrets, SecretsMode::Redact);
}

#[test]
fn secrets_config_rejects_unsupported_mode() {
    let error = validate_builtin_config(BUILTIN_SECRETS, &string_config("secrets", "allow"))
        .unwrap_err();
    assert!(error.to_string().contains("supports only secrets: redact"));
}

#[test]
fn secrets_config_rejects_unknown_field() {
    let error = validate_builtin_config(BUILTIN_SECRETS, &string_config("secret", "redact"))
        .unwrap_err();
    assert!(error.to_string().contains("unknown field"));
}

#[test]
fn secrets_config_rejects_non_string_mode() {
    let config = Struct {
        fields: vec![("secrets".to_string(), Value::Number(42.0_f64.to_bits()))],
    };

    let error = validate_builtin_config(BUILTIN_SECRETS, &config).unwrap_err();
    assert!(
        error
            .to_string()
            .contains("invalid openshell/secrets config")
    );
}

#[test]
fn rejects_unknown_builtin() {
    let error = validate_builtin_config("openshell/unknown", &Struct::default())
        .unwrap_err();
    assert!(
        error
            .to_string()
            .contains("implementation 'openshell/unknown' is not available")
    );
}

#[test]
fn phase_one_evaluation_omits_originating_process() {
    let entry = entry("redact", OnError::FailClosed);
    let input = input("payload");
    let evaluation = build_evaluation(&entry, &input, &vec![], &b"payload".to_vec());

    assert!(
        evaluation
            .context
            .expect("request context")
            .originating_process
            .is_none()
    );
}

#[test]
fn redacts_common_secret_patterns() {
    let outcome = ChainRunner::default().evaluate(
        &vec![entry("redact", OnError::FailClosed)],
        input(r#"{"api_key":"sk-1234567890abcdef"}"#),
    );
    assert!(outcome.allowed);
    assert_eq!(
        String::from_utf8(outcome.body).expect("utf8"),
        r#"{"api_key":"[REDACTED]"}"#
    );
    assert_eq!(outcome.findings[0].finding.count, 1);
}

#[test]
fn transformed_body_feeds_next_stage() {
    let entries = vec![
        entry("first", OnError::FailClosed),
        entry("second", OnError::FailClosed),
    ];
    let outcome = ChainRunner::default().evaluate(&entries, input(r#"password="top-secret""#));
    assert!(outcome.allowed);
    assert_eq!(
        String::from_utf8(outcome.body).expect("utf8"),
        r#"password="[REDACTED]""#
    );
    assert_eq!(outcome.applied.len(), 2);
}

#[test]
fn fail_open_allows_unavailable_middleware() {
    let outcome =
        ChainRunner::default().evaluate(&vec![missing(OnError::FailOpen)], input("hello"));
    assert!(outcome.allowed);
    assert_eq!(outcome.body, b"hello");
}

#[test]
fn fail_closed_denies_unavailable_middleware() {
    let outcome =
        ChainRunner::default().evaluate(&vec![missing(OnError::FailClosed)], input("hello"));
    assert!(!outcome.allowed);
    assert!(outcome.reason.starts_with("middleware_failed:"));
}

#[test]
fn in_process_service_describes_builtin_binding() {
    let manifest = InProcessMiddlewareService.describe();
    assert_eq!(manifest.api_version, API_VERSION);
    assert_eq!(manifest.bindings[0].id, BUILTIN_SECRETS);
    assert_eq!(manifest.bindings[0].operation, HTTP_REQUEST_OPERATION);
    assert_eq!(manifest.bindings[0].phase, PRE_CREDENTIALS_PHASE);
}

#[test]
fn unsafe_header_mutation_is_rejected() {
    let err = validate_header_mutations(
        &vec![],
        &vec![("Authorization".into(), "Bearer nope".into())],
    )
    .expect_err("unsafe header");
    assert!(err.to_string().contains("unsafe header"));
}

#[test]
fn header_value_with_crlf_is_rejected() {
    // A safe header name with a line break in its value must still be rejected,
    // otherwise it would inject extra headers into the upstream request.
    let err = validate_header_mutations(
        &vec![],
        &vec![(
            "x-openshell-middleware-inject".into(),
            "ok\r\nAuthorization: Bearer evil".into(),
        )],
    )
    .expect_err("crlf value");
    assert!(err.to_string().contains("unsafe value"));
}

#[test]
fn deny_decision_short_circuits_chain() {
    let runner = ChainRunner::new(ScriptedService {
        result: HttpRequestResult {
            decision: Decision::Deny,
            reason: "blocked_by_policy".into(),
            ..allow_result()
        },
    });
    let outcome = runner.evaluate(
        &vec![
            entry("first", OnError::FailClosed),
            entry("second", OnError::FailClosed),
        ],
        input("hello"),
    );
    assert!(!outcome.allowed);
    assert_eq!(outcome.reason, "blocked_by_policy");
    // The deny short-circuits the chain: the second middleware never runs.
    assert_eq!(outcome.applied.len(), 1);
    assert_eq!(outcome.applied[0].decision, Decision::Deny);
    assert!(!outcome.applied[0].failed);
}

#[test]
fn metadata_and_findings_are_namespaced_per_config() {
    let runner = ChainRunner::new(ScriptedService {
        result: HttpRequestResult {
            findings: vec![Finding {
                finding_type: "pii.email".into(),
                label: "email address".into(),
                count: 2,
                confidence: "high".into(),
                severity: "medium".into(),
            }],
            metadata: vec![("sensitivity".to_string(), "high".to_string())],
            ..allow_result()
        },
    });
    let outcome = runner.evaluate(
        &vec![
            entry("alpha", OnError::FailClosed),
            entry("beta", OnError::FailClosed),
        ],
        input("hello"),
    );
    assert!(outcome.allowed);
    // Metadata is bucketed under each config's local name, so two configs
    // emitting the same key do not collide.
    let sensitivity = vec![("sensitivity".to_string(), "high".to_string())];
    assert_eq!(
        outcome.metadata,
        vec![
            ("alpha".to_string(), sensitivity.clone()),
            ("beta".to_string(), sensitivity),
        ]
    );
    // Findings are tagged with the emitting config's name.
    assert_eq!(outcome.findings.len(), 2);
    assert_eq!(outcome.findings[0].middleware, "alpha");
    assert_eq!(outcome.findings[1].middleware, "beta");
    assert_eq!(outcome.findings[0].finding.finding_type, "pii.email");
    assert_eq!(outcome.findings[0].finding.count, 2);
}

#[test]
fn malformed_response_headers_fail_closed_denies() {
    let runner = ChainRunner::new(unsafe_header_service());
    let outcome = runner.evaluate(&vec![entry("redact", OnError::FailClosed)], input("hello"));
    assert!(!outcome.allowed);
    assert!(outcome.reason.starts_with("middleware_failed:"));
    assert!(outcome.applied.iter().any(|inv| inv.failed));
    // The unsafe header is never forwarded.
    assert!(outcome.added_headers.is_empty());
}

#[test]
fn malformed_response_headers_fail_open_continues() {
    let runner = ChainRunner::new(unsafe_header_service());
    let outcome = runner.evaluate(&vec![entry("redact", OnError::FailOpen)], input("hello"));
    assert!(outcome.allowed);
    assert_eq!(outcome.body, b"hello");
    assert!(outcome.added_headers.is_empty());
    assert_eq!(outcome.applied.len(), 1);
    assert!(outcome.applied[0].failed);
}

#[test]
fn unspecified_decision_uses_fail_closed() {
    let runner = ChainRunner::new(ScriptedService {
        result: HttpRequestResult { decision: Decision::Unspecified, ..allow_result() },
    });

    let outcome = runner.evaluate(&vec![entry("redact", OnError::FailClosed)], input("hello"));

    assert!(!outcome.allowed);
    assert_eq!(
        outcome.reason,
        "middleware_failed: invalid_response_decision"
    );
    assert!(outcome.applied[0].failed);
}

#[test]
fn error_policies_are_parsed() {
    assert_eq!(OnError::parse(""), Ok(OnError::FailClosed));
    assert_eq!(OnError::parse("fail_closed"), Ok(OnError::FailClosed));
    assert_eq!(OnError::parse("fail_open"), Ok(OnError::FailOpen));
    assert!(OnError::parse("retry").is_err());
    assert!(ChainEntry::from_config("a", BUILTIN_SECRETS, None, "retry").is_err());
    let entry = ChainEntry::from_config("a", BUILTIN_SECRETS, None, "fail_open").unwrap();
    assert_eq!(entry.on_error, OnError::FailOpen);
    assert_eq!(entry.config, Struct::default());
}

#[test]
fn plain_text_is_left_alone() {
    let (text, counts) = redact_common_secrets("nothing to see");
    assert_eq!(text, "nothing to see");
    assert!(counts.is_empty());
    let (text, counts) = redact_common_secrets("token sk-1234567890abcdef here");
    assert_eq!(text, "token [REDACTED] here");
    assert_eq!(counts.len(), 1);
    assert_eq!(counts[0].0, "openai");
    assert_eq!(counts[0].1, 1);
    let (text, counts) = redact_common_secrets("token sk-1234567890abcde here");
    assert_eq!(text, "token sk-1234567890abcde here");
    assert!(counts.is_empty());
}

#[test]
fn only_prefixed_headers_are_appended() {
    assert!(is_safe_append_header("x-openshell-middleware-note"));
    assert!(!is_safe_append_header("x-openshell-credential"));
    assert!(!is_safe_append_header("cookie"));
    assert!(is_safe_header_value("plain value"));
    assert!(!is_safe_header_value("two\nlines"));
    assert_eq!(
        validate_header_mutations(
            &vec![],
            &vec![("x-openshell-middleware-note".into(), "ok".into())]
        ),
        Ok(())
    );
}

#[test]
fn reasons_are_short_and_plain() {
    assert_eq!(safe_reason("a<b>: c_d-e"), "ab: c_d-e");
    assert_eq!(safe_reason(&"x".repeat(500)).len(), 160);
}

#[test]
fn chains_can_be_run_step_by_step() {
    let request = input("hello");
    let state = ChainState::new(&request);
    let first = entry("first", OnError::FailClosed);
    assert_eq!(state.evaluation(&first, &request).body, b"hello");
    let reply = HttpRequestResult {
        body: b"changed".to_vec(),
        has_body: true,
        ..allow_result()
    };
    let ChainStep::Continue(state) = state.advance(&first, Ok(reply)) else {
        panic!("the chain goes on");
    };
    assert_eq!(state.body, b"changed");
    let ChainStep::Stop(outcome) = state.advance(&first, Err("down".to_string())) else {
        panic!("the chain stops");
    };
    assert!(!outcome.allowed);
}

#[test]
fn built_in_configuration_is_checked() {
    assert_eq!(validate_config(BUILTIN_SECRETS, &string_config("secrets", "redact")), Ok(()));
    assert!(validate_config(BUILTIN_SECRETS, &string_config("secrets", "allow")).is_err());
    assert!(validate_config("other", &Struct::default()).is_err());
    for value in [Value::Unset, Value::Null, Value::Number(0), Value::Bool(true)] {
        let config = Struct { fields: vec![("secrets".to_string(), value)] };
        assert!(validate_config(BUILTIN_SECRETS, &config).is_err());
        assert!(validate_builtin_config(BUILTIN_SECRETS, &config).is_err());
    }
    assert!(validate_config(BUILTIN_SECRETS, &string_config("secret", "redact")).is_err());
    assert_eq!(manifest().bindings.len(), 1);
}

#[test]
fn scripted_replies_follow_the_body() {
    let denied = scripted::evaluate_http_request(&br#"{"_e2e_action":"deny"}"#.to_vec());
    assert!(matches!(
        &denied,
        ScriptedReply::Answer(result) if result.decision == Decision::Deny
    ));
    assert_eq!(denied, scripted_reply(Some("deny")));
    let plain = scripted::evaluate_http_request(&b"not json".to_vec());
    assert_eq!(plain, scripted_reply(None));
    assert!(matches!(
        &plain,
        ScriptedReply::Answer(result) if result.decision == Decision::Allow
    ));
    assert_eq!(scripted::validate_config(&Struct::default()).is_ok(), true);
}

#[test]
fn the_scripted_service_describes_its_binding() {
    let manifest = scripted::describe("1.2.3");
    assert_eq!(manifest.api_version, "openshell.middleware.v1");
    assert_eq!(manifest.name, "openshell-e2e-middleware-fixture");
    assert_eq!(manifest.service_version, "1.2.3");
    assert_eq!(manifest.bindings.len(), 1);
    assert_eq!(manifest.bindings[0].id, "e2e/scripted");
    assert_eq!(manifest.bindings[0].operation, "HttpRequest");
    assert_eq!(manifest.bindings[0].phase, "pre_credentials");
    assert_eq!(manifest.bindings[0].max_body_bytes, 4096);
}
