//! Middlewares on requests, and the part of a policy that attaches them.

use openshell::json::{Json, Number};
use openshell::l7_middleware::{
    apply_outcome, middleware_chain_body_limit, middleware_events, middleware_network_input,
    middleware_request_input, plan_chain, raw_query_from_request_headers,
    resolve_unbuffered_body, safe_middleware_headers, ChainPlan, DescribedChainEntry,
    L7EvalContext, L7Request, MiddlewareApplyResult, MiddlewareEvent, Severity,
};
use openshell::middleware::chain::{ChainOutcome, MiddlewareInvocation, NamespacedFinding};
use openshell::middleware::{Decision, Finding, OnError};
use openshell::policy_middleware::{
    from_proto, into_proto, validate, validate_json, HostFacts, MiddlewareEndpointSelector,
    MiddlewareValidationPolicyDef, NetworkEndpoint, NetworkMiddlewareConfig,
    NetworkMiddlewareConfigDef, NetworkPolicyRule, PolicyViolation, SandboxPolicy,
    ValidationError,
};
use openshell::proto_struct::{Struct, Value};

fn text(value: &str) -> String {
    value.to_string()
}

fn context() -> L7EvalContext {
    L7EvalContext {
        host: text("api.example.com"),
        port: 443,
        policy_name: text("api"),
        binary_path: text("/usr/bin/curl"),
        ancestors: vec![text("/bin/sh")],
        cmdline_paths: vec![],
    }
}

fn request() -> L7Request {
    L7Request { action: text("POST"), target: text("/v1") }
}

fn described(resolved: bool, max_body_bytes: usize, on_error: OnError) -> DescribedChainEntry {
    DescribedChainEntry { resolved, max_body_bytes, on_error }
}

fn invocation(decision: Decision, failed: bool) -> MiddlewareInvocation {
    MiddlewareInvocation {
        name: text("redact"),
        implementation: text("openshell/secrets"),
        decision,
        transformed: false,
        failed,
    }
}

fn outcome(allowed: bool, reason: &str, applied: Vec<MiddlewareInvocation>) -> ChainOutcome {
    ChainOutcome {
        allowed,
        reason: text(reason),
        body: vec![],
        added_headers: vec![],
        findings: vec![],
        metadata: vec![],
        applied,
    }
}

fn middleware(name: &str) -> NetworkMiddlewareConfig {
    NetworkMiddlewareConfig {
        name: text(name),
        middleware: text("openshell/secrets"),
        order: 0,
        config: None,
        on_error: String::new(),
        endpoints: Some(MiddlewareEndpointSelector {
            included: vec![text("*.example.com")],
            excluded: vec![],
        }),
    }
}

fn policy(middlewares: Vec<NetworkMiddlewareConfig>) -> SandboxPolicy {
    SandboxPolicy {
        network_middlewares: middlewares,
        network_policies: vec![(
            text("api"),
            NetworkPolicyRule {
                name: String::new(),
                endpoints: vec![NetworkEndpoint { host: text("api.example.com"), tls: text("skip") }],
            },
        )],
    }
}

fn no_facts(count: usize) -> HostFacts {
    HostFacts { invalid: vec![], overlaps: vec![vec![]; count] }
}

#[test]
fn the_smallest_limit_of_resolved_entries_counts() {
    let chain = [
        described(true, 4096, OnError::FailOpen),
        described(false, 0, OnError::FailOpen),
        described(true, 1024, OnError::FailClosed),
    ];
    assert_eq!(middleware_chain_body_limit(&chain), Some(1024));
    assert_eq!(plan_chain(&chain), ChainPlan::Buffer(1024));
    assert_eq!(middleware_chain_body_limit(&chain[1..2]), None);
    assert_eq!(plan_chain(&chain[1..2]), ChainPlan::EvaluateWithoutBody);
    assert_eq!(plan_chain(&[]), ChainPlan::Forward);
}

#[test]
fn unbuffered_bodies_pass_only_where_all_fail_open() {
    let open = [described(true, 1, OnError::FailOpen), described(false, 0, OnError::FailOpen)];
    let mixed = [described(true, 1, OnError::FailOpen), described(true, 1, OnError::FailClosed)];
    let decide = |chain: &[DescribedChainEntry], recoverable: bool| {
        resolve_unbuffered_body(&context(), request(), chain, recoverable).0
    };
    assert!(matches!(decide(&open, true), MiddlewareApplyResult::Allowed(_)));
    for (chain, recoverable) in [(&open, false), (&mixed, true), (&mixed, false)] {
        let MiddlewareApplyResult::Denied(reason) = decide(chain, recoverable) else {
            panic!("the request is denied");
        };
        assert_eq!(reason, "middleware_failed: request_body_over_capacity");
    }
}

#[test]
fn queries_are_taken_from_the_request_line() {
    let query = |head: &str| raw_query_from_request_headers(&head.as_bytes().to_vec());
    assert_eq!(query("GET /a?b=c?d HTTP/1.1\r\nHost: h\r\n"), Ok(text("b=c?d")));
    assert_eq!(query("GET /a HTTP/1.1\r\n"), Ok(String::new()));
    assert_eq!(query("GET"), Err(text("HTTP request line is missing a target")));
    assert_eq!(
        raw_query_from_request_headers(&vec![0xff]),
        Err(text("HTTP headers contain invalid UTF-8"))
    );
}

#[test]
fn credentials_are_kept_from_middlewares() {
    let head = "POST / HTTP/1.1\r\nHost: h\r\nAuthorization: Bearer x\r\nX-Amz-Date: d\r\n\
                X-OpenShell-Credential-Id: 1\r\nAccept:  a:b \r\naccept: last\r\nB: 1\r\nnoise\r\n";
    assert_eq!(
        safe_middleware_headers(&head.as_bytes().to_vec()),
        Ok(vec![(text("accept"), text("last")), (text("b"), text("1"))])
    );
    assert!(safe_middleware_headers(&vec![0xff]).is_err());
}

#[test]
fn requests_are_described_to_middlewares() {
    let input = middleware_request_input(
        "id",
        "sandbox",
        "https",
        &request(),
        &context(),
        vec![],
        text("q=1"),
        b"body".to_vec(),
    );
    assert_eq!(input.host, "api.example.com");
    assert_eq!(input.method, "POST");
    assert_eq!(input.path, "/v1");
    assert_eq!(input.query, "q=1");
    let network = middleware_network_input(&context());
    assert_eq!(network.binary_path, "/usr/bin/curl");
    assert_eq!(network.ancestors, vec![text("/bin/sh")]);
    assert_eq!(network.binary_sha256, "");
}

#[test]
fn outcomes_decide_what_is_forwarded() {
    assert!(matches!(
        apply_outcome(&outcome(true, "", vec![]), 7_u8),
        MiddlewareApplyResult::Allowed(7)
    ));
    assert!(matches!(
        apply_outcome(&outcome(false, "no", vec![]), 7_u8),
        MiddlewareApplyResult::Denied(reason) if reason == "no"
    ));
}

#[test]
fn bypassed_failures_are_findings() {
    let result = outcome(true, "", vec![invocation(Decision::Allow, true)]);
    let events = middleware_events(&context(), &request(), &result);
    assert_eq!(events.len(), 2);
    assert!(matches!(
        &events[0],
        MiddlewareEvent::HttpActivity { allowed: true, severity: Severity::Informational, message, .. }
            if message == "MIDDLEWARE redact openshell/secrets decision=Allow"
    ));
    assert!(matches!(
        &events[1],
        MiddlewareEvent::DetectionFinding { severity: Severity::Medium, message, .. }
            if message == "Middleware redact failed and was bypassed (fail_open)"
    ));
}

#[test]
fn required_failures_are_severe() {
    let mut result = outcome(
        false,
        "middleware_failed: timeout",
        vec![invocation(Decision::Deny, true)],
    );
    result.findings = vec![NamespacedFinding {
        middleware: text("redact"),
        finding: Finding {
            finding_type: text("pii"),
            label: text("PII"),
            count: 3,
            confidence: text("high"),
            severity: text("low"),
        },
    }];
    let events = middleware_events(&context(), &request(), &result);
    assert_eq!(events.len(), 3);
    assert!(matches!(
        &events[0],
        MiddlewareEvent::HttpActivity { allowed: false, failure_detail: Some(detail), .. }
            if detail == "middleware_failed: timeout"
    ));
    assert!(matches!(
        &events[1],
        MiddlewareEvent::DetectionFinding { severity: Severity::High, title, .. }
            if title == "Supervisor middleware failure"
    ));
    assert!(matches!(
        &events[2],
        MiddlewareEvent::DetectionFinding { severity: Severity::Low, message, .. }
            if message == "Middleware finding pii count=3"
    ));
}

#[test]
fn definitions_survive_their_protobuf_form() {
    let definition = || NetworkMiddlewareConfigDef {
        name: text("a"),
        middleware: text("m"),
        order: 3,
        config: vec![(
            text("limit"),
            Json::Number(Number::Double { bits: 2.5_f64.to_bits() }),
        )],
        on_error: text("fail_open"),
        endpoints: None,
    };
    let proto = into_proto(&vec![definition()]).unwrap();
    assert_eq!(from_proto(&proto), vec![definition()]);
}

#[test]
fn valid_middlewares_have_no_violations() {
    let valid = policy(vec![middleware("a")]);
    assert_eq!(validate(&valid, &no_facts(1)), vec![]);
}

#[test]
fn each_violation_is_reported() {
    let invalid = |name: &str, reason: &str| PolicyViolation::InvalidMiddlewareConfig {
        name: text(name),
        reason: text(reason),
    };
    let check = |middleware: NetworkMiddlewareConfig| {
        validate(&policy(vec![middleware]), &no_facts(1))
    };
    let mut nameless = middleware("");
    nameless.on_error = text("retry");
    assert_eq!(
        check(nameless),
        vec![invalid("", "name must not be empty"), invalid("", "invalid on_error 'retry'")]
    );
    let mut empty = middleware("a");
    empty.middleware = String::new();
    assert_eq!(check(empty), vec![invalid("a", "implementation must not be empty")]);
    let mut unknown = middleware("a");
    unknown.middleware = text("openshell/other");
    assert_eq!(check(unknown), vec![invalid("a", "unsupported built-in 'openshell/other'")]);
    let mut everywhere = middleware("a");
    everywhere.endpoints = None;
    assert_eq!(check(everywhere), vec![invalid("a", "endpoint selector is required")]);
    let mut nowhere = middleware("a");
    nowhere.endpoints =
        Some(MiddlewareEndpointSelector { included: vec![], excluded: vec![] });
    assert_eq!(
        check(nowhere),
        vec![invalid("a", "endpoint selector must include at least one host pattern")]
    );
}

#[test]
fn names_are_distinct() {
    let twice = policy(vec![middleware("a"), middleware("a")]);
    assert_eq!(
        validate(&twice, &no_facts(2)),
        vec![PolicyViolation::DuplicateMiddlewareConfigName { name: text("a") }]
    );
}

#[test]
fn host_patterns_and_configurations_are_checked() {
    let mut strange = middleware("a");
    strange.config = Some(Struct { fields: vec![(text("secret"), Value::Bool(true))] });
    let bad = policy(vec![strange]);
    let facts = HostFacts {
        invalid: vec![(text("*.example.com"), text("bad"))],
        overlaps: vec![vec![text("api.example.com")]],
    };
    assert_eq!(
        validate(&bad, &facts),
        vec![
            PolicyViolation::InvalidMiddlewareConfig {
                name: text("a"),
                reason: text("endpoint selector pattern '*.example.com' is invalid: bad"),
            },
            PolicyViolation::InvalidBuiltinMiddlewareConfig {
                name: text("a"),
                reason: text(
                    "invalid openshell/secrets config: unknown field `secret`, expected \
                     `secrets`; phase 1 supports only secrets: redact",
                ),
            },
        ]
    );
}

#[test]
fn middlewares_cannot_read_skipped_tls() {
    let facts = HostFacts { invalid: vec![], overlaps: vec![vec![text("api.example.com")]] };
    assert_eq!(
        validate(&policy(vec![middleware("a")]), &facts),
        vec![PolicyViolation::MiddlewareTlsSkipConflict {
            middleware_name: text("a"),
            policy_name: text("api"),
            host: text("api.example.com"),
        }]
    );
}

#[test]
fn documents_are_validated_like_messages() {
    assert_eq!(
        validate_json(Err(text("eof")), &no_facts(0)),
        Err(ValidationError::Parse(text("failed to parse network middleware policy: eof")))
    );
    let definition = |config: Vec<(String, Json)>| MiddlewareValidationPolicyDef {
        network_middlewares: vec![NetworkMiddlewareConfigDef {
            name: text("a"),
            middleware: text("openshell/secrets"),
            order: 0,
            config,
            on_error: String::new(),
            endpoints: None,
        }],
        network_policies: vec![],
    };
    assert_eq!(
        validate_json(Ok(definition(vec![])), &no_facts(1)),
        Ok(vec![PolicyViolation::InvalidMiddlewareConfig {
            name: text("a"),
            reason: text("endpoint selector is required"),
        }])
    );
    let infinite = Json::Number(Number::Double { bits: f64::INFINITY.to_bits() });
    assert!(matches!(
        validate_json(Ok(definition(vec![(text("k"), infinite)])), &no_facts(1)),
        Err(ValidationError::Convert(_))
    ));
}
