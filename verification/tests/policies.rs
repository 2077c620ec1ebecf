//! Policies: reading, containment and admission.

use openshell::managed_policy::{
    admit_candidate, decide_admission, decide_create, decide_proposal, refuse, AdmissionChecks,
    AdmissionDecision, AdmissionSource,
    ManagedBoundary, ManagedPolicyConfig, PermissionMode,
};
use openshell::managed_settings::requests::{
    handle_delete_managed_maximum_policy, handle_get_managed_maximum_policy,
    handle_set_managed_maximum_policy,
};
use openshell::managed_settings::{
    check_document, decide_managed_authority, decision_message, load_managed_policy_config,
    managed_admission_audit, managed_config_audit, parse_effective_policy,
    parse_stored_config, permission_mode_for_sandbox, policy_hash, require_applied,
    require_managed_storage, require_no_sandboxes, resolve_create_permission_mode, stored_text,
    GlobalSettings, ManagedAuthorityRequest, ManagedMaximumPolicyResponse, StoredSettingValue,
    MANAGED_MAXIMUM_SETTING_KEY,
};
use openshell::prover::envelope::{
    can_check, check_within_auto_eligible_maximum, check_within_maximum, conclude,
    MaximumPolicyCheck, PolicyCounterexample,
};
use openshell::prover::policy::{
    parse_policy_str, BinaryDef, EndpointDef, FilesystemDef, L7AllowDef, L7DenyRuleDef, L7RuleDef,
    ManagedPolicyMetadataDef, NetworkPolicyRuleDef, PolicyFile, PolicyModel, ReviewRequirementDef,
};
use openshell::prover::solver::Answer;
use openshell::status::{Code, Status};
use serde_yml::Value;

// ---------------------------------------------------------------------------
// Policy documents
// ---------------------------------------------------------------------------

fn string(value: &Value, key: &str) -> String {
    value.get(key).and_then(Value::as_str).unwrap_or_default().to_string()
}

fn strings(value: &Value, key: &str) -> Vec<String> {
    items(value, key)
        .iter()
        .map(|item| item.as_str().unwrap().to_string())
        .collect()
}

fn items<'a>(value: &'a Value, key: &str) -> &'a [Value] {
    value
        .get(key)
        .and_then(Value::as_sequence)
        .map_or(&[], |sequence| sequence.as_slice())
}

fn number(value: &Value, key: &str) -> u64 {
    value.get(key).and_then(Value::as_u64).unwrap_or_default()
}

fn flag(value: &Value, key: &str) -> bool {
    value.get(key).and_then(Value::as_bool).unwrap_or_default()
}

fn others(value: &Value, known: &[&str]) -> Vec<String> {
    let mut names: Vec<String> = value
        .as_mapping()
        .unwrap()
        .iter()
        .map(|(key, _)| key.as_str().unwrap().to_string())
        .filter(|key| !known.contains(&key.as_str()))
        .collect();
    names.sort();
    names
}

fn review(value: &Value) -> Option<ReviewRequirementDef> {
    value.get("review").map(|review| ReviewRequirementDef {
        required: flag(review, "required"),
        reason: string(review, "reason"),
        extra: others(review, &["required", "reason"]),
    })
}

fn allow_rule(value: &Value) -> L7RuleDef {
    let allow = value.get("allow").unwrap();
    L7RuleDef {
        allow: L7AllowDef {
            method: string(allow, "method"),
            path: string(allow, "path"),
            command: string(allow, "command"),
            review: review(allow),
            extra: others(allow, &["method", "path", "command", "review"]),
        },
        extra: others(value, &["allow"]),
    }
}

fn deny_rule(value: &Value) -> L7DenyRuleDef {
    L7DenyRuleDef {
        method: string(value, "method"),
        path: string(value, "path"),
        command: string(value, "command"),
        extra: others(value, &["method", "path", "command"]),
    }
}

fn endpoint(value: &Value) -> EndpointDef {
    EndpointDef {
        host: string(value, "host"),
        path: string(value, "path"),
        port: number(value, "port") as u16,
        ports: items(value, "ports")
            .iter()
            .map(|port| port.as_u64().unwrap() as u16)
            .collect(),
        protocol: string(value, "protocol"),
        tls: string(value, "tls"),
        enforcement: string(value, "enforcement"),
        access: string(value, "access"),
        rules: items(value, "rules").iter().map(allow_rule).collect(),
        allowed_ips: strings(value, "allowed_ips"),
        deny_rules: items(value, "deny_rules").iter().map(deny_rule).collect(),
        review: review(value),
        extra: others(
            value,
            &[
                "host", "path", "port", "ports", "protocol", "tls", "enforcement", "access",
                "rules", "allowed_ips", "deny_rules", "review",
            ],
        ),
    }
}

fn network_rule(value: &Value) -> NetworkPolicyRuleDef {
    NetworkPolicyRuleDef {
        name: value.get("name").and_then(Value::as_str).map(str::to_string),
        endpoints: items(value, "endpoints").iter().map(endpoint).collect(),
        binaries: items(value, "binaries")
            .iter()
            .map(|binary| BinaryDef {
                path: string(binary, "path"),
                extra: others(binary, &["path"]),
            })
            .collect(),
        extra: others(value, &["name", "endpoints", "binaries"]),
    }
}

fn read(yaml: &str) -> Result<PolicyFile, String> {
    let value: Value = serde_yml::from_str(yaml).map_err(|error| error.to_string())?;
    let mut network_policies = value.get("network_policies").map(|policies| {
        policies
            .as_mapping()
            .unwrap()
            .iter()
            .map(|(name, rule)| (name.as_str().unwrap().to_string(), network_rule(rule)))
            .collect::<Vec<_>>()
    });
    if let Some(policies) = &mut network_policies {
        policies.sort_by(|left, right| left.0.cmp(&right.0));
    }
    Ok(PolicyFile {
        version: value.get("version").and_then(Value::as_u64).map(|version| version as u32),
        metadata: value.get("metadata").map(|metadata| ManagedPolicyMetadataDef {
            policy_id: string(metadata, "policy_id"),
            version: number(metadata, "version"),
            allowed_modes: strings(metadata, "allowed_modes"),
            default_mode: string(metadata, "default_mode"),
            audit_label: string(metadata, "audit_label"),
            extra: others(
                metadata,
                &["policy_id", "version", "allowed_modes", "default_mode", "audit_label"],
            ),
        }),
        filesystem_policy: value.get("filesystem_policy").map(|files| FilesystemDef {
            include_workdir: flag(files, "include_workdir"),
            read_only: strings(files, "read_only"),
            read_write: strings(files, "read_write"),
            extra: others(files, &["include_workdir", "read_only", "read_write"]),
        }),
        network_policies,
        extra: others(
            &value,
            &[
                "version", "metadata", "filesystem_policy", "network_policies", "landlock",
                "process",
            ],
        ),
    })
}

fn document(yaml: &str) -> PolicyModel {
    parse_policy_str(read(yaml)).expect("policy should parse")
}

// ---------------------------------------------------------------------------
// Containment
// ---------------------------------------------------------------------------

fn policy(endpoint: &str) -> PolicyModel {
    document(&format!(
        r"version: 1
network_policies:
  test:
    endpoints:
{endpoint}
    binaries:
      - path: /usr/bin/gh
"
    ))
}

fn filesystem(read_only: &str, read_write: &str) -> PolicyModel {
    document(&format!(
        r"version: 1
filesystem_policy:
  include_workdir: false
  read_only: [{read_only}]
  read_write: [{read_write}]
"
    ))
}

fn rest(rules: &str) -> PolicyModel {
    policy(&format!(
        r"      - host: api.github.com
        port: 443
        protocol: rest
        enforcement: enforce
        rules:
{rules}"
    ))
}

#[test]
fn policy_is_contained_by_itself() {
    let value = rest("          - allow: { method: GET, path: /repos/** }");
    assert_eq!(
        check_within_maximum(&value, &value),
        MaximumPolicyCheck::WithinMax
    );
}

#[test]
fn filesystem_paths_are_contained_by_parent_authority() {
    let maximum = filesystem("/usr", "/sandbox, /tmp");
    let candidate = filesystem("/usr/bin", "/sandbox/project");
    assert_eq!(
        check_within_maximum(&maximum, &candidate),
        MaximumPolicyCheck::WithinMax
    );
}

#[test]
fn filesystem_write_cannot_use_read_only_maximum() {
    let maximum = filesystem("/usr", "/sandbox");
    let candidate = filesystem("", "/usr/bin");
    let MaximumPolicyCheck::ExceedsMax { counterexample } =
        check_within_maximum(&maximum, &candidate)
    else {
        panic!("write under read-only maximum should fail");
    };
    assert_eq!(counterexample.protocol, "filesystem");
    assert_eq!(counterexample.method, "write");
}

#[test]
fn narrower_rest_path_is_contained() {
    let maximum = rest("          - allow: { method: GET, path: /repos/** }");
    let candidate = rest("          - allow: { method: GET, path: /repos/NVIDIA/OpenShell }");
    assert_eq!(
        check_within_maximum(&maximum, &candidate),
        MaximumPolicyCheck::WithinMax
    );
}

#[test]
fn broader_rest_path_returns_counterexample() {
    let maximum = rest("          - allow: { method: GET, path: /repos/NVIDIA/** }");
    let candidate = rest("          - allow: { method: GET, path: /repos/** }");
    let MaximumPolicyCheck::ExceedsMax { counterexample } =
        check_within_maximum(&maximum, &candidate)
    else {
        panic!("broader path should exceed maximum");
    };
    assert_eq!(counterexample.protocol, "rest");
    assert_eq!(counterexample.method, "GET");
}

#[test]
fn l4_maximum_covers_rest_but_rest_does_not_cover_l4() {
    let l4 = policy("      - host: api.github.com\n        port: 443");
    let rest = rest("          - allow: { method: GET, path: /repos/** }");
    assert_eq!(
        check_within_maximum(&l4, &rest),
        MaximumPolicyCheck::WithinMax
    );
    assert!(matches!(
        check_within_maximum(&rest, &l4),
        MaximumPolicyCheck::ExceedsMax { .. }
    ));
}

#[test]
fn explicit_deny_removes_authority() {
    let maximum = rest(
        "          - allow: { method: \"*\", path: /** }\n        deny_rules:\n          - { method: DELETE, path: /** }",
    );
    let candidate =
        rest("          - allow: { method: DELETE, path: /repos/NVIDIA/OpenShell }");
    assert!(matches!(
        check_within_maximum(&maximum, &candidate),
        MaximumPolicyCheck::ExceedsMax { .. }
    ));
}

#[test]
fn full_rest_access_contains_extension_methods() {
    let maximum = policy(
        "      - host: api.github.com\n        port: 443\n        protocol: rest\n        enforcement: enforce\n        access: full",
    );
    let candidate = rest("          - allow: { method: PROPFIND, path: /repos/acme }");
    assert_eq!(
        check_within_maximum(&maximum, &candidate),
        MaximumPolicyCheck::WithinMax
    );
}

#[test]
fn finite_method_rules_do_not_contain_wildcard_authority() {
    let maximum = rest(
        "          - allow: { method: GET, path: /** }\n          - allow: { method: HEAD, path: /** }\n          - allow: { method: OPTIONS, path: /** }\n          - allow: { method: POST, path: /** }\n          - allow: { method: PUT, path: /** }\n          - allow: { method: PATCH, path: /** }\n          - allow: { method: DELETE, path: /** }",
    );
    let candidate = rest("          - allow: { method: \"*\", path: /** }");
    let MaximumPolicyCheck::ExceedsMax { counterexample } =
        check_within_maximum(&maximum, &candidate)
    else {
        panic!("finite method rules must not contain wildcard authority");
    };
    assert!(!counterexample.method.is_empty());
    assert!(
        !["GET", "HEAD", "OPTIONS", "POST", "PUT", "PATCH", "DELETE"]
            .contains(&counterexample.method.as_str())
    );
}

#[test]
fn wildcard_deny_blocks_extension_methods() {
    let maximum = policy(
        "      - host: api.github.com\n        port: 443\n        protocol: rest\n        enforcement: enforce\n        access: full\n        deny_rules:\n          - { method: \"*\", path: /private/** }",
    );
    let candidate = rest("          - allow: { method: PROPFIND, path: /private/data }");
    assert!(matches!(
        check_within_maximum(&maximum, &candidate),
        MaximumPolicyCheck::ExceedsMax { .. }
    ));
}

#[test]
fn review_required_region_is_not_auto_eligible() {
    let maximum = rest(
        "          - allow:\n              method: POST\n              path: /repos/*/pulls\n              review: { required: true }",
    );
    let delta = rest("          - allow: { method: POST, path: /repos/acme/pulls }");
    assert_eq!(
        check_within_maximum(&maximum, &delta),
        MaximumPolicyCheck::WithinMax
    );
    assert!(matches!(
        check_within_auto_eligible_maximum(&maximum, &delta),
        MaximumPolicyCheck::ExceedsMax { .. }
    ));
}

#[test]
fn endpoint_path_scopes_rest_authority() {
    let maximum = policy(
        "      - host: api.github.com\n        port: 443\n        path: /repos/NVIDIA/**\n        protocol: rest\n        enforcement: enforce\n        access: full",
    );
    let candidate = rest("          - allow: { method: GET, path: /repos/** }");
    assert!(matches!(
        check_within_maximum(&maximum, &candidate),
        MaximumPolicyCheck::ExceedsMax { .. }
    ));
}

#[test]
fn graphql_and_mcp_fail_closed_in_initial_scope() {
    for protocol in ["graphql", "mcp"] {
        let value = policy(&format!(
            "      - host: api.example.com\n        port: 443\n        protocol: {protocol}\n        enforcement: enforce\n        rules:\n          - allow: {{ operation_type: query }}"
        ));
        assert!(matches!(
            check_within_maximum(&value, &value),
            MaximumPolicyCheck::Unsupported { reason }
                if reason.contains("only L4 and REST")
        ));
    }
}

#[test]
fn rest_query_matchers_fail_closed() {
    let value =
        rest("          - allow: { method: GET, path: /repos/**, query: { page: \"*\" } }");
    assert!(matches!(
        check_within_maximum(&value, &value),
        MaximumPolicyCheck::Unsupported { .. }
    ));
}

#[test]
fn unknown_authority_surfaces_fail_closed() {
    let value = document("version: 1\nnetwork_policies: {}\nfuture_authority: { allow: all }\n");
    assert!(matches!(
        check_within_maximum(&value, &value),
        MaximumPolicyCheck::Unsupported { reason }
            if reason.contains("future_authority")
    ));
}

// ---------------------------------------------------------------------------
// Admission
// ---------------------------------------------------------------------------

fn github(rule: &str) -> PolicyModel {
    document(&format!(
        r"version: 1
network_policies:
  github:
    endpoints:
      - host: api.github.com
        port: 443
        protocol: rest
        enforcement: enforce
        rules:
{rule}
    binaries:
      - path: /usr/bin/gh
"
    ))
}

fn boundary(maximum: &PolicyModel) -> ManagedBoundary<'_> {
    ManagedBoundary {
        id: "engineering",
        version: 7,
        maximum,
        allowed_modes: &[PermissionMode::Ask, PermissionMode::Auto],
    }
}

#[test]
fn managed_document_parses_policy_and_metadata_together() {
    let config = ManagedPolicyConfig::parse(read(
        r"version: 1
metadata:
  policy_id: engineering
  version: 3
  allowed_modes: [ask, auto]
  default_mode: auto
  audit_label: corp-dev
network_policies:
  github:
    endpoints:
      - host: api.github.com
        port: 443
        protocol: rest
        enforcement: enforce
        access: read-only
    binaries:
      - path: /usr/bin/gh
",
    ))
    .expect("managed document should parse");
    assert_eq!(config.id, "engineering");
    assert_eq!(config.version, 3);
    assert_eq!(config.default_mode, PermissionMode::Auto);
    assert_eq!(config.audit_label, "corp-dev");
    assert_eq!(config.boundary().allowed_modes.len(), 2);
}

#[test]
fn managed_document_rejects_default_mode_outside_allowed_modes() {
    let error = ManagedPolicyConfig::parse(read(
        r"version: 1
metadata:
  policy_id: engineering
  version: 1
  allowed_modes: [ask]
  default_mode: auto
",
    ))
    .err()
    .expect("invalid default should fail");
    assert!(error.contains("default_mode"));
}

#[test]
fn absent_boundary_preserves_unmanaged_behavior() {
    let candidate = github("          - allow: { method: GET, path: /repos/** }");
    assert_eq!(
        admit_candidate(
            None,
            PermissionMode::Auto,
            AdmissionSource::AgentProposal,
            None,
            &candidate,
            &candidate,
        ),
        AdmissionDecision::Unmanaged
    );
}

#[test]
fn outside_maximum_rejects_before_mode_logic() {
    let maximum = github("          - allow: { method: GET, path: /repos/acme/** }");
    let candidate = github("          - allow: { method: DELETE, path: /repos/acme/project }");
    assert!(matches!(
        admit_candidate(
            Some(&boundary(&maximum)),
            PermissionMode::Ask,
            AdmissionSource::AgentProposal,
            None,
            &candidate,
            &candidate,
        ),
        AdmissionDecision::Reject {
            counterexample: Some(_),
            ..
        }
    ));
}

#[test]
fn ask_mode_holds_in_maximum_agent_grant() {
    let maximum = github("          - allow: { method: GET, path: /repos/** }");
    let candidate = github("          - allow: { method: GET, path: /repos/acme/project }");
    assert!(matches!(
        admit_candidate(
            Some(&boundary(&maximum)),
            PermissionMode::Ask,
            AdmissionSource::AgentProposal,
            None,
            &candidate,
            &candidate,
        ),
        AdmissionDecision::Ask { .. }
    ));
}

#[test]
fn auto_mode_applies_auto_eligible_agent_grant() {
    let maximum = github("          - allow: { method: GET, path: /repos/** }");
    let candidate = github("          - allow: { method: GET, path: /repos/acme/project }");
    assert_eq!(
        admit_candidate(
            Some(&boundary(&maximum)),
            PermissionMode::Auto,
            AdmissionSource::AgentProposal,
            None,
            &candidate,
            &candidate,
        ),
        AdmissionDecision::Apply
    );
}

#[test]
fn review_required_agent_grant_asks_in_auto_mode() {
    let maximum = github(
        "          - allow:\n              method: POST\n              path: /repos/*/pulls\n              review: { required: true }",
    );
    let candidate = github("          - allow: { method: POST, path: /repos/acme/pulls }");
    assert!(matches!(
        admit_candidate(
            Some(&boundary(&maximum)),
            PermissionMode::Auto,
            AdmissionSource::AgentProposal,
            None,
            &candidate,
            &candidate,
        ),
        AdmissionDecision::Ask {
            counterexample: Some(_),
            ..
        }
    ));
}

#[test]
fn review_required_starting_authority_rejects() {
    let maximum = github(
        "          - allow:\n              method: POST\n              path: /repos/*/pulls\n              review: { required: true }",
    );
    let candidate = github("          - allow: { method: POST, path: /repos/acme/pulls }");
    assert!(matches!(
        admit_candidate(
            Some(&boundary(&maximum)),
            PermissionMode::Auto,
            AdmissionSource::SandboxCreate,
            None,
            &candidate,
            &candidate,
        ),
        AdmissionDecision::Reject { .. }
    ));
}

#[test]
fn direct_authenticated_edit_is_approval_of_exact_request() {
    let maximum = github(
        "          - allow:\n              method: POST\n              path: /repos/*/pulls\n              review: { required: true }",
    );
    let candidate = github("          - allow: { method: POST, path: /repos/acme/pulls }");
    assert_eq!(
        admit_candidate(
            Some(&boundary(&maximum)),
            PermissionMode::Ask,
            AdmissionSource::DirectAuthenticated,
            None,
            &candidate,
            &candidate,
        ),
        AdmissionDecision::Apply
    );
}

#[test]
fn removal_applies_without_asking() {
    let current = github("          - allow: { method: GET, path: /repos/** }");
    let candidate = github("          - allow: { method: GET, path: /repos/acme/** }");
    assert_eq!(
        admit_candidate(
            Some(&boundary(&current)),
            PermissionMode::Ask,
            AdmissionSource::AgentProposal,
            Some(&current),
            &candidate,
            &candidate,
        ),
        AdmissionDecision::Apply
    );
}

// ---------------------------------------------------------------------------
// More on containment and admission
// ---------------------------------------------------------------------------

fn example() -> PolicyCounterexample {
    PolicyCounterexample {
        binary: "/usr/bin/gh".to_string(),
        host: "api.github.com".to_string(),
        port: 443,
        protocol: "rest".to_string(),
        method: "GET".to_string(),
        path: "/x".to_string(),
        reason: "why".to_string(),
    }
}

fn exceeds() -> MaximumPolicyCheck {
    MaximumPolicyCheck::ExceedsMax { counterexample: Box::new(example()) }
}

fn unsupported() -> MaximumPolicyCheck {
    MaximumPolicyCheck::Unsupported { reason: "strange".to_string() }
}

#[test]
fn a_rest_maximum_for_github_is_supported() {
    let config = ManagedPolicyConfig::parse(read(
        r"version: 1
metadata:
  policy_id: github-read-auto-write-review
  version: 1
  allowed_modes: [ask, auto]
  default_mode: ask
network_policies:
  github:
    endpoints:
      - host: api.github.com
        port: 443
        protocol: rest
        enforcement: enforce
        rules:
          - allow: { method: GET, path: /** }
          - allow:
              method: POST
              path: /repos/*/*/pulls
              review: { required: true, reason: people decide }
    binaries:
      - path: /usr/bin/gh
      - path: /usr/bin/curl
",
    ))
    .expect("the document should be supported");
    assert_eq!(config.id, "github-read-auto-write-review");
    let decide = |rule: &str| {
        let candidate = github(rule);
        admit_candidate(
            Some(&config.boundary()),
            PermissionMode::Auto,
            AdmissionSource::AgentProposal,
            None,
            &candidate,
            &candidate,
        )
    };
    assert_eq!(
        decide("          - allow: { method: GET, path: /repos/acme/project }"),
        AdmissionDecision::Apply
    );
    assert!(matches!(
        decide("          - allow: { method: POST, path: /repos/acme/project/pulls }"),
        AdmissionDecision::Ask { .. }
    ));
    assert!(matches!(
        decide("          - allow: { method: DELETE, path: /repos/acme/project }"),
        AdmissionDecision::Reject { .. }
    ));
}

#[test]
fn containment_is_transitive() {
    let wide = rest("          - allow: { method: GET, path: /** }");
    let middle = rest("          - allow: { method: GET, path: /repos/** }");
    let narrow = rest("          - allow: { method: GET, path: /repos/acme/* }");
    for (maximum, candidate) in [(&wide, &middle), (&middle, &narrow), (&wide, &narrow)] {
        assert_eq!(
            check_within_maximum(maximum, candidate),
            MaximumPolicyCheck::WithinMax
        );
    }
    assert!(matches!(
        check_within_maximum(&narrow, &wide),
        MaximumPolicyCheck::ExceedsMax { .. }
    ));
}

/// A method is in upper case when the solver reads it, so that it holds no escape.
#[test]
fn backslashes_are_no_escapes() {
    let escaped = rest(r"          - allow: { method: 'A\u{41}B', path: /a }");
    let plain = rest("          - allow: { method: AAB, path: /a }");
    assert_eq!(check_within_maximum(&escaped, &escaped), MaximumPolicyCheck::WithinMax);
    let MaximumPolicyCheck::ExceedsMax { counterexample } = check_within_maximum(&plain, &escaped)
    else {
        panic!("expected a counterexample");
    };
    assert_eq!(counterexample.method, r"A\U{41}B");
}

/// The solver takes a character beyond ASCII for codes beyond its alphabet, and finds
/// nothing to object to in a policy that the maximum does not cover. So nothing is
/// promised of such texts.
#[test]
fn the_solver_is_not_relied_on_beyond_ascii() {
    let maximum = rest("          - allow: { method: \u{c9}, path: /a }");
    let candidate = rest("          - allow: { method: GET, path: /a }");
    assert_eq!(check_within_maximum(&maximum, &candidate), MaximumPolicyCheck::WithinMax);
}

#[test]
fn policies_with_nul_reach_the_solver_never() {
    let policy = rest("          - allow: { method: GET, path: /a }");
    let mut with_nul = rest("          - allow: { method: GET, path: /a }");
    with_nul.network_policies[0].1.endpoints[0].path.push('\0');
    assert!(can_check(&policy, &policy));
    assert!(!can_check(&policy, &with_nul));
    assert!(!can_check(&with_nul, &policy));
    with_nul.network_policies[0].1.endpoints[0].protocol = "mcp".to_string();
    assert!(can_check(&policy, &with_nul));
}

#[test]
fn decisions_follow_from_check_results() {
    let maximum = github("          - allow: { method: GET, path: /** }");
    let boundary = boundary(&maximum);
    let unsupported = || MaximumPolicyCheck::Unsupported { reason: "strange".to_string() };
    let none = || AdmissionChecks {
        candidate: Some(MaximumPolicyCheck::WithinMax),
        created: None,
        removal: None,
        requested: None,
    };
    let proposal = |mode: PermissionMode, checks: AdmissionChecks| {
        decide_admission(Some(&boundary), mode, AdmissionSource::AgentProposal, checks)
    };
    assert!(matches!(proposal(PermissionMode::Ask, none()), AdmissionDecision::Ask { .. }));
    let removing =
        AdmissionChecks { removal: Some(MaximumPolicyCheck::WithinMax), ..none() };
    assert_eq!(proposal(PermissionMode::Ask, removing), AdmissionDecision::Apply);
    let adding = AdmissionChecks { removal: Some(unsupported()), ..none() };
    assert!(matches!(proposal(PermissionMode::Ask, adding), AdmissionDecision::Ask { .. }));
    let eligible =
        AdmissionChecks { requested: Some(MaximumPolicyCheck::WithinMax), ..none() };
    assert_eq!(proposal(PermissionMode::Auto, eligible), AdmissionDecision::Apply);
    let strange = AdmissionChecks { requested: Some(unsupported()), ..none() };
    assert!(matches!(proposal(PermissionMode::Auto, strange), AdmissionDecision::Reject { .. }));
    let unchecked = AdmissionChecks { candidate: None, ..none() };
    assert_eq!(
        decide_admission(None, PermissionMode::Ask, AdmissionSource::SandboxCreate, unchecked),
        AdmissionDecision::Unmanaged
    );
}

#[test]
fn single_stars_stay_within_a_segment() {
    let maximum = rest("          - allow: { method: GET, path: /repos/* }");
    let deep = rest("          - allow: { method: GET, path: /repos/acme/project }");
    let shallow = rest("          - allow: { method: GET, path: /repos/acme }");
    assert_eq!(
        check_within_maximum(&maximum, &shallow),
        MaximumPolicyCheck::WithinMax
    );
    assert!(matches!(
        check_within_maximum(&maximum, &deep),
        MaximumPolicyCheck::ExceedsMax { .. }
    ));
}

#[test]
fn other_hosts_ports_and_binaries_are_outside() {
    let maximum = policy("      - host: \"*.example.com\"\n        port: 443");
    let inside = policy("      - host: api.example.com\n        port: 443");
    let host = policy("      - host: api.example.org\n        port: 443");
    let port = policy("      - host: api.example.com\n        port: 8443");
    assert_eq!(
        check_within_maximum(&maximum, &inside),
        MaximumPolicyCheck::WithinMax
    );
    for outside in [&host, &port] {
        let MaximumPolicyCheck::ExceedsMax { counterexample } =
            check_within_maximum(&maximum, outside)
        else {
            panic!("another host or port should exceed the maximum");
        };
        assert_eq!(counterexample.protocol, "l4");
        assert_eq!(counterexample.binary, "/usr/bin/gh");
    }
}

#[test]
fn work_directories_are_part_of_the_filesystem() {
    let with = document("version: 1\nfilesystem_policy: { include_workdir: true }\n");
    let without = document("version: 1\nfilesystem_policy: { include_workdir: false }\n");
    assert_eq!(
        check_within_maximum(&with, &without),
        MaximumPolicyCheck::WithinMax
    );
    assert!(matches!(
        check_within_maximum(&without, &with),
        MaximumPolicyCheck::ExceedsMax { .. }
    ));
}

#[test]
fn answers_of_the_solver_are_read() {
    assert_eq!(conclude(Answer::Unsatisfiable), MaximumPolicyCheck::WithinMax);
    assert!(matches!(conclude(Answer::Unknown), MaximumPolicyCheck::Unsupported { .. }));
    assert!(matches!(conclude(Answer::WithoutModel), MaximumPolicyCheck::Unsupported { .. }));
    let texts = ["/bin/a", "h", "rest", "GET", "/p"];
    let answer = Answer::Satisfied {
        texts: texts.iter().map(|text| Some(text.to_string())).collect(),
        number: Some(8080),
    };
    let MaximumPolicyCheck::ExceedsMax { counterexample } = conclude(answer) else {
        panic!("a model is a counterexample");
    };
    assert_eq!(counterexample.port, 8080);
    assert_eq!(counterexample.host, "h");
    assert_eq!(counterexample.path, "/p");
}

#[test]
fn unreadable_documents_are_refused() {
    assert!(parse_policy_str(read(": [")).is_err());
    let error = ManagedPolicyConfig::parse(read("version: 1\n")).err().unwrap();
    assert!(error.contains("metadata"), "{error}");
    let unsupported = ManagedPolicyConfig::parse(read(
        r"version: 1
metadata: { policy_id: p, version: 1, allowed_modes: [ask], default_mode: ask }
future_authority: all
",
    ))
    .err()
    .unwrap();
    assert!(unsupported.contains("future_authority"), "{unsupported}");
}

#[test]
fn ports_and_enforcement_of_an_endpoint() {
    let value = policy(
        "      - host: h\n        port: 443\n        protocol: rest\n        enforcement: enforce",
    );
    let endpoint = &value.network_policies[0].1.endpoints[0];
    assert!(endpoint.is_l7_enforced());
    assert_eq!(endpoint.effective_ports(), vec![443]);
    let several = policy("      - host: h\n        ports: [80, 443]");
    let endpoint = &several.network_policies[0].1.endpoints[0];
    assert!(!endpoint.is_l7_enforced());
    assert_eq!(endpoint.effective_ports(), vec![80, 443]);
}

#[test]
fn permission_modes_are_read_back() {
    for mode in [PermissionMode::Ask, PermissionMode::Auto] {
        assert_eq!(PermissionMode::parse(mode.as_str()), Ok(mode));
    }
    assert!(PermissionMode::parse("always").is_err());
    assert_eq!(AdmissionSource::SandboxCreate.as_str(), "sandbox_create");
}

#[test]
fn verdicts_become_decisions() {
    let maximum = github("          - allow: { method: GET, path: /** }");
    let boundary = boundary(&maximum);
    assert_eq!(refuse(&boundary, MaximumPolicyCheck::WithinMax), None);
    for check in [exceeds(), unsupported()] {
        assert!(matches!(
            refuse(&boundary, check),
            Some(AdmissionDecision::Reject { .. })
        ));
    }
    assert_eq!(decide_create(MaximumPolicyCheck::WithinMax), AdmissionDecision::Apply);
    assert!(matches!(decide_create(exceeds()), AdmissionDecision::Reject { .. }));
    assert_eq!(decide_proposal(MaximumPolicyCheck::WithinMax), AdmissionDecision::Apply);
    assert!(matches!(
        decide_proposal(exceeds()),
        AdmissionDecision::Ask { counterexample: Some(_), .. }
    ));
}

#[test]
fn modes_outside_the_boundary_are_refused() {
    let maximum = github("          - allow: { method: GET, path: /repos/** }");
    let candidate = github("          - allow: { method: GET, path: /repos/acme }");
    let boundary = ManagedBoundary {
        id: "engineering",
        version: 7,
        maximum: &maximum,
        allowed_modes: &[PermissionMode::Ask],
    };
    assert!(matches!(
        admit_candidate(
            Some(&boundary),
            PermissionMode::Auto,
            AdmissionSource::AgentProposal,
            None,
            &candidate,
            &candidate,
        ),
        AdmissionDecision::Reject { counterexample: None, .. }
    ));
}

// ---------------------------------------------------------------------------
// The managed maximum in the gateway's settings
// ---------------------------------------------------------------------------

const POLICY_KEY: &str = "policy";

fn maximum(version: u64) -> Vec<u8> {
    format!(
        r"version: 1
metadata:
  policy_id: engineering
  version: {version}
  allowed_modes: [ask, auto]
  default_mode: auto
network_policies:
  github:
    endpoints:
      - host: api.github.com
        port: 443
        protocol: rest
        enforcement: enforce
        access: read-only
    binaries:
      - path: /usr/bin/gh
"
    )
    .into_bytes()
}

fn no_settings() -> GlobalSettings {
    GlobalSettings { revision: 0, settings: vec![] }
}

fn stored_config(bytes: &Vec<u8>) -> Result<ManagedPolicyConfig, Status> {
    parse_stored_config(read(&stored_text(bytes)?))
}

fn parsed_maximum(settings: &GlobalSettings) -> Result<ManagedPolicyConfig, Status> {
    match load_managed_policy_config(settings, true)? {
        Some(bytes) => stored_config(&bytes),
        None => Err(Status::new(Code::NotFound, "no managed maximum".to_string())),
    }
}

fn loaded(settings: &GlobalSettings) -> Option<ManagedPolicyConfig> {
    load_managed_policy_config(settings, true)
        .unwrap()
        .map(|bytes| stored_config(&bytes).unwrap())
}

fn set_maximum(
    settings: &mut GlobalSettings,
    policy_yaml: &Vec<u8>,
    sandboxes_exist: bool,
) -> Result<ManagedMaximumPolicyResponse, Status> {
    let parsed = read(&String::from_utf8_lossy(policy_yaml));
    let existing = parsed_maximum(settings);
    let outcome = handle_set_managed_maximum_policy(
        settings,
        true,
        policy_yaml.clone(),
        1 << 20,
        parsed,
        sandboxes_exist,
        POLICY_KEY,
        existing,
    )?;
    assert!(outcome.audit.map_or(true, |audit| audit.state == "set"));
    Ok(outcome.response)
}

fn configured() -> GlobalSettings {
    let mut settings = no_settings();
    set_maximum(&mut settings, &maximum(1), false).expect("maximum should configure");
    settings
}

fn outside_policy() -> PolicyModel {
    parse_effective_policy(read(
        r"version: 1
network_policies:
  github:
    endpoints:
      - host: api.github.com
        port: 443
        protocol: rest
        enforcement: enforce
        rules:
          - allow: { method: DELETE, path: /repos/acme/project }
    binaries:
      - path: /usr/bin/gh
",
    ))
    .expect("candidate should parse")
}

#[test]
fn managed_maximum_requires_single_replica_storage() {
    require_managed_storage(true).expect("SQLite should support managed maximums");
    let error = require_managed_storage(false)
        .expect_err("multi-replica storage must fail closed until admission is coordinated");
    assert_eq!(error.code(), Code::FailedPrecondition);
    assert!(error.message().contains("single-replica SQLite"));
}

#[test]
fn refused_documents_are_not_set() {
    let set = |single: bool, yaml: Vec<u8>| {
        let mut settings = no_settings();
        let parsed = match String::from_utf8(yaml.clone()) {
            Ok(text) if text.starts_with("version") => read(&text),
            _ => Err("no mapping".to_string()),
        };
        let result = handle_set_managed_maximum_policy(
            &mut settings,
            single,
            yaml,
            1 << 20,
            parsed,
            false,
            POLICY_KEY,
            Err(Status::new(Code::Internal, String::new())),
        );
        assert_eq!(settings, no_settings());
        result.unwrap_err()
    };
    assert_eq!(set(false, maximum(1)).code(), Code::FailedPrecondition);
    assert_eq!(set(true, vec![]).message(), "policy_yaml is required");
    assert!(set(true, vec![b' '; (1 << 20) + 1]).message().contains("exceeds maximum size"));
    assert!(set(true, vec![0xff]).message().contains("UTF-8"));
    assert_eq!(set(true, b"version: 1".to_vec()).code(), Code::InvalidArgument);
}

#[test]
fn managed_maximum_round_trips_and_deletes() {
    let mut settings = no_settings();
    let set = set_maximum(&mut settings, &maximum(1), false).expect("set should succeed");
    assert!(set.configured);
    assert_eq!(set.policy_id, "engineering");
    assert_eq!(set.version, 1);
    assert_eq!(set.settings_revision, 1);

    let get = handle_get_managed_maximum_policy(&settings, parsed_maximum(&settings))
        .expect("get should succeed");
    assert_eq!(get.policy_yaml, maximum(1));
    assert_eq!(get.policy_hash, set.policy_hash);
    assert_eq!(get, set);

    let stored = parsed_maximum(&settings);
    let deleted = handle_delete_managed_maximum_policy(&mut settings, false, stored)
        .expect("delete should succeed");
    assert!(deleted.deleted);
    assert_eq!(deleted.settings_revision, 2);
    assert_eq!(deleted.audit.unwrap().state, "delete");
    assert!(loaded(&settings).is_none());
    let get = handle_get_managed_maximum_policy(&settings, parsed_maximum(&settings)).unwrap();
    assert!(!get.configured);
}

#[test]
fn documents_that_cannot_be_read_are_deleted_too() {
    let mut settings = GlobalSettings {
        revision: 4,
        settings: vec![(
            MANAGED_MAXIMUM_SETTING_KEY.to_string(),
            StoredSettingValue::Bytes("zz".to_string()),
        )],
    };
    let stored = parsed_maximum(&settings);
    assert!(handle_delete_managed_maximum_policy(&mut settings, false, stored).is_err());
    assert_eq!(settings, GlobalSettings { revision: 5, settings: vec![] });
    let mut kept = configured();
    let before = kept.clone();
    let stored = parsed_maximum(&kept);
    assert!(handle_delete_managed_maximum_policy(&mut kept, true, stored).is_err());
    assert_eq!(kept, before);
}

#[test]
fn managed_maximum_replacement_requires_increasing_version() {
    let mut settings = no_settings();
    set_maximum(&mut settings, &maximum(2), false).expect("initial set should succeed");

    let error = set_maximum(&mut settings, &maximum(1), false)
        .expect_err("version rollback should fail");
    assert_eq!(error.code(), Code::FailedPrecondition);
    assert!(error.message().contains("increase version"));
}

#[test]
fn create_permission_mode_uses_managed_default_and_validates_override() {
    let config = loaded(&configured());

    assert_eq!(
        resolve_create_permission_mode(config.as_ref(), "").unwrap(),
        Some(PermissionMode::Auto)
    );
    assert_eq!(
        resolve_create_permission_mode(config.as_ref(), "ask").unwrap(),
        Some(PermissionMode::Ask)
    );
}

#[test]
fn explicit_permission_mode_requires_managed_maximum() {
    let error = resolve_create_permission_mode(None, "auto")
        .expect_err("mode without maximum should fail");
    assert_eq!(error.code(), Code::FailedPrecondition);
    assert!(error.message().contains("requires a managed maximum"));
}

#[test]
fn create_permission_mode_rejects_mode_outside_allowed_set() {
    let auto_only = String::from_utf8(maximum(1))
        .unwrap()
        .replace("allowed_modes: [ask, auto]", "allowed_modes: [auto]");
    let mut settings = no_settings();
    set_maximum(&mut settings, &auto_only.into_bytes(), false)
        .expect("maximum should be configured");

    let error = resolve_create_permission_mode(loaded(&settings).as_ref(), "ask")
        .expect_err("disallowed mode should fail");
    assert_eq!(error.code(), Code::FailedPrecondition);
    assert!(error.message().contains("allowed modes: auto"));
}

#[test]
fn managed_maximum_mutation_rejects_when_sandbox_exists() {
    let mut settings = no_settings();

    let error = set_maximum(&mut settings, &maximum(1), true)
        .expect_err("set with sandbox should fail");
    assert_eq!(error.code(), Code::FailedPrecondition);
    assert!(error.message().contains("no sandboxes"));
    assert_eq!(settings, no_settings());
    assert!(require_no_sandboxes(false).is_ok());
}

#[test]
fn sandbox_create_rejects_authority_outside_managed_maximum() {
    let config = loaded(&configured()).unwrap();
    let candidate = outside_policy();
    let decision = decide_managed_authority(
        Some(&config),
        &ManagedAuthorityRequest {
            mode: Some(PermissionMode::Auto),
            source: AdmissionSource::SandboxCreate,
            sandbox_id: "sandbox-id",
            sandbox_name: "outside-maximum",
            current: None,
            candidate: &candidate,
            requested_delta: &candidate,
        },
    )
    .expect("the request should be decided");
    let audit = managed_admission_audit(
        "sandbox-id",
        "outside-maximum",
        &config,
        PermissionMode::Auto,
        AdmissionSource::SandboxCreate,
        &decision,
    )
    .expect("a rejection is recorded");
    assert!(!audit.succeeded);
    let error = require_applied(decision).expect_err("outside authority should reject create");
    assert_eq!(error.code(), Code::PermissionDenied);
    assert!(error.message().contains("exceeds managed maximum"));
    assert!(error.message().contains("DELETE"));
}

#[test]
fn storing_a_document_twice_changes_nothing() {
    let mut settings = configured();
    let before = settings.clone();
    set_maximum(&mut settings, &maximum(1), false).expect("the same document is accepted");
    assert_eq!(settings, before);
}

#[test]
fn a_global_override_stands_in_the_way() {
    let mut settings = no_settings();
    settings
        .settings
        .push((POLICY_KEY.to_string(), StoredSettingValue::Flag(true)));
    let error = set_maximum(&mut settings, &maximum(1), false).unwrap_err();
    assert_eq!(error.code(), Code::FailedPrecondition);
    assert!(error.message().contains("global policy override"));
}

#[test]
fn documents_are_bounded_texts() {
    assert_eq!(check_document(true, &b"a: 1".to_vec(), 4), Ok("a: 1".to_string()));
    assert!(check_document(true, &b"a: 12".to_vec(), 4).is_err());
    assert!(check_document(true, &vec![0xff], 4).is_err());
    assert!(check_document(false, &b"a".to_vec(), 4).is_err());
}

#[test]
fn damaged_settings_are_reported() {
    let with = |value: StoredSettingValue| GlobalSettings {
        revision: 1,
        settings: vec![(MANAGED_MAXIMUM_SETTING_KEY.to_string(), value)],
    };
    for value in [
        StoredSettingValue::Number(1),
        StoredSettingValue::Bytes("zz".to_string()),
        StoredSettingValue::Bytes("abc".to_string()),
    ] {
        assert!(load_managed_policy_config(&with(value), true).is_err());
    }
    let good = with(StoredSettingValue::Bytes("6162".to_string()));
    assert_eq!(load_managed_policy_config(&good, true), Ok(Some(b"ab".to_vec())));
}

#[test]
fn permission_modes_are_read_from_labels() {
    let labels = vec![("mode".to_string(), "ask".to_string())];
    assert_eq!(
        permission_mode_for_sandbox(Some(&labels), "mode"),
        Ok(Some(PermissionMode::Ask))
    );
    assert_eq!(permission_mode_for_sandbox(Some(&labels), "other"), Ok(None));
    assert_eq!(permission_mode_for_sandbox(None, "mode"), Ok(None));
    let bad = vec![("mode".to_string(), "never".to_string())];
    assert!(permission_mode_for_sandbox(Some(&bad), "mode").is_err());
}

#[test]
fn counterexamples_are_described() {
    let message = decision_message("too much", Some(&example()));
    for part in ["too much", "api.github.com", "443", "GET", "/x"] {
        assert!(message.contains(part), "{message}");
    }
    assert_eq!(decision_message("too much", None), "too much");
}

#[test]
fn changes_of_the_maximum_are_recorded() {
    let config = loaded(&configured()).unwrap();
    let hash = policy_hash(&maximum(1));
    assert_eq!(hash.len(), 64);
    let audit = managed_config_audit("set", &config, &hash);
    assert!(audit.succeeded);
    assert!(audit.unmapped.iter().any(|(_, value)| *value == hash));
}

#[test]
fn hashes_are_those_of_the_digest() {
    assert_eq!(
        policy_hash(&vec![]),
        "e3b0c44298fc1c149afbf4c8996fb92427ae41e4649b934ca495991b7852b855"
    );
}
