//! Credentials in Kubernetes Secrets.

use openshell::kubernetes_secrets::resolution::{Fetched, ResolveCredentialRequest};
use openshell::kubernetes_secrets::{
    default_namespace, is_dns_label, is_dns_subdomain, is_secret_data_key, kube_error_to_status,
    kube_write_error_to_status, managed_secret, managed_secret_name, secret_name_from_digest,
    CredentialHandle, KubeFailure, KubernetesSecretReference, KubernetesSecretsCredentialDriver,
    KubernetesSecretsDriverConfig, KubernetesSecretsDriverSettings, StoreCredentialRequest,
    StoreStep,
};
use openshell::status::Code;

fn text(value: &str) -> String {
    value.to_string()
}

fn handle(value: &str) -> CredentialHandle {
    CredentialHandle {
        driver: "kubernetes-secrets".to_string(),
        handle: value.to_string(),
        metadata: vec![],
    }
}

fn decode(table: &str) -> Result<KubernetesSecretsDriverConfig, String> {
    let table: toml::Table = table.parse().map_err(|error: toml::de::Error| error.to_string())?;
    let mut config =
        KubernetesSecretsDriverConfig { namespace: None, allow_reference_namespace: false };
    for (key, value) in &table {
        match key.as_str() {
            "namespace" => config.namespace = value.as_str().map(str::to_string),
            "allow_reference_namespace" => {
                config.allow_reference_namespace = value.as_bool().unwrap();
            }
            other => return Err(format!("unknown field `{other}`")),
        }
    }
    Ok(config)
}

fn driver() -> KubernetesSecretsCredentialDriver {
    KubernetesSecretsCredentialDriver::from_config(decode("namespace = \"openshell\""), None)
        .unwrap()
}

fn reference() -> KubernetesSecretReference {
    KubernetesSecretReference {
        namespace: text("openshell"),
        secret_name: text("provider-secret"),
        key: text("API_KEY"),
    }
}

fn failure(code: u16) -> KubeFailure {
    KubeFailure { code: Some(code), message: text("says the cluster") }
}

#[test]
fn settings_parse_configured_namespace() {
    let settings = KubernetesSecretsDriverSettings::from_table(
        decode("namespace = \"openshell\"\nallow_reference_namespace = true\n"),
        None,
    )
    .unwrap();

    assert_eq!(settings.namespace, "openshell");
    assert!(settings.allow_reference_namespace);
}

#[test]
fn settings_reject_unknown_fields() {
    let err = KubernetesSecretsDriverSettings::from_table(
        decode("namespace = \"openshell\"\nunknown = \"value\"\n"),
        None,
    )
    .unwrap_err();

    assert!(err.to_string().contains("unknown field"));
}

#[test]
fn settings_reject_invalid_namespace() {
    let err =
        KubernetesSecretsDriverSettings::from_table(decode("namespace = \"OpenShell\"\n"), None)
            .unwrap_err();

    assert!(err.to_string().contains("namespace"));
}

#[test]
fn handle_resolves_secret_reference() {
    let reference = KubernetesSecretsCredentialDriver::resolve_handle(
        &handle("v1:openshell:provider-secret"),
        "API_KEY",
    )
    .unwrap();

    assert_eq!(reference.namespace, "openshell");
    assert_eq!(reference.secret_name, "provider-secret");
    assert_eq!(reference.key, "API_KEY");
}

#[test]
fn handle_rejects_malformed_value() {
    let err = KubernetesSecretsCredentialDriver::resolve_handle(
        &handle("provider-secret"),
        "API_KEY",
    )
    .unwrap_err();

    assert_eq!(err.code(), Code::InvalidArgument);
    assert!(err.message().contains("malformed"));
}

#[test]
fn handle_rejects_invalid_namespace() {
    let err = KubernetesSecretsCredentialDriver::resolve_handle(
        &handle("v1:OpenShell:provider-secret"),
        "API_KEY",
    )
    .unwrap_err();

    assert_eq!(err.code(), Code::InvalidArgument);
    assert!(err.message().contains("namespace"));
}

#[test]
fn handle_rejects_invalid_secret_name() {
    let err = KubernetesSecretsCredentialDriver::resolve_handle(
        &handle("v1:openshell:ProviderSecret"),
        "API_KEY",
    )
    .unwrap_err();

    assert_eq!(err.code(), Code::InvalidArgument);
    assert!(err.message().contains("Secret name"));
}

#[test]
fn handle_rejects_invalid_credential_key() {
    let err = KubernetesSecretsCredentialDriver::resolve_handle(
        &handle("v1:openshell:provider-secret"),
        "api/key",
    )
    .unwrap_err();

    assert_eq!(err.code(), Code::InvalidArgument);
    assert!(err.message().contains("data key"));
}

#[test]
fn managed_secret_names_are_stable_dns_subdomains() {
    let name = managed_secret_name("openai-prod", "OPENAI_API_KEY");

    assert!(name.starts_with("openshell-cred-"));
    assert!(is_dns_subdomain(&name));
    assert_eq!(name, managed_secret_name("openai-prod", "OPENAI_API_KEY"));
    assert_ne!(name, managed_secret_name("openai-prod", "OTHER_KEY"));
    assert_eq!(name, "openshell-cred-70e4458817f5102ddfe6896bc5b5d0d17bb7fa2e");
    assert_eq!(
        secret_name_from_digest(&vec![0x0f; 32]),
        format!("openshell-cred-{}", "0f".repeat(20))
    );
}

#[test]
fn handles_resolve_to_what_they_were_made_for() {
    let handle = KubernetesSecretsCredentialDriver::handle_for(&reference());
    assert_eq!(handle.handle, "v1:openshell:provider-secret");
    assert_eq!(
        KubernetesSecretsCredentialDriver::resolve_handle(&handle, "API_KEY"),
        Ok(reference())
    );
}

#[test]
fn requests_need_a_handle() {
    let given = handle("v1:openshell:provider-secret");
    assert_eq!(
        KubernetesSecretsCredentialDriver::handle_from_request("r", Some(given.clone())),
        Ok(given)
    );
    let missing = KubernetesSecretsCredentialDriver::handle_from_request("r", None).unwrap_err();
    assert_eq!(
        missing.message(),
        "kubernetes-secrets credential request 'r' is missing handle"
    );
}

#[test]
fn stored_credentials_go_where_their_handle_says() {
    let request = StoreCredentialRequest {
        provider_name: text("openai-prod"),
        credential_key: text("API_KEY"),
        value: text("secret"),
        existing_handle: None,
    };
    let fresh = driver().store_credential(&request).unwrap();
    assert_eq!(fresh.namespace, "openshell");
    assert_eq!(fresh.secret_name, managed_secret_name("openai-prod", "API_KEY"));
    let kept = StoreCredentialRequest {
        existing_handle: Some(handle("v1:openshell:provider-secret")),
        ..request
    };
    assert_eq!(driver().store_credential(&kept), Ok(reference()));
}

#[test]
fn a_secret_that_exists_is_merged() {
    let step = KubernetesSecretsCredentialDriver::store_secret_value(&reference(), &Ok(()));
    assert_eq!(step, StoreStep::Done);
    let step =
        KubernetesSecretsCredentialDriver::store_secret_value(&reference(), &Err(failure(409)));
    assert_eq!(step, StoreStep::Merge);
    let step =
        KubernetesSecretsCredentialDriver::store_secret_value(&reference(), &Err(failure(500)));
    assert!(matches!(step, StoreStep::Failed(_)));
}

#[test]
fn a_secret_that_is_gone_counts_as_deleted() {
    let reference = reference();
    let delete = KubernetesSecretsCredentialDriver::delete_credential;
    assert_eq!(delete(&reference, &Ok(())), Ok(()));
    assert_eq!(delete(&reference, &Err(failure(404))), Ok(()));
    assert!(delete(&reference, &Err(failure(403))).is_err());
}

#[test]
fn values_are_read_from_secrets() {
    let resolve = KubernetesSecretsCredentialDriver::resolve_secret_value;
    let data = |bytes: &[u8]| Some(vec![(text("API_KEY"), bytes.to_vec())]);
    assert_eq!(resolve(&reference(), &data(b"value")), Ok(text("value")));
    assert!(resolve(&reference(), &data(&[0xff, 0xfe])).is_err());
    assert!(resolve(&reference(), &None).is_err());
    assert!(resolve(&reference(), &Some(vec![])).is_err());
}

#[test]
fn cluster_errors_keep_their_meaning() {
    let read = |code: u16| kube_error_to_status("ns", "name", &failure(code)).code();
    assert_eq!(read(404), Code::NotFound);
    assert_eq!(read(403), Code::PermissionDenied);
    let unknown = KubeFailure { code: None, message: text("refused") };
    assert_eq!(kube_error_to_status("ns", "name", &unknown).code(), Code::Unavailable);
    assert_eq!(
        kube_write_error_to_status("ns", "name", &failure(403)).code(),
        Code::PermissionDenied
    );
}

#[test]
fn names_follow_kubernetes() {
    assert!(is_dns_label("a-1"));
    for bad in ["", "-a", "a-", "A", "a.b"] {
        assert!(!is_dns_label(bad), "{bad:?}");
    }
    assert!(is_dns_label(&"a".repeat(63)));
    assert!(!is_dns_label(&"a".repeat(64)));
    assert!(is_dns_subdomain("a.b-c.d"));
    assert!(!is_dns_subdomain("a..b"));
    assert!(is_secret_data_key("A_b-1.c"));
    assert!(!is_secret_data_key("a/b"));
}

#[test]
fn the_namespace_falls_back_to_the_account() {
    assert_eq!(default_namespace(Some("team\n")), "team");
    assert_eq!(default_namespace(Some(" \n")), default_namespace(None));
}

#[test]
fn managed_secrets_hold_one_value() {
    let secret = managed_secret("name", "API_KEY", "secret");
    assert_eq!(secret.name, "name");
    assert_eq!(secret.string_data, vec![(text("API_KEY"), text("secret"))]);
    assert!(!secret.labels.is_empty());
}

#[test]
fn requests_are_answered_in_turn() {
    let request = |id: &str, value: &str| ResolveCredentialRequest {
        request_id: text(id),
        credential_key: text("API_KEY"),
        handle: Some(handle(value)),
    };
    let secret = |value: &str| -> Fetched {
        Ok(Some(vec![(text("API_KEY"), value.as_bytes().to_vec())]))
    };
    let resolve = KubernetesSecretsCredentialDriver::resolve_credentials;
    let requests = vec![request("1", "v1:openshell:a"), request("2", "v1:openshell:b")];
    let answers = resolve(&requests, &vec![secret("x"), secret("y")]).unwrap();
    let values: Vec<(&str, &str)> = answers
        .iter()
        .map(|answer| (answer.request_id.as_str(), answer.value.as_str()))
        .collect();
    assert_eq!(values, vec![("1", "x"), ("2", "y")]);
    let error = resolve(&requests, &vec![secret("x"), Err(failure(404))]).unwrap_err();
    assert_eq!(error.code(), Code::NotFound);
    let first = resolve(
        &vec![request("1", "bad"), request("2", "v1:openshell:b")],
        &vec![secret("x"), Err(failure(404))],
    )
    .unwrap_err();
    assert_eq!(first.code(), Code::InvalidArgument);
    let missing = ResolveCredentialRequest {
        request_id: text("9"),
        credential_key: text("API_KEY"),
        handle: None,
    };
    let error = resolve(&vec![missing], &vec![secret("x")]).unwrap_err();
    assert!(error.message().contains("'9' is missing handle"));
    assert_eq!(resolve(&vec![], &vec![]), Ok(vec![]));
}
