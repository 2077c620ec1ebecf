//! The catalog of provider profiles.

use openshell::provider_profile_catalog::{
    builtin_profile_source, profile_response_payload, profile_storage_payload,
    stored_profile_resource_version, stored_profile_response, stored_provider_profile,
    validate_source_profiles, ProfileCatalogSource, ProfileCatalogSourceMode, ProfileLookup,
    ProfileRecord, ProfileValidationDiagnostic, ProviderProfile, ProviderProfileCatalog,
    ProviderTypeProfile,
};

fn profile(id: &str) -> ProviderTypeProfile {
    ProviderTypeProfile {
        normalized_id: Some(id.to_string()),
        proto: ProviderProfile { id: id.to_string(), resource_version: 0, encoded: vec![1, 2] },
    }
}

fn builtin() -> ProfileCatalogSource {
    builtin_profile_source(vec![profile("github"), profile("slack")], vec![])
}

fn source(mode: ProfileCatalogSourceMode, id: &str) -> ProfileCatalogSource {
    ProfileCatalogSource {
        source_id: "interceptor/test".to_string(),
        mode,
        profiles: vec![profile(id)],
        diagnostics: vec![],
    }
}

#[test]
fn authoritative_catalog_hides_builtin_sources_from_management_checks() {
    let catalog = ProviderProfileCatalog::from_sources(vec![
        builtin(),
        source(ProfileCatalogSourceMode::Authoritative, "slack"),
    ])
    .unwrap();

    assert_eq!(
        catalog.static_source_for_profile(Some("slack")),
        Some("interceptor/test")
    );
    assert_eq!(catalog.static_source_for_profile(Some("github")), None);
}

#[test]
fn appended_sources_add_to_the_catalog() {
    let catalog = ProviderProfileCatalog::from_sources(vec![
        builtin(),
        source(ProfileCatalogSourceMode::Append, "jira"),
    ])
    .unwrap();
    assert_eq!(catalog.static_source_for_profile(Some("github")), Some("builtin"));
    assert_eq!(
        catalog.static_source_for_profile(Some("jira")),
        Some("interceptor/test")
    );
    assert_eq!(catalog.static_source_for_profile(None), None);
}

#[test]
fn two_sources_cannot_offer_one_profile() {
    let result = ProviderProfileCatalog::from_sources(vec![
        builtin(),
        source(ProfileCatalogSourceMode::Append, "github"),
    ]);
    assert!(result.is_err());
}

#[test]
fn invalid_profiles_are_refused() {
    let mut bad = source(ProfileCatalogSourceMode::Append, "jira");
    bad.diagnostics = vec![ProfileValidationDiagnostic {
        severity: "error".to_string(),
        profile_id: "jira".to_string(),
        field: "display_name".to_string(),
        message: "missing".to_string(),
    }];
    let error = validate_source_profiles(&bad).unwrap_err();
    assert!(error.contains("missing"), "{error}");
    assert_eq!(validate_source_profiles(&builtin()), Ok(()));
}

#[test]
fn profiles_are_looked_up_in_the_catalog_first() {
    let catalog = ProviderProfileCatalog::with_builtin_profiles(builtin()).unwrap();
    assert_eq!(
        catalog.get_profile(Some("github")),
        ProfileLookup::Known(profile("github").proto)
    );
    assert_eq!(
        catalog.get_profile(Some("custom")),
        ProfileLookup::Stored("custom".to_string())
    );
    assert_eq!(catalog.get_profile(None), ProfileLookup::Absent);
    let only = ProviderProfileCatalog::from_interceptor_sources(
        builtin(),
        vec![source(ProfileCatalogSourceMode::Authoritative, "slack")],
    )
    .unwrap();
    assert_eq!(only.get_profile(Some("custom")), ProfileLookup::Absent);
}

#[test]
fn stored_profiles_are_listed_with_those_of_the_catalog() {
    let catalog = ProviderProfileCatalog::with_builtin_profiles(builtin()).unwrap();
    let mut stored = stored_provider_profile(
        profile("custom").proto,
        Some("custom".to_string()),
        "id-1",
        9,
    );
    stored.metadata.as_mut().unwrap().resource_version = 4;
    let ids: Vec<String> = catalog
        .list_profiles(&vec![stored])
        .into_iter()
        .map(|profile| profile.id)
        .collect();
    assert_eq!(ids, vec!["custom", "github", "slack"]);
}

#[test]
fn responses_carry_the_stored_version() {
    let mut stored =
        stored_provider_profile(profile("custom").proto, Some("custom".to_string()), "id-1", 9);
    assert_eq!(stored.metadata.as_ref().unwrap().created_at_ms, 9);
    stored.metadata.as_mut().unwrap().resource_version = 4;
    assert_eq!(stored_profile_resource_version(&stored), 4);
    let response = stored_profile_response(Some(stored)).unwrap();
    assert_eq!(response.resource_version, 4);
    assert_eq!(stored_profile_response(None), None);
    let payload = profile_storage_payload(response);
    assert_eq!(payload.resource_version, 0);
    assert_eq!(profile_response_payload(payload, 5).resource_version, 5);
}

#[test]
fn revisions_differ_where_profiles_do() {
    let catalog = ProviderProfileCatalog::with_builtin_profiles(builtin()).unwrap();
    let record = |payload: Vec<u8>| ProfileRecord {
        id: "id-1".to_string(),
        updated_at_ms: 3,
        payload,
    };
    let first = catalog.hash_profile_revision(Some("custom"), Some(&record(vec![1])));
    let second = catalog.hash_profile_revision(Some("custom"), Some(&record(vec![2])));
    assert_ne!(first, second);
    assert_eq!(
        catalog.hash_profile_revision(Some("github"), None),
        catalog.hash_profile_revision(Some("github"), None)
    );
}
