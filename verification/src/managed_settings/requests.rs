//! Requests that set, get and delete the managed maximum.

use crate::managed_policy::{config_described, config_fits, ConfigView, ManagedPolicyConfig};
use crate::managed_settings::{
    check_document, config_record, config_response, decode_stored_yaml, delete_maximum,
    document_refusal, managed_config_audit, parse_new_config,
    maximum_in_force, plan_replacement, policy_hash, replacement_of, require_newer,
    require_no_sandboxes, response_of, sandbox_verdict, settings_with, settings_without,
    store_maximum, stored_bytes, stored_form, stored_maximum, unconfigured,
    unconfigured_response, version_verdict, ChangeView, ConfigStateChange, GlobalSettings,
    ManagedMaximumPolicyResponse, Replacement, ReplacementView, ResponseView, SettingsView,
    MANAGED_MAXIMUM_SETTING_KEY,
};
use crate::digest;
use crate::digest::{hex_text, sha256};
use crate::ordered;
use crate::outcome::shown;
use crate::prover::envelope::checkable;
use crate::prover::policy::{model_of, PolicyFile};
use crate::status::{status, Code, Status, StatusView};
use vstd::prelude::*;

verus! {

/// What setting the managed maximum gives: the answer, and the record of the change
/// where the settings changed and have to be saved.
#[derive(Debug, Clone, PartialEq, Eq)]
pub struct SetOutcome {
    pub response: ManagedMaximumPolicyResponse,
    pub audit: Option<ConfigStateChange>,
}

/// The content of what setting the managed maximum gives.
#[verifier::ext_equal]
pub struct SetView {
    pub response: ResponseView,
    pub audit: Option<ChangeView>,
}

impl DeepView for SetOutcome {
    type V = SetView;

    open spec fn deep_view(&self) -> SetView {
        SetView { response: self.response.deep_view(), audit: self.audit.deep_view() }
    }
}

/// What deleting the managed maximum gives.
#[derive(Debug, Clone, PartialEq, Eq)]
pub struct DeleteOutcome {
    pub deleted: bool,
    pub settings_revision: u64,
    pub audit: Option<ConfigStateChange>,
}

/// The content of what deleting the managed maximum gives.
#[verifier::ext_equal]
pub struct DeleteView {
    pub deleted: bool,
    pub settings_revision: u64,
    pub audit: Option<ChangeView>,
}

impl DeepView for DeleteOutcome {
    type V = DeleteView;

    open spec fn deep_view(&self) -> DeleteView {
        DeleteView {
            deleted: self.deleted,
            settings_revision: self.settings_revision,
            audit: self.audit.deep_view(),
        }
    }
}

/// A document may take the place of what is stored. `existing` is what parsing the
/// stored document gave.
pub open spec fn replacement_verdict(
    replacement: ReplacementView,
    config: ConfigView,
    existing: Result<ConfigView, StatusView>,
) -> Result<(), StatusView> {
    match replacement {
        ReplacementView::Over(_) => match existing {
            Err(error) => Err(error),
            Ok(existing) => version_verdict(config, existing),
        },
        _ => Ok(()),
    }
}

/// What setting the managed maximum gives.
pub open spec fn set_result(
    settings: SettingsView,
    config: ConfigView,
    policy_yaml: Seq<u8>,
    sandboxes_exist: bool,
    policy_key: Seq<char>,
    existing: Result<ConfigView, StatusView>,
) -> Result<SetView, StatusView> {
    match replacement_of(sandboxes_exist, settings, policy_key, policy_yaml) {
        Err(error) => Err(error),
        Ok(ReplacementView::Same) => Ok(
            SetView { response: response_of(config, policy_yaml, settings.revision), audit: None },
        ),
        Ok(replacement) => match replacement_verdict(replacement, config, existing) {
            Err(error) => Err(error),
            Ok(_) => Ok(
                SetView {
                    response: response_of(
                        config,
                        policy_yaml,
                        settings_with(settings, policy_yaml).revision,
                    ),
                    audit: Some(config_record("set"@, config, hex_text(sha256(policy_yaml)))),
                },
            ),
        },
    }
}

/// The settings after setting the managed maximum.
pub open spec fn settings_set(
    settings: SettingsView,
    config: ConfigView,
    policy_yaml: Seq<u8>,
    sandboxes_exist: bool,
    policy_key: Seq<char>,
    existing: Result<ConfigView, StatusView>,
) -> SettingsView {
    match set_result(settings, config, policy_yaml, sandboxes_exist, policy_key, existing) {
        Ok(outcome) if outcome.audit is Some => settings_with(settings, policy_yaml),
        _ => settings,
    }
}

/// What getting the managed maximum gives. `config` is what parsing the stored
/// document gave.
pub open spec fn get_result(
    settings: SettingsView,
    config: Result<ConfigView, StatusView>,
) -> Result<ResponseView, StatusView> {
    match stored_maximum(settings) {
        None => Ok(unconfigured(settings.revision)),
        Some(value) => match stored_bytes(value) {
            Err(error) => Err(error),
            Ok(policy_yaml) => match config {
                Err(error) => Err(error),
                Ok(config) => Ok(response_of(config, policy_yaml, settings.revision)),
            },
        },
    }
}

/// What deleting the managed maximum gives. `config` is what parsing the stored
/// document gave. A document that cannot be read is deleted too.
pub open spec fn delete_result(
    settings: SettingsView,
    sandboxes_exist: bool,
    config: Result<ConfigView, StatusView>,
) -> Result<DeleteView, StatusView> {
    let revision = settings_without(settings).revision;
    match sandbox_verdict(sandboxes_exist) {
        Err(error) => Err(error),
        Ok(_) => match stored_maximum(settings) {
            None => Ok(DeleteView { deleted: false, settings_revision: revision, audit: None }),
            Some(value) => match stored_bytes(value) {
                Err(error) => Err(error),
                Ok(policy_yaml) => match config {
                    Err(error) => Err(error),
                    Ok(config) => Ok(
                        DeleteView {
                            deleted: true,
                            settings_revision: revision,
                            audit: Some(
                                config_record("delete"@, config, hex_text(sha256(policy_yaml))),
                            ),
                        },
                    ),
                },
            },
        },
    }
}

/// The settings after deleting the managed maximum.
pub open spec fn settings_deleted(settings: SettingsView, sandboxes_exist: bool) -> SettingsView {
    if sandboxes_exist {
        settings
    } else {
        settings_without(settings)
    }
}

/// What a request to set the managed maximum gives, and the settings after it: a
/// document that is refused, cannot be read or is no valid maximum changes nothing.
pub open spec fn set_request_fits(
    settings: SettingsView,
    is_single_replica: bool,
    policy_yaml: Seq<u8>,
    max_size: usize,
    parsed: Result<PolicyFile, String>,
    sandboxes_exist: bool,
    policy_key: Seq<char>,
    existing: Result<ConfigView, StatusView>,
    result: Result<SetView, StatusView>,
    after: SettingsView,
) -> bool {
    match document_refusal(is_single_replica, policy_yaml, max_size) {
        Some(refusal) => result == Err::<SetView, StatusView>(refusal) && after == settings,
        None => match parsed {
            Err(_) => result == Err::<SetView, StatusView>(
                status(Code::InvalidArgument, "parsing policy YAML"@),
            ) && after == settings,
            Ok(file) => exists|config: Result<ConfigView, Seq<char>>| #[trigger]
                config_fits(model_of(file), config) && match config {
                    Err(problem) => result == Err::<SetView, StatusView>(
                        status(Code::InvalidArgument, problem),
                    ) && after == settings,
                    Ok(config) => {
                        &&& result == set_result(
                            settings,
                            config,
                            policy_yaml,
                            sandboxes_exist,
                            policy_key,
                            existing,
                        )
                        &&& after == settings_set(
                            settings,
                            config,
                            policy_yaml,
                            sandboxes_exist,
                            policy_key,
                            existing,
                        )
                    },
                },
        },
    }
}

/// Sets the managed maximum to a document, which has to fit into `max_size` bytes.
/// `parsed` is what reading its YAML text gave, and `existing` what parsing the stored
/// document gave, where another one is stored. The settings have to be saved where the
/// change is recorded.
pub fn handle_set_managed_maximum_policy(
    settings: &mut GlobalSettings,
    is_single_replica: bool,
    policy_yaml: Vec<u8>,
    max_size: usize,
    parsed: Result<PolicyFile, String>,
    sandboxes_exist: bool,
    policy_key: &str,
    existing: Result<ManagedPolicyConfig, Status>,
) -> (r: Result<SetOutcome, Status>)
    requires
        parsed matches Ok(file) ==> (config_described(model_of(file)) is Ok ==> checkable(
            model_of(file),
            model_of(file),
        )),
    ensures
        set_request_fits(
            old(settings).deep_view(),
            is_single_replica,
            policy_yaml@,
            max_size,
            parsed,
            sandboxes_exist,
            policy_key@,
            shown(existing),
            shown(r),
            final(settings).deep_view(),
        ),
{
    match check_document(is_single_replica, &policy_yaml, max_size) {
        Ok(_) => {},
        Err(error) => {
            return Err(error);
        },
    }
    let ghost document = parsed;
    let config = match parse_new_config(parsed) {
        Ok(config) => config,
        Err(error) => {
            proof {
                if let Ok(file) = document {
                    let problem = Err::<ConfigView, Seq<char>>(error.message@);
                    assert(config_fits(model_of(file), problem));
                }
            }
            return Err(error);
        },
    };
    proof {
        if let Ok(file) = document {
            let made = Ok::<ConfigView, Seq<char>>(config.deep_view());
            assert(config_fits(model_of(file), made));
        }
    }
    replace_managed_maximum(settings, &config, policy_yaml, sandboxes_exist, policy_key, existing)
}

/// Replaces the managed maximum by a valid one. `existing` is what parsing the stored
/// document gave, where another one is stored. The settings have to be saved where the
/// change is recorded.
pub fn replace_managed_maximum(
    settings: &mut GlobalSettings,
    config: &ManagedPolicyConfig,
    policy_yaml: Vec<u8>,
    sandboxes_exist: bool,
    policy_key: &str,
    existing: Result<ManagedPolicyConfig, Status>,
) -> (r: Result<SetOutcome, Status>)
    ensures
        shown(r) == set_result(
            old(settings).deep_view(),
            config.deep_view(),
            policy_yaml@,
            sandboxes_exist,
            policy_key@,
            shown(existing),
        ),
        final(settings).deep_view() == settings_set(
            old(settings).deep_view(),
            config.deep_view(),
            policy_yaml@,
            sandboxes_exist,
            policy_key@,
            shown(existing),
        ),
{
    let replacement = match plan_replacement(sandboxes_exist, settings, policy_key, &policy_yaml) {
        Ok(replacement) => replacement,
        Err(error) => {
            return Err(error);
        },
    };
    match replacement {
        Replacement::Same => {
            let response = config_response(config, policy_yaml, settings.revision);
            return Ok(SetOutcome { response, audit: None });
        },
        Replacement::Fresh => {},
        Replacement::Over(_) => {
            let stored = match existing {
                Ok(stored) => stored,
                Err(error) => {
                    return Err(error);
                },
            };
            match require_newer(config, &stored) {
                Ok(_) => {},
                Err(error) => {
                    return Err(error);
                },
            }
        },
    }
    store_maximum(settings, &policy_yaml);
    let hash = policy_hash(&policy_yaml);
    let audit = Some(managed_config_audit("set", config, hash.as_str()));
    let response = config_response(config, policy_yaml, settings.revision);
    Ok(SetOutcome { response, audit })
}

/// Answers what the managed maximum is. `config` is what parsing the stored document
/// gave.
pub fn handle_get_managed_maximum_policy(
    settings: &GlobalSettings,
    config: Result<ManagedPolicyConfig, Status>,
) -> (r: Result<ManagedMaximumPolicyResponse, Status>)
    ensures
        shown(r) == get_result(settings.deep_view(), shown(config)),
{
    let value = match ordered::get(&settings.settings, MANAGED_MAXIMUM_SETTING_KEY) {
        Some(value) => value,
        None => {
            return Ok(unconfigured_response(settings.revision));
        },
    };
    let policy_yaml = match decode_stored_yaml(value) {
        Ok(policy_yaml) => policy_yaml,
        Err(error) => {
            return Err(error);
        },
    };
    assert(policy_yaml.deep_view() =~= policy_yaml@);
    match config {
        Ok(config) => Ok(config_response(&config, policy_yaml, settings.revision)),
        Err(error) => Err(error),
    }
}

/// Deletes the managed maximum. `config` is what parsing the stored document gave.
/// The settings have to be saved where they changed, whatever is answered.
pub fn handle_delete_managed_maximum_policy(
    settings: &mut GlobalSettings,
    sandboxes_exist: bool,
    config: Result<ManagedPolicyConfig, Status>,
) -> (r: Result<DeleteOutcome, Status>)
    ensures
        shown(r) == delete_result(old(settings).deep_view(), sandboxes_exist, shown(config)),
        final(settings).deep_view() == settings_deleted(
            old(settings).deep_view(),
            sandboxes_exist,
        ),
{
    match require_no_sandboxes(sandboxes_exist) {
        Ok(_) => {},
        Err(error) => {
            return Err(error);
        },
    }
    let value = match delete_maximum(settings) {
        Some(value) => value,
        None => {
            return Ok(
                DeleteOutcome {
                    deleted: false,
                    settings_revision: settings.revision,
                    audit: None,
                },
            );
        },
    };
    let policy_yaml = match decode_stored_yaml(&value) {
        Ok(policy_yaml) => policy_yaml,
        Err(error) => {
            return Err(error);
        },
    };
    assert(policy_yaml.deep_view() =~= policy_yaml@);
    match config {
        Ok(config) => {
            let hash = policy_hash(&policy_yaml);
            let audit = Some(managed_config_audit("delete", &config, hash.as_str()));
            Ok(DeleteOutcome { deleted: true, settings_revision: settings.revision, audit })
        },
        Err(error) => Err(error),
    }
}

// ---------------------------------------------------------------------------
// Laws
// ---------------------------------------------------------------------------

/// A document that was set is in force, and getting the managed maximum answers what
/// setting it did.
pub proof fn law_set_document_is_answered(
    settings: SettingsView,
    config: ConfigView,
    policy_yaml: Seq<u8>,
    policy_key: Seq<char>,
    existing: Result<ConfigView, StatusView>,
)
    requires
        ordered::is_map(settings.settings),
        set_result(settings, config, policy_yaml, false, policy_key, existing) is Ok,
    ensures
        ({
            let after = settings_set(settings, config, policy_yaml, false, policy_key, existing);
            let outcome = set_result(settings, config, policy_yaml, false, policy_key, existing);
            &&& maximum_in_force(after, true) == Ok::<Option<Seq<u8>>, StatusView>(
                Some(policy_yaml),
            )
            &&& get_result(after, Ok(config)) == Ok::<ResponseView, StatusView>(
                outcome->Ok_0.response,
            )
        }),
{
    crate::managed_settings::law_stored_maximum_reads_back(settings, policy_yaml, policy_key);
    digest::law_hex_round_trip(policy_yaml);
    let key = MANAGED_MAXIMUM_SETTING_KEY@;
    ordered::law_put_lookup(settings.settings, key, stored_form(policy_yaml), key);
}

/// A request that is refused, because sandboxes exist or for any other reason,
/// leaves the managed maximum as it is.
pub proof fn law_refused_documents_change_nothing(
    settings: SettingsView,
    config: ConfigView,
    policy_yaml: Seq<u8>,
    sandboxes_exist: bool,
    policy_key: Seq<char>,
    existing: Result<ConfigView, StatusView>,
)
    ensures
        sandboxes_exist ==> set_result(
            settings,
            config,
            policy_yaml,
            sandboxes_exist,
            policy_key,
            existing,
        ) is Err && settings_deleted(settings, sandboxes_exist) == settings,
        set_result(
            settings,
            config,
            policy_yaml,
            sandboxes_exist,
            policy_key,
            existing,
        ) is Err ==> settings_set(
            settings,
            config,
            policy_yaml,
            sandboxes_exist,
            policy_key,
            existing,
        ) == settings,
{
}

/// Where no sandboxes exist, the managed maximum is gone after it was deleted, and
/// deleting it again deletes nothing.
pub proof fn law_deleted_maximum_is_not_answered(
    settings: SettingsView,
    config: Result<ConfigView, StatusView>,
)
    requires
        ordered::is_map(settings.settings),
    ensures
        ({
            let after = settings_deleted(settings, false);
            &&& get_result(after, config) == Ok::<ResponseView, StatusView>(
                unconfigured(after.revision),
            )
            &&& settings_deleted(after, false) == after
            &&& delete_result(after, false, config) == Ok::<DeleteView, StatusView>(
                DeleteView {
                    deleted: false,
                    settings_revision: after.revision,
                    audit: None,
                },
            )
        }),
{
    let key = MANAGED_MAXIMUM_SETTING_KEY@;
    ordered::law_without(settings.settings, key, key);
}

} // verus!
