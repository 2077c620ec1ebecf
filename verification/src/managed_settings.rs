//! The gateway's managed maximum as a setting: who may change it, how it is
//! stored, what is answered and what is audited.

use crate::digest;
use crate::digest::{hex_bytes, hex_failure, hex_text, is_hex, sha256};
use crate::managed_policy::{
    admission_fits, admissible, admit_candidate, boundary_of, config_described, config_fits, mode_parsed,
    AdmissionDecision, AdmissionSource, ConfigView, DecisionView, ManagedPolicyConfig,
    PermissionMode,
};
use crate::ordered;
use crate::outcome::shown;
use crate::prover::envelope::{checkable, CounterexampleView, PolicyCounterexample};
use crate::prover::policy::{model_of, parse_policy_str, PolicyFile, PolicyModel, PolicyView};
use crate::status::{status, Code, Status, StatusView};
use crate::text;
use crate::text::{cat2, cat3, cat4, cat5, cat7};
use vstd::prelude::*;
use vstd::utf8::{encode_utf8, valid_utf8};

pub mod laws;
pub mod requests;

verus! {

/// The key under which the managed maximum is stored.
pub const MANAGED_MAXIMUM_SETTING_KEY: &'static str = "managed_maximum_policy";

// ---------------------------------------------------------------------------
// Permission modes
// ---------------------------------------------------------------------------

/// The names of modes, separated by commas.
pub open spec fn mode_list(modes: Seq<PermissionMode>) -> Seq<char> {
    text::join(mode_names(modes), ", "@)
}

/// The names of modes.
pub open spec fn mode_names(modes: Seq<PermissionMode>) -> Seq<Seq<char>> {
    Seq::new(modes.len(), |i: int| modes[i].name())
}

/// The mode of a new sandbox: the requested one, or the managed default where
/// none is requested. Without a managed maximum there is no mode, and none may be
/// requested.
pub open spec fn create_mode(config: Option<ConfigView>, requested: Seq<char>) -> Result<
    Option<PermissionMode>,
    StatusView,
> {
    let unset = text::trimmed(requested).len() == 0;
    match config {
        None => if unset {
            Ok(None)
        } else {
            Err(
                status(
                    Code::FailedPrecondition,
                    "--permission-mode requires a managed maximum policy on the gateway"@,
                ),
            )
        },
        Some(config) => match if unset {
            Ok(config.default_mode)
        } else {
            mode_parsed(requested)
        } {
            Err(error) => Err(status(Code::InvalidArgument, error)),
            Ok(mode) => if config.allowed_modes.contains(mode) {
                Ok(Some(mode))
            } else {
                Err(
                    status(
                        Code::FailedPrecondition,
                        "permission mode '"@ + mode.name() + "' is not allowed by managed maximum "@
                            + (config.id + "@"@ + text::decimal(config.version as nat))
                            + "; allowed modes: "@ + mode_list(config.allowed_modes),
                    ),
                )
            },
        },
    }
}

fn names_of(modes: &Vec<PermissionMode>) -> (r: Vec<String>)
    ensures
        r.deep_view() == mode_names(modes@),
{
    let mut names: Vec<String> = Vec::new();
    let mut i: usize = 0;
    while i < modes.len()
        invariant
            i <= modes.len(),
            names.len() == i,
            forall|j: int| 0 <= j < i ==> #[trigger] names.deep_view()[j] == modes@[j].name(),
        decreases modes.len() - i,
    {
        let ghost before = names.deep_view();
        names.push(modes[i].as_str().to_owned());
        proof {
            assert forall|j: int| 0 <= j < i + 1 implies #[trigger] names.deep_view()[j]
                == modes@[j].name() by {
                if j < i {
                    assert(names.deep_view()[j] == before[j]);
                }
            }
        }
        i += 1;
    }
    assert(names.deep_view() =~= mode_names(modes@));
    names
}

fn allows(modes: &Vec<PermissionMode>, mode: PermissionMode) -> (r: bool)
    ensures
        r == modes@.contains(mode),
{
    let mut i: usize = 0;
    while i < modes.len()
        invariant
            i <= modes.len(),
            forall|j: int| 0 <= j < i ==> #[trigger] modes@[j] != mode,
        decreases modes.len() - i,
    {
        if modes[i] == mode {
            assert(modes@.contains(modes@[i as int]));
            return true;
        }
        i += 1;
    }
    false
}

/// The mode of a new sandbox, under the managed maximum that is in force.
pub fn resolve_create_permission_mode(
    config: Option<&ManagedPolicyConfig>,
    requested: &str,
) -> (r: Result<Option<PermissionMode>, Status>)
    ensures
        shown(r) == create_mode(config.deep_view(), requested@),
{
    let config = match config {
        Some(config) => config,
        None => {
            if text::is_blank(requested) {
                return Ok(None);
            }
            return Err(
                Status::new(
                    Code::FailedPrecondition,
                    "--permission-mode requires a managed maximum policy on the gateway".to_owned(),
                ),
            );
        },
    };
    let mode = if text::is_blank(requested) {
        config.default_mode
    } else {
        match PermissionMode::parse(requested) {
            Ok(mode) => mode,
            Err(error) => {
                return Err(Status::new(Code::InvalidArgument, error));
            },
        }
    };
    if !allows(&config.allowed_modes, mode) {
        let names = names_of(&config.allowed_modes);
        let list = text::join_with(&names, ", ");
        let version = text::decimal_of(config.version);
        let boundary = cat3(config.id.as_str(), "@", version.as_str());
        let first = cat4(
            "permission mode '",
            mode.as_str(),
            "' is not allowed by managed maximum ",
            boundary.as_str(),
        );
        return Err(
            Status::new(
                Code::FailedPrecondition,
                cat3(first.as_str(), "; allowed modes: ", list.as_str()),
            ),
        );
    }
    Ok(Some(mode))
}

/// The mode that a sandbox was created with, from its labels.
pub open spec fn sandbox_mode(labels: Option<Seq<(Seq<char>, Seq<char>)>>, key: Seq<char>) -> Result<
    Option<PermissionMode>,
    StatusView,
> {
    match labels {
        None => Ok(None),
        Some(labels) => match ordered::lookup(labels, key) {
            None => Ok(None),
            Some(value) => match mode_parsed(value) {
                Ok(mode) => Ok(Some(mode)),
                Err(error) => Err(
                    status(
                        Code::Internal,
                        "stored managed permission mode is invalid: "@ + error,
                    ),
                ),
            },
        },
    }
}

/// The mode that a sandbox was created with: the value of a label.
pub fn permission_mode_for_sandbox(labels: Option<&Vec<(String, String)>>, key: &str) -> (r: Result<
    Option<PermissionMode>,
    Status,
>)
    ensures
        shown(r) == sandbox_mode(labels.deep_view(), key@),
{
    let value = match labels {
        Some(labels) => match ordered::get(labels, key) {
            Some(value) => value,
            None => {
                return Ok(None);
            },
        },
        None => {
            return Ok(None);
        },
    };
    match PermissionMode::parse(value.as_str()) {
        Ok(mode) => Ok(Some(mode)),
        Err(error) => Err(
            Status::new(
                Code::Internal,
                cat2("stored managed permission mode is invalid: ", error.as_str()),
            ),
        ),
    }
}

/// A mode that was resolved for a new sandbox is one that the managed maximum
/// allows.
pub proof fn law_created_mode_is_allowed(config: ConfigView, requested: Seq<char>)
    requires
        create_mode(Some(config), requested) is Ok,
    ensures
        create_mode(Some(config), requested)->Ok_0 is Some,
        config.allowed_modes.contains(create_mode(Some(config), requested)->Ok_0->0),
{
}

// ---------------------------------------------------------------------------
// Stored settings
// ---------------------------------------------------------------------------

/// The value of a stored setting. Bytes are kept as hexadecimal digits.
#[derive(Debug, Clone, PartialEq, Eq)]
pub enum StoredSettingValue {
    Text(String),
    Flag(bool),
    Number(i64),
    Bytes(String),
}

/// The content of a stored setting.
pub enum SettingView {
    Text(Seq<char>),
    Flag(bool),
    Number(i64),
    Bytes(Seq<char>),
}

impl DeepView for StoredSettingValue {
    type V = SettingView;

    open spec fn deep_view(&self) -> SettingView {
        match self {
            StoredSettingValue::Text(value) => SettingView::Text(value@),
            StoredSettingValue::Flag(value) => SettingView::Flag(*value),
            StoredSettingValue::Number(value) => SettingView::Number(*value),
            StoredSettingValue::Bytes(value) => SettingView::Bytes(value@),
        }
    }
}

/// The gateway's global settings, ordered by key, and how often they changed.
#[derive(Debug, Clone, PartialEq, Eq)]
pub struct GlobalSettings {
    pub revision: u64,
    pub settings: Vec<(String, StoredSettingValue)>,
}

/// The content of the global settings.
#[verifier::ext_equal]
pub struct SettingsView {
    pub revision: u64,
    pub settings: Seq<(Seq<char>, SettingView)>,
}

impl DeepView for GlobalSettings {
    type V = SettingsView;

    open spec fn deep_view(&self) -> SettingsView {
        SettingsView { revision: self.revision, settings: self.settings.deep_view() }
    }
}

/// The next revision. The counter wraps around.
pub open spec fn next_revision(revision: u64) -> u64 {
    if revision == u64::MAX {
        0
    } else {
        (revision + 1) as u64
    }
}

/// The value that a managed maximum is stored as.
pub open spec fn stored_form(policy_yaml: Seq<u8>) -> SettingView {
    SettingView::Bytes(hex_text(policy_yaml))
}

/// The settings with a managed maximum in them.
pub open spec fn settings_with(settings: SettingsView, policy_yaml: Seq<u8>) -> SettingsView {
    SettingsView {
        revision: next_revision(settings.revision),
        settings: ordered::put(
            settings.settings,
            MANAGED_MAXIMUM_SETTING_KEY@,
            stored_form(policy_yaml),
        ),
    }
}

/// The settings without a managed maximum. They do not change where there was
/// none.
pub open spec fn settings_without(settings: SettingsView) -> SettingsView {
    if stored_maximum(settings) is None {
        settings
    } else {
        SettingsView {
            revision: next_revision(settings.revision),
            settings: ordered::without(settings.settings, MANAGED_MAXIMUM_SETTING_KEY@),
        }
    }
}

/// The stored managed maximum.
pub open spec fn stored_maximum(settings: SettingsView) -> Option<SettingView> {
    ordered::lookup(settings.settings, MANAGED_MAXIMUM_SETTING_KEY@)
}

/// The bytes of a stored managed maximum.
pub open spec fn stored_bytes(value: SettingView) -> Result<Seq<u8>, StatusView> {
    match value {
        SettingView::Bytes(digits) => if is_hex(digits) {
            Ok(hex_bytes(digits))
        } else {
            Err(
                status(
                    Code::Internal,
                    "decode managed maximum failed: "@ + hex_failure(digits),
                ),
            )
        },
        _ => Err(status(Code::Internal, "stored managed maximum has invalid value type"@)),
    }
}

/// Managed maximums need storage with a single replica.
pub open spec fn storage_verdict(is_single_replica: bool) -> Result<(), StatusView> {
    if is_single_replica {
        Ok(())
    } else {
        Err(
            status(
                Code::FailedPrecondition,
                "managed maximum policies currently require single-replica SQLite storage; PostgreSQL/HA support requires database-backed admission coordination"@,
            ),
        )
    }
}

/// The bytes of the managed maximum that is in force, if any.
pub open spec fn maximum_in_force(settings: SettingsView, is_single_replica: bool) -> Result<
    Option<Seq<u8>>,
    StatusView,
> {
    match stored_maximum(settings) {
        None => Ok(None),
        Some(value) => match storage_verdict(is_single_replica) {
            Err(error) => Err(error),
            Ok(_) => match stored_bytes(value) {
                Ok(bytes) => Ok(Some(bytes)),
                Err(error) => Err(error),
            },
        },
    }
}

/// Managed maximums need storage with a single replica.
pub fn require_managed_storage(is_single_replica: bool) -> (r: Result<(), Status>)
    ensures
        shown(r) == storage_verdict(is_single_replica),
{
    if is_single_replica {
        Ok(())
    } else {
        Err(
            Status::new(
                Code::FailedPrecondition,
                "managed maximum policies currently require single-replica SQLite storage; PostgreSQL/HA support requires database-backed admission coordination".to_owned(),
            ),
        )
    }
}

/// The bytes of a stored managed maximum.
pub fn decode_stored_yaml(value: &StoredSettingValue) -> (r: Result<Vec<u8>, Status>)
    ensures
        shown(r) == stored_bytes(value.deep_view()),
{
    match value {
        StoredSettingValue::Bytes(digits) => match digest::hex_decode(digits.as_str()) {
            Ok(bytes) => {
                assert(bytes.deep_view() =~= bytes@);
                Ok(bytes)
            },
            Err(message) => Err(
                Status::new(
                    Code::Internal,
                    cat2("decode managed maximum failed: ", message.as_str()),
                ),
            ),
        },
        _ => Err(
            Status::new(Code::Internal, "stored managed maximum has invalid value type".to_owned()),
        ),
    }
}

/// The bytes of the managed maximum that is in force, if any.
pub fn load_managed_policy_config(settings: &GlobalSettings, is_single_replica: bool) -> (r: Result<
    Option<Vec<u8>>,
    Status,
>)
    ensures
        shown(r) == maximum_in_force(settings.deep_view(), is_single_replica),
{
    match ordered::get(&settings.settings, MANAGED_MAXIMUM_SETTING_KEY) {
        None => Ok(None),
        Some(value) => {
            match require_managed_storage(is_single_replica) {
                Ok(_) => {},
                Err(error) => {
                    return Err(error);
                },
            }
            match decode_stored_yaml(value) {
                Ok(bytes) => Ok(Some(bytes)),
                Err(error) => Err(error),
            }
        },
    }
}

/// The text of a stored managed maximum.
pub fn stored_text(policy_yaml: &Vec<u8>) -> (r: Result<String, Status>)
    ensures
        r is Ok <==> valid_utf8(policy_yaml@),
        match r {
            Ok(yaml) => encode_utf8(yaml@) == policy_yaml@,
            Err(error) => error.deep_view() == status(
                Code::Internal,
                "stored managed maximum is not UTF-8"@,
            ),
        },
{
    match digest::utf8_text(policy_yaml) {
        Some(yaml) => Ok(yaml),
        None => Err(
            Status::new(Code::Internal, "stored managed maximum is not UTF-8".to_owned()),
        ),
    }
}

/// A stored document that is no managed maximum.
pub open spec fn stored_is_invalid(error: Seq<char>) -> StatusView {
    status(Code::Internal, "stored managed maximum is invalid: "@ + error)
}

/// The configuration in a stored document, where `parsed` is what reading its
/// YAML text gave.
pub fn parse_stored_config(parsed: Result<PolicyFile, String>) -> (r: Result<
    ManagedPolicyConfig,
    Status,
>)
    requires
        parsed matches Ok(file) ==> (config_described(model_of(file)) is Ok ==> checkable(
            model_of(file),
            model_of(file),
        )),
    ensures
        match parsed {
            Err(_) => r matches Err(error) && error.deep_view() == stored_is_invalid(
                "parsing policy YAML"@,
            ),
            Ok(file) => match r {
                Ok(config) => config_fits(model_of(file), Ok(config.deep_view())),
                Err(error) => exists|reason: Seq<char>| #[trigger]
                    config_fits(model_of(file), Err(reason)) && error.deep_view()
                        == stored_is_invalid(reason),
            },
        },
{
    match ManagedPolicyConfig::parse(parsed) {
        Ok(config) => Ok(config),
        Err(error) => {
            let ghost reason = error@;
            proof {
                if parsed is Ok {
                    assert(config_fits(model_of(parsed->Ok_0), Err(reason)));
                }
            }
            Err(
                Status::new(
                    Code::Internal,
                    cat2("stored managed maximum is invalid: ", error.as_str()),
                ),
            )
        },
    }
}

// ---------------------------------------------------------------------------
// Changing the managed maximum
// ---------------------------------------------------------------------------

/// Why a new managed maximum is refused before it is read.
pub open spec fn document_refusal(
    is_single_replica: bool,
    policy_yaml: Seq<u8>,
    max_size: usize,
) -> Option<StatusView> {
    match storage_verdict(is_single_replica) {
        Err(error) => Some(error),
        Ok(_) => if policy_yaml.len() == 0 {
            Some(status(Code::InvalidArgument, "policy_yaml is required"@))
        } else if policy_yaml.len() > max_size {
            Some(
                status(
                    Code::InvalidArgument,
                    "managed maximum policy exceeds maximum size ("@ + text::decimal(
                        max_size as nat,
                    ) + " bytes)"@,
                ),
            )
        } else if !valid_utf8(policy_yaml) {
            Some(status(Code::InvalidArgument, "managed maximum policy must be UTF-8 YAML"@))
        } else {
            None
        },
    }
}

/// The text of a new managed maximum.
pub fn check_document(is_single_replica: bool, policy_yaml: &Vec<u8>, max_size: usize) -> (r: Result<
    String,
    Status,
>)
    ensures
        match document_refusal(is_single_replica, policy_yaml@, max_size) {
            Some(refusal) => r matches Err(error) && error.deep_view() == refusal,
            None => r matches Ok(yaml) && encode_utf8(yaml@) == policy_yaml@,
        },
{
    match require_managed_storage(is_single_replica) {
        Ok(_) => {},
        Err(error) => {
            return Err(error);
        },
    }
    if policy_yaml.len() == 0 {
        return Err(Status::new(Code::InvalidArgument, "policy_yaml is required".to_owned()));
    }
    if policy_yaml.len() > max_size {
        let size = text::decimal_of(max_size as u64);
        return Err(
            Status::new(
                Code::InvalidArgument,
                cat3(
                    "managed maximum policy exceeds maximum size (",
                    size.as_str(),
                    " bytes)",
                ),
            ),
        );
    }
    match digest::utf8_text(policy_yaml) {
        Some(yaml) => Ok(yaml),
        None => Err(
            Status::new(
                Code::InvalidArgument,
                "managed maximum policy must be UTF-8 YAML".to_owned(),
            ),
        ),
    }
}

/// The configuration in a new document, where `parsed` is what reading its YAML
/// text gave.
pub fn parse_new_config(parsed: Result<PolicyFile, String>) -> (r: Result<
    ManagedPolicyConfig,
    Status,
>)
    requires
        parsed matches Ok(file) ==> (config_described(model_of(file)) is Ok ==> checkable(
            model_of(file),
            model_of(file),
        )),
    ensures
        match parsed {
            Err(_) => r matches Err(error) && error.deep_view() == status(
                Code::InvalidArgument,
                "parsing policy YAML"@,
            ),
            Ok(file) => match r {
                Ok(config) => config_fits(model_of(file), Ok(config.deep_view())),
                Err(error) => error.code == Code::InvalidArgument && config_fits(
                    model_of(file),
                    Err(error.message@),
                ),
            },
        },
{
    match ManagedPolicyConfig::parse(parsed) {
        Ok(config) => Ok(config),
        Err(error) => Err(Status::new(Code::InvalidArgument, error)),
    }
}

/// The managed maximum changes only while there are no sandboxes.
pub open spec fn sandbox_verdict(sandboxes_exist: bool) -> Result<(), StatusView> {
    if sandboxes_exist {
        Err(
            status(
                Code::FailedPrecondition,
                "managed maximum policy can change only when no sandboxes exist"@,
            ),
        )
    } else {
        Ok(())
    }
}

/// The managed maximum changes only while there are no sandboxes.
pub fn require_no_sandboxes(sandboxes_exist: bool) -> (r: Result<(), Status>)
    ensures
        shown(r) == sandbox_verdict(sandboxes_exist),
{
    if sandboxes_exist {
        Err(
            Status::new(
                Code::FailedPrecondition,
                "managed maximum policy can change only when no sandboxes exist".to_owned(),
            ),
        )
    } else {
        Ok(())
    }
}

/// What a new managed maximum meets in the settings.
#[derive(Debug, Clone, PartialEq, Eq)]
pub enum Replacement {
    /// No managed maximum is stored.
    Fresh,
    /// The same document is stored.
    Same,
    /// Another document is stored, with these bytes.
    Over(Vec<u8>),
}

/// The content of a replacement.
pub enum ReplacementView {
    Fresh,
    Same,
    Over(Seq<u8>),
}

impl DeepView for Replacement {
    type V = ReplacementView;

    open spec fn deep_view(&self) -> ReplacementView {
        match self {
            Replacement::Fresh => ReplacementView::Fresh,
            Replacement::Same => ReplacementView::Same,
            Replacement::Over(bytes) => ReplacementView::Over(bytes@),
        }
    }
}

/// What a new managed maximum meets in the settings, or why it cannot be stored
/// in them.
pub open spec fn replacement_of(
    sandboxes_exist: bool,
    settings: SettingsView,
    policy_key: Seq<char>,
    policy_yaml: Seq<u8>,
) -> Result<ReplacementView, StatusView> {
    match sandbox_verdict(sandboxes_exist) {
        Err(error) => Err(error),
        Ok(_) => if ordered::lookup(settings.settings, policy_key) is Some {
            Err(
                status(
                    Code::FailedPrecondition,
                    "managed maximum policy cannot coexist with the global policy override"@,
                ),
            )
        } else {
            match stored_maximum(settings) {
                None => Ok(ReplacementView::Fresh),
                Some(value) => if value == stored_form(policy_yaml) {
                    Ok(ReplacementView::Same)
                } else {
                    match stored_bytes(value) {
                        Ok(bytes) => Ok(ReplacementView::Over(bytes)),
                        Err(error) => Err(error),
                    }
                },
            }
        },
    }
}

/// What a new managed maximum meets in the settings. `policy_key` is the key of
/// the global policy override, beside which no managed maximum can stand.
pub fn plan_replacement(
    sandboxes_exist: bool,
    settings: &GlobalSettings,
    policy_key: &str,
    policy_yaml: &Vec<u8>,
) -> (r: Result<Replacement, Status>)
    ensures
        shown(r) == replacement_of(
            sandboxes_exist,
            settings.deep_view(),
            policy_key@,
            policy_yaml@,
        ),
{
    match require_no_sandboxes(sandboxes_exist) {
        Ok(_) => {},
        Err(error) => {
            return Err(error);
        },
    }
    if ordered::get(&settings.settings, policy_key).is_some() {
        return Err(
            Status::new(
                Code::FailedPrecondition,
                "managed maximum policy cannot coexist with the global policy override".to_owned(),
            ),
        );
    }
    let value = match ordered::get(&settings.settings, MANAGED_MAXIMUM_SETTING_KEY) {
        Some(value) => value,
        None => {
            return Ok(Replacement::Fresh);
        },
    };
    let digits = digest::hex_encode(policy_yaml);
    if let StoredSettingValue::Bytes(existing) = value {
        if text::same(existing.as_str(), digits.as_str()) {
            return Ok(Replacement::Same);
        }
    }
    match decode_stored_yaml(value) {
        Ok(bytes) => {
            assert(bytes.deep_view() =~= bytes@);
            Ok(Replacement::Over(bytes))
        },
        Err(error) => Err(error),
    }
}

/// A document replaces one with the same identity only where its version is
/// higher.
pub open spec fn version_verdict(config: ConfigView, existing: ConfigView) -> Result<
    (),
    StatusView,
> {
    if existing.id == config.id && config.version <= existing.version {
        Err(
            status(
                Code::FailedPrecondition,
                "replacement for managed maximum '"@ + config.id
                    + "' must increase version above "@ + text::decimal(existing.version as nat),
            ),
        )
    } else {
        Ok(())
    }
}

/// A document replaces one with the same identity only where its version is
/// higher.
pub fn require_newer(config: &ManagedPolicyConfig, existing: &ManagedPolicyConfig) -> (r: Result<
    (),
    Status,
>)
    ensures
        shown(r) == version_verdict(config.deep_view(), existing.deep_view()),
{
    if text::same(existing.id.as_str(), config.id.as_str()) && config.version
        <= existing.version {
        let version = text::decimal_of(existing.version);
        return Err(
            Status::new(
                Code::FailedPrecondition,
                cat4(
                    "replacement for managed maximum '",
                    config.id.as_str(),
                    "' must increase version above ",
                    version.as_str(),
                ),
            ),
        );
    }
    Ok(())
}

fn next(revision: u64) -> (r: u64)
    ensures
        r == next_revision(revision),
{
    if revision == u64::MAX {
        0
    } else {
        revision + 1
    }
}

/// Stores a managed maximum.
pub fn store_maximum(settings: &mut GlobalSettings, policy_yaml: &Vec<u8>)
    ensures
        final(settings).deep_view() == settings_with(old(settings).deep_view(), policy_yaml@),
{
    let digits = digest::hex_encode(policy_yaml);
    ordered::insert(
        &mut settings.settings,
        MANAGED_MAXIMUM_SETTING_KEY.to_owned(),
        StoredSettingValue::Bytes(digits),
    );
    settings.revision = next(settings.revision);
}

/// Takes the managed maximum out of the settings.
pub fn delete_maximum(settings: &mut GlobalSettings) -> (r: Option<StoredSettingValue>)
    ensures
        final(settings).deep_view() == settings_without(old(settings).deep_view()),
        r.deep_view() == stored_maximum(old(settings).deep_view()),
{
    let ghost before = settings.settings.deep_view();
    let removed = ordered::remove(&mut settings.settings, MANAGED_MAXIMUM_SETTING_KEY);
    if removed.is_some() {
        settings.revision = next(settings.revision);
    } else {
        proof {
            lemma_nothing_removed(before, MANAGED_MAXIMUM_SETTING_KEY@);
        }
    }
    removed
}

proof fn lemma_nothing_removed<V>(map: Seq<(Seq<char>, V)>, key: Seq<char>)
    requires
        ordered::lookup(map, key) is None,
    ensures
        ordered::without(map, key) == map,
    decreases map.len(),
{
    if map.len() > 0 {
        lemma_nothing_removed(map.skip(1), key);
        assert(seq![map[0]] + map.skip(1) =~= map);
    }
}

/// What is stored is what is in force: its bytes read back, and every other
/// setting keeps its value.
pub proof fn law_stored_maximum_reads_back(
    settings: SettingsView,
    policy_yaml: Seq<u8>,
    other: Seq<char>,
)
    requires
        ordered::is_map(settings.settings),
    ensures
        ordered::is_map(settings_with(settings, policy_yaml).settings),
        maximum_in_force(settings_with(settings, policy_yaml), true) == Ok::<
            Option<Seq<u8>>,
            StatusView,
        >(Some(policy_yaml)),
        other != MANAGED_MAXIMUM_SETTING_KEY@ ==> ordered::lookup(
            settings_with(settings, policy_yaml).settings,
            other,
        ) == ordered::lookup(settings.settings, other),
{
    let key = MANAGED_MAXIMUM_SETTING_KEY@;
    ordered::law_put_map(settings.settings, key, stored_form(policy_yaml));
    ordered::law_put_lookup(settings.settings, key, stored_form(policy_yaml), key);
    ordered::law_put_lookup(settings.settings, key, stored_form(policy_yaml), other);
    digest::law_hex_round_trip(policy_yaml);
}

/// A managed maximum that was deleted is no longer in force, and every other
/// setting keeps its value.
pub proof fn law_deleted_maximum_is_gone(
    settings: SettingsView,
    is_single_replica: bool,
    other: Seq<char>,
)
    requires
        ordered::is_map(settings.settings),
    ensures
        ordered::is_map(settings_without(settings).settings),
        maximum_in_force(settings_without(settings), is_single_replica) == Ok::<
            Option<Seq<u8>>,
            StatusView,
        >(None),
        other != MANAGED_MAXIMUM_SETTING_KEY@ ==> ordered::lookup(
            settings_without(settings).settings,
            other,
        ) == ordered::lookup(settings.settings, other),
{
    ordered::law_without(settings.settings, MANAGED_MAXIMUM_SETTING_KEY@, other);
}

/// Storing a document again meets the same document.
pub proof fn law_storing_again_is_idempotent(
    settings: SettingsView,
    policy_key: Seq<char>,
    policy_yaml: Seq<u8>,
)
    requires
        ordered::is_map(settings.settings),
        policy_key != MANAGED_MAXIMUM_SETTING_KEY@,
        replacement_of(false, settings, policy_key, policy_yaml) is Ok,
    ensures
        replacement_of(false, settings_with(settings, policy_yaml), policy_key, policy_yaml) == Ok::<
            ReplacementView,
            StatusView,
        >(ReplacementView::Same),
{
    let key = MANAGED_MAXIMUM_SETTING_KEY@;
    ordered::law_put_lookup(settings.settings, key, stored_form(policy_yaml), key);
    ordered::law_put_lookup(settings.settings, key, stored_form(policy_yaml), policy_key);
}

/// A maximum is never replaced by one with the same identity and a version that
/// is not higher.
pub proof fn law_versions_increase(config: ConfigView, existing: ConfigView)
    requires
        version_verdict(config, existing) is Ok,
        existing.id == config.id,
    ensures
        config.version > existing.version,
{
}

// ---------------------------------------------------------------------------
// Answers
// ---------------------------------------------------------------------------

/// The answer to a request for the managed maximum.
#[derive(Debug, Clone, PartialEq, Eq)]
pub struct ManagedMaximumPolicyResponse {
    pub configured: bool,
    pub policy_hash: String,
    pub policy_yaml: Vec<u8>,
    pub policy_id: String,
    pub version: u64,
    pub allowed_modes: Vec<String>,
    pub default_mode: String,
    pub audit_label: String,
    pub settings_revision: u64,
}

/// The content of an answer.
#[verifier::ext_equal]
pub struct ResponseView {
    pub configured: bool,
    pub policy_hash: Seq<char>,
    pub policy_yaml: Seq<u8>,
    pub policy_id: Seq<char>,
    pub version: u64,
    pub allowed_modes: Seq<Seq<char>>,
    pub default_mode: Seq<char>,
    pub audit_label: Seq<char>,
    pub settings_revision: u64,
}

impl DeepView for ManagedMaximumPolicyResponse {
    type V = ResponseView;

    open spec fn deep_view(&self) -> ResponseView {
        ResponseView {
            configured: self.configured,
            policy_hash: self.policy_hash@,
            policy_yaml: self.policy_yaml@,
            policy_id: self.policy_id@,
            version: self.version,
            allowed_modes: self.allowed_modes.deep_view(),
            default_mode: self.default_mode@,
            audit_label: self.audit_label@,
            settings_revision: self.settings_revision,
        }
    }
}

/// The answer where a managed maximum is stored.
pub open spec fn response_of(config: ConfigView, policy_yaml: Seq<u8>, revision: u64) -> ResponseView {
    ResponseView {
        configured: true,
        policy_hash: hex_text(sha256(policy_yaml)),
        policy_yaml,
        policy_id: config.id,
        version: config.version,
        allowed_modes: mode_names(config.allowed_modes),
        default_mode: config.default_mode.name(),
        audit_label: config.audit_label,
        settings_revision: revision,
    }
}

/// The hash of a document, in hexadecimal digits.
pub fn policy_hash(policy_yaml: &Vec<u8>) -> (r: String)
    ensures
        r@ == hex_text(sha256(policy_yaml@)),
{
    let digest = digest::sha256_of(policy_yaml);
    digest::hex_encode(&digest)
}

/// The answer where a managed maximum is stored.
pub fn config_response(config: &ManagedPolicyConfig, policy_yaml: Vec<u8>, settings_revision: u64) -> (r:
    ManagedMaximumPolicyResponse)
    ensures
        r.deep_view() == response_of(config.deep_view(), policy_yaml@, settings_revision),
{
    ManagedMaximumPolicyResponse {
        configured: true,
        policy_hash: policy_hash(&policy_yaml),
        policy_yaml,
        policy_id: config.id.clone(),
        version: config.version,
        allowed_modes: names_of(&config.allowed_modes),
        default_mode: config.default_mode.as_str().to_owned(),
        audit_label: config.audit_label.clone(),
        settings_revision,
    }
}

/// The answer where no managed maximum is stored.
pub open spec fn unconfigured(revision: u64) -> ResponseView {
    ResponseView {
        configured: false,
        policy_hash: Seq::empty(),
        policy_yaml: Seq::empty(),
        policy_id: Seq::empty(),
        version: 0,
        allowed_modes: Seq::empty(),
        default_mode: Seq::empty(),
        audit_label: Seq::empty(),
        settings_revision: revision,
    }
}

/// The answer where no managed maximum is stored.
pub fn unconfigured_response(settings_revision: u64) -> (r: ManagedMaximumPolicyResponse)
    ensures
        r.deep_view() == unconfigured(settings_revision),
{
    let r = ManagedMaximumPolicyResponse {
        configured: false,
        policy_hash: String::new(),
        policy_yaml: Vec::new(),
        policy_id: String::new(),
        version: 0,
        allowed_modes: Vec::new(),
        default_mode: String::new(),
        audit_label: String::new(),
        settings_revision,
    };
    assert(r.policy_hash@ =~= Seq::empty());
    assert(r.policy_yaml@ =~= Seq::empty());
    assert(r.allowed_modes.deep_view() =~= Seq::empty());
    r
}

// ---------------------------------------------------------------------------
// Decisions
// ---------------------------------------------------------------------------

/// What a decision was made under.
pub open spec fn decision_context(
    config: ConfigView,
    mode: PermissionMode,
    source: AdmissionSource,
) -> Seq<char> {
    "maximum="@ + config.id + "@"@ + text::decimal(config.version as nat) + " mode="@ + mode.name()
        + " source="@ + source.name()
}

/// A decision whose reason names what it was made under.
pub open spec fn in_context(decision: DecisionView, context: Seq<char>) -> DecisionView {
    match decision {
        DecisionView::Ask { reason, counterexample } => DecisionView::Ask {
            reason: reason + "; "@ + context,
            counterexample,
        },
        DecisionView::Reject { reason, counterexample } => DecisionView::Reject {
            reason: reason + "; "@ + context,
            counterexample,
        },
        other => other,
    }
}

/// A decision whose reason names what it was made under.
pub fn add_decision_context(
    decision: AdmissionDecision,
    config: &ManagedPolicyConfig,
    mode: PermissionMode,
    source: AdmissionSource,
) -> (r: AdmissionDecision)
    ensures
        r.deep_view() == in_context(
            decision.deep_view(),
            decision_context(config.deep_view(), mode, source),
        ),
{
    let version = text::decimal_of(config.version);
    let first = cat4("maximum=", config.id.as_str(), "@", version.as_str());
    let context = cat5(first.as_str(), " mode=", mode.as_str(), " source=", source.as_str());
    match decision {
        AdmissionDecision::Ask { reason, counterexample } => AdmissionDecision::Ask {
            reason: cat3(reason.as_str(), "; ", context.as_str()),
            counterexample,
        },
        AdmissionDecision::Reject { reason, counterexample } => AdmissionDecision::Reject {
            reason: cat3(reason.as_str(), "; ", context.as_str()),
            counterexample,
        },
        other => other,
    }
}

/// A reason with the action that it speaks of.
pub open spec fn message_of(reason: Seq<char>, counterexample: Option<CounterexampleView>) -> Seq<
    char,
> {
    match counterexample {
        None => reason,
        Some(action) => reason + ": protocol="@ + action.protocol + " host="@ + action.host
            + " port="@ + text::decimal(action.port as nat) + " binary="@ + action.binary
            + " method="@ + action.method + " path="@ + action.path,
    }
}

/// A reason with the action that it speaks of.
pub fn decision_message(reason: &str, counterexample: Option<&PolicyCounterexample>) -> (r: String)
    ensures
        r@ == message_of(reason@, counterexample.deep_view()),
{
    match counterexample {
        None => reason.to_owned(),
        Some(action) => {
            let port = text::decimal_of(action.port as u64);
            let first = cat7(
                reason,
                ": protocol=",
                action.protocol.as_str(),
                " host=",
                action.host.as_str(),
                " port=",
                port.as_str(),
            );
            cat7(
                first.as_str(),
                " binary=",
                action.binary.as_str(),
                " method=",
                action.method.as_str(),
                " path=",
                action.path.as_str(),
            )
        },
    }
}

/// What a commit point answers a decision: nothing where the change may be
/// applied, else why it may not.
pub open spec fn applied_verdict(decision: DecisionView) -> Result<(), StatusView> {
    match decision {
        DecisionView::Unmanaged => Ok(()),
        DecisionView::Apply => Ok(()),
        DecisionView::Ask { reason, counterexample } => Err(
            status(Code::FailedPrecondition, message_of(reason, counterexample)),
        ),
        DecisionView::Reject { reason, counterexample } => Err(
            status(Code::PermissionDenied, message_of(reason, counterexample)),
        ),
    }
}

/// Lets a change pass a commit point only where it is to be applied.
pub fn require_applied(decision: AdmissionDecision) -> (r: Result<(), Status>)
    ensures
        shown(r) == applied_verdict(decision.deep_view()),
{
    match decision {
        AdmissionDecision::Unmanaged => Ok(()),
        AdmissionDecision::Apply => Ok(()),
        AdmissionDecision::Ask { reason, counterexample } => Err(
            Status::new(
                Code::FailedPrecondition,
                decision_message(reason.as_str(), counterexample.as_ref()),
            ),
        ),
        AdmissionDecision::Reject { reason, counterexample } => Err(
            Status::new(
                Code::PermissionDenied,
                decision_message(reason.as_str(), counterexample.as_ref()),
            ),
        ),
    }
}

/// A policy in force for a sandbox, where `parsed` is what reading its YAML text
/// gave.
pub fn parse_effective_policy(parsed: Result<PolicyFile, String>) -> (r: Result<
    PolicyModel,
    Status,
>)
    ensures
        match parsed {
            Ok(file) => r matches Ok(model) && model.deep_view() == model_of(file),
            Err(_) => r matches Err(error) && error.deep_view() == status(
                Code::Internal,
                "parse candidate policy failed: parsing policy YAML"@,
            ),
        },
{
    match parse_policy_str(parsed) {
        Ok(model) => Ok(model),
        Err(_) => Err(
            Status::new(
                Code::Internal,
                "parse candidate policy failed: parsing policy YAML".to_owned(),
            ),
        ),
    }
}

/// A change to a sandbox's authority under a managed maximum. Its policies are
/// fully composed.
pub struct ManagedAuthorityRequest<'a> {
    pub mode: Option<PermissionMode>,
    pub source: AdmissionSource,
    pub sandbox_id: &'a str,
    pub sandbox_name: &'a str,
    pub current: Option<&'a PolicyModel>,
    pub candidate: &'a PolicyModel,
    pub requested_delta: &'a PolicyModel,
}

/// What a managed change is answered: an error where the sandbox has no mode, and
/// otherwise the admission decision with what it was made under.
pub open spec fn authority_fits(
    config: ConfigView,
    mode: Option<PermissionMode>,
    source: AdmissionSource,
    current: Option<PolicyView>,
    candidate: PolicyView,
    requested_delta: PolicyView,
    result: Result<DecisionView, StatusView>,
) -> bool {
    match mode {
        None => result == Err::<DecisionView, StatusView>(
            status(
                Code::FailedPrecondition,
                "sandbox is missing its immutable managed permission mode; recreate the sandbox"@,
            ),
        ),
        Some(mode) => exists|decision: DecisionView|
            #[trigger] admission_fits(
                Some(boundary_of(config)),
                mode,
                source,
                current,
                candidate,
                requested_delta,
                decision,
            ) && result == Ok::<DecisionView, StatusView>(
                in_context(decision, decision_context(config, mode, source)),
            ),
    }
}

/// Decides on a change to a sandbox's authority.
pub fn decide_managed_authority(
    config: Option<&ManagedPolicyConfig>,
    request: &ManagedAuthorityRequest<'_>,
) -> (r: Result<AdmissionDecision, Status>)
    requires
        (config is Some && request.mode is Some) ==> admissible(
            Some(boundary_of(config->0.deep_view())),
            request.mode->0,
            request.source,
            request.current.deep_view(),
            request.candidate.deep_view(),
            request.requested_delta.deep_view(),
        ),
    ensures
        match config {
            None => shown(r) == Ok::<DecisionView, StatusView>(DecisionView::Unmanaged),
            Some(config) => authority_fits(
                config.deep_view(),
                request.mode,
                request.source,
                request.current.deep_view(),
                request.candidate.deep_view(),
                request.requested_delta.deep_view(),
                shown(r),
            ),
        },
{
    let config = match config {
        Some(config) => config,
        None => {
            return Ok(AdmissionDecision::Unmanaged);
        },
    };
    let mode = match request.mode {
        Some(mode) => mode,
        None => {
            return Err(
                Status::new(
                    Code::FailedPrecondition,
                    "sandbox is missing its immutable managed permission mode; recreate the sandbox".to_owned(),
                ),
            );
        },
    };
    let boundary = config.boundary();
    let decision = admit_candidate(
        Some(&boundary),
        mode,
        request.source,
        request.current,
        request.candidate,
        request.requested_delta,
    );
    let ghost made = decision.deep_view();
    assert(admission_fits(
        Some(boundary_of(config.deep_view())),
        mode,
        request.source,
        request.current.deep_view(),
        request.candidate.deep_view(),
        request.requested_delta.deep_view(),
        made,
    ));
    Ok(add_decision_context(decision, config, mode, request.source))
}

// ---------------------------------------------------------------------------
// Audit
// ---------------------------------------------------------------------------

/// How grave an audited event is.
#[derive(Debug, Clone, Copy, PartialEq, Eq, Structural)]
pub enum Severity {
    Informational,
    Medium,
}

/// An audited change of the gateway's configuration or of a sandbox's authority.
#[derive(Debug, Clone, PartialEq, Eq)]
pub struct ConfigStateChange {
    pub sandbox_id: String,
    pub sandbox_name: String,
    pub container_image: String,
    pub hostname: String,
    pub state: String,
    pub severity: Severity,
    pub succeeded: bool,
    pub message: String,
    pub unmapped: Vec<(String, String)>,
}

/// The content of an audited change.
#[verifier::ext_equal]
pub struct ChangeView {
    pub sandbox_id: Seq<char>,
    pub sandbox_name: Seq<char>,
    pub container_image: Seq<char>,
    pub hostname: Seq<char>,
    pub state: Seq<char>,
    pub severity: Severity,
    pub succeeded: bool,
    pub message: Seq<char>,
    pub unmapped: Seq<(Seq<char>, Seq<char>)>,
}

impl DeepView for ConfigStateChange {
    type V = ChangeView;

    open spec fn deep_view(&self) -> ChangeView {
        ChangeView {
            sandbox_id: self.sandbox_id@,
            sandbox_name: self.sandbox_name@,
            container_image: self.container_image@,
            hostname: self.hostname@,
            state: self.state@,
            severity: self.severity,
            succeeded: self.succeeded,
            message: self.message@,
            unmapped: self.unmapped.deep_view(),
        }
    }
}

/// The name of a decision.
pub open spec fn decision_name(decision: DecisionView) -> Seq<char> {
    match decision {
        DecisionView::Unmanaged => "unmanaged"@,
        DecisionView::Apply => "apply"@,
        DecisionView::Ask { .. } => "ask"@,
        DecisionView::Reject { .. } => "reject"@,
    }
}

/// Why a decision was made.
pub open spec fn decision_reason(decision: DecisionView) -> Seq<char> {
    match decision {
        DecisionView::Ask { reason, counterexample } => message_of(reason, counterexample),
        DecisionView::Reject { reason, counterexample } => message_of(reason, counterexample),
        _ => "candidate is within the managed maximum"@,
    }
}

/// The audit record of a decision. An unmanaged change leaves none.
pub open spec fn admission_record(
    sandbox_id: Seq<char>,
    sandbox_name: Seq<char>,
    config: ConfigView,
    mode: PermissionMode,
    source: AdmissionSource,
    decision: DecisionView,
) -> Option<ChangeView> {
    if decision is Unmanaged {
        None
    } else {
        let name = decision_name(decision);
        Some(
            ChangeView {
                sandbox_id,
                sandbox_name,
                container_image: "openshell/gateway"@,
                hostname: "openshell-gateway"@,
                state: name,
                severity: if decision is Reject {
                    Severity::Medium
                } else {
                    Severity::Informational
                },
                succeeded: !(decision is Reject),
                message: "managed admission "@ + name + ": "@ + decision_reason(decision),
                unmapped: seq![
                    ("managed_policy_id"@, config.id),
                    ("managed_policy_version"@, text::decimal(config.version as nat)),
                    ("managed_audit_label"@, config.audit_label),
                    ("permission_mode"@, mode.name()),
                    ("source"@, source.name()),
                    ("decision"@, name),
                ],
            },
        )
    }
}

fn pair(key: &str, value: &str) -> (r: (String, String))
    ensures
        r.deep_view() == (key@, value@),
{
    (key.to_owned(), value.to_owned())
}

/// The audit record of a decision.
pub fn managed_admission_audit(
    sandbox_id: &str,
    sandbox_name: &str,
    config: &ManagedPolicyConfig,
    mode: PermissionMode,
    source: AdmissionSource,
    decision: &AdmissionDecision,
) -> (r: Option<ConfigStateChange>)
    ensures
        r.deep_view() == admission_record(
            sandbox_id@,
            sandbox_name@,
            config.deep_view(),
            mode,
            source,
            decision.deep_view(),
        ),
{
    let (name, reason, severity, succeeded) = match decision {
        AdmissionDecision::Unmanaged => {
            return None;
        },
        AdmissionDecision::Apply => (
            "apply",
            "candidate is within the managed maximum".to_owned(),
            Severity::Informational,
            true,
        ),
        AdmissionDecision::Ask { reason, counterexample } => (
            "ask",
            decision_message(reason.as_str(), counterexample.as_ref()),
            Severity::Informational,
            true,
        ),
        AdmissionDecision::Reject { reason, counterexample } => (
            "reject",
            decision_message(reason.as_str(), counterexample.as_ref()),
            Severity::Medium,
            false,
        ),
    };
    let version = text::decimal_of(config.version);
    let mut unmapped: Vec<(String, String)> = Vec::new();
    unmapped.push(pair("managed_policy_id", config.id.as_str()));
    unmapped.push(pair("managed_policy_version", version.as_str()));
    unmapped.push(pair("managed_audit_label", config.audit_label.as_str()));
    unmapped.push(pair("permission_mode", mode.as_str()));
    unmapped.push(pair("source", source.as_str()));
    unmapped.push(pair("decision", name));
    let record = ConfigStateChange {
        sandbox_id: sandbox_id.to_owned(),
        sandbox_name: sandbox_name.to_owned(),
        container_image: "openshell/gateway".to_owned(),
        hostname: "openshell-gateway".to_owned(),
        state: name.to_owned(),
        severity,
        succeeded,
        message: cat4("managed admission ", name, ": ", reason.as_str()),
        unmapped,
    };
    proof {
        let expected = admission_record(
            sandbox_id@,
            sandbox_name@,
            config.deep_view(),
            mode,
            source,
            decision.deep_view(),
        )->0;
        assert(record.deep_view().unmapped =~= expected.unmapped);
    }
    Some(record)
}

/// The audit record of a change to the managed maximum.
pub open spec fn config_record(
    action: Seq<char>,
    config: ConfigView,
    policy_hash: Seq<char>,
) -> ChangeView {
    ChangeView {
        sandbox_id: Seq::empty(),
        sandbox_name: Seq::empty(),
        container_image: "openshell/gateway"@,
        hostname: "openshell-gateway"@,
        state: action,
        severity: Severity::Informational,
        succeeded: true,
        message: "managed maximum "@ + action + ": "@ + config.id + "@"@ + text::decimal(
            config.version as nat,
        ),
        unmapped: seq![
            ("managed_policy_id"@, config.id),
            ("managed_policy_version"@, text::decimal(config.version as nat)),
            ("managed_audit_label"@, config.audit_label),
            ("policy_hash"@, policy_hash),
        ],
    }
}

/// The audit record of a change to the managed maximum.
pub fn managed_config_audit(action: &str, config: &ManagedPolicyConfig, policy_hash: &str) -> (r:
    ConfigStateChange)
    ensures
        r.deep_view() == config_record(action@, config.deep_view(), policy_hash@),
{
    let version = text::decimal_of(config.version);
    let mut unmapped: Vec<(String, String)> = Vec::new();
    unmapped.push(pair("managed_policy_id", config.id.as_str()));
    unmapped.push(pair("managed_policy_version", version.as_str()));
    unmapped.push(pair("managed_audit_label", config.audit_label.as_str()));
    unmapped.push(pair("policy_hash", policy_hash));
    let record = ConfigStateChange {
        sandbox_id: String::new(),
        sandbox_name: String::new(),
        container_image: "openshell/gateway".to_owned(),
        hostname: "openshell-gateway".to_owned(),
        state: action.to_owned(),
        severity: Severity::Informational,
        succeeded: true,
        message: text::cat6(
            "managed maximum ",
            action,
            ": ",
            config.id.as_str(),
            "@",
            version.as_str(),
        ),
        unmapped,
    };
    proof {
        let expected = config_record(action@, config.deep_view(), policy_hash@);
        assert(record.deep_view().unmapped =~= expected.unmapped);
        assert(record.sandbox_id@ =~= Seq::empty());
        assert(record.sandbox_name@ =~= Seq::empty());
    }
    record
}

/// A change that was rejected is audited as a failure, and only such a change.
pub proof fn law_rejections_are_audited(
    sandbox_id: Seq<char>,
    sandbox_name: Seq<char>,
    config: ConfigView,
    mode: PermissionMode,
    source: AdmissionSource,
    decision: DecisionView,
)
    ensures
        decision is Reject <==> (admission_record(
            sandbox_id,
            sandbox_name,
            config,
            mode,
            source,
            decision,
        ) matches Some(record) && !record.succeeded),
        applied_verdict(decision) matches Err(error) && error.code == Code::PermissionDenied
            <==> decision is Reject,
{
}

} // verus!
