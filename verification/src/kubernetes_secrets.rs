//! Credentials that are kept in Kubernetes Secret objects.

use crate::digest::{hex_encode, hex_text, sha256, sha256_of, utf8_text};
use crate::ordered;
use crate::outcome::shown;
use crate::status::{status, Code, Status, StatusView};
use crate::text;
use crate::text::{cat2, cat3, cat4, cat5};
use vstd::prelude::*;
use vstd::string::StrSliceExecFns;
use vstd::utf8::{encode_utf8, valid_utf8};

pub mod laws;
pub mod resolution;

verus! {

/// The version that handles start with.
pub const HANDLE_VERSION: &'static str = "v1";

/// The name of the driver.
pub const NAME: &'static str = "kubernetes-secrets";

/// The configuration of the driver, as it was decoded.
#[derive(Debug, Clone, PartialEq, Eq)]
pub struct KubernetesSecretsDriverConfig {
    pub namespace: Option<String>,
    pub allow_reference_namespace: bool,
}

/// The settings of the driver.
#[derive(Debug, Clone, PartialEq, Eq)]
pub struct KubernetesSecretsDriverSettings {
    pub namespace: String,
    pub allow_reference_namespace: bool,
}

/// The content of a configuration.
pub struct DriverConfigView {
    pub namespace: Option<Seq<char>>,
    pub allow_reference_namespace: bool,
}

/// The content of settings.
pub struct SettingsView {
    pub namespace: Seq<char>,
    pub allow_reference_namespace: bool,
}

impl DeepView for KubernetesSecretsDriverConfig {
    type V = DriverConfigView;

    open spec fn deep_view(&self) -> DriverConfigView {
        DriverConfigView {
            namespace: self.namespace.deep_view(),
            allow_reference_namespace: self.allow_reference_namespace,
        }
    }
}

impl DeepView for KubernetesSecretsDriverSettings {
    type V = SettingsView;

    open spec fn deep_view(&self) -> SettingsView {
        SettingsView {
            namespace: self.namespace@,
            allow_reference_namespace: self.allow_reference_namespace,
        }
    }
}

/// Where a credential is kept.
#[derive(Debug, Clone, PartialEq, Eq)]
pub struct KubernetesSecretReference {
    pub namespace: String,
    pub secret_name: String,
    pub key: String,
}

/// The content of a reference.
pub struct ReferenceView {
    pub namespace: Seq<char>,
    pub secret_name: Seq<char>,
    pub key: Seq<char>,
}

impl DeepView for KubernetesSecretReference {
    type V = ReferenceView;

    open spec fn deep_view(&self) -> ReferenceView {
        ReferenceView {
            namespace: self.namespace@,
            secret_name: self.secret_name@,
            key: self.key@,
        }
    }
}

/// What a provider keeps to find a credential again.
#[derive(Debug, Clone, PartialEq, Eq)]
pub struct CredentialHandle {
    pub driver: String,
    pub handle: String,
    pub metadata: Vec<(String, String)>,
}

/// The content of a handle.
#[verifier::ext_equal]
pub struct HandleView {
    pub driver: Seq<char>,
    pub handle: Seq<char>,
    pub metadata: Seq<(Seq<char>, Seq<char>)>,
}

impl DeepView for CredentialHandle {
    type V = HandleView;

    open spec fn deep_view(&self) -> HandleView {
        HandleView {
            driver: self.driver@,
            handle: self.handle@,
            metadata: self.metadata.deep_view(),
        }
    }
}

/// A request to keep a credential.
#[derive(Debug, Clone, PartialEq, Eq)]
pub struct StoreCredentialRequest {
    pub provider_name: String,
    pub credential_key: String,
    pub value: String,
    pub existing_handle: Option<CredentialHandle>,
}

/// The content of a request to keep a credential.
pub struct StoreView {
    pub provider_name: Seq<char>,
    pub credential_key: Seq<char>,
    pub value: Seq<char>,
    pub existing_handle: Option<HandleView>,
}

impl DeepView for StoreCredentialRequest {
    type V = StoreView;

    open spec fn deep_view(&self) -> StoreView {
        StoreView {
            provider_name: self.provider_name@,
            credential_key: self.credential_key@,
            value: self.value@,
            existing_handle: self.existing_handle.deep_view(),
        }
    }
}

/// A Secret object that the gateway manages.
#[derive(Debug, Clone, PartialEq, Eq)]
pub struct ManagedSecret {
    pub name: String,
    pub labels: Vec<(String, String)>,
    pub string_data: Vec<(String, String)>,
    pub secret_type: String,
}

/// The content of a Secret object.
#[verifier::ext_equal]
pub struct SecretView {
    pub name: Seq<char>,
    pub labels: Seq<(Seq<char>, Seq<char>)>,
    pub string_data: Seq<(Seq<char>, Seq<char>)>,
    pub secret_type: Seq<char>,
}

impl DeepView for ManagedSecret {
    type V = SecretView;

    open spec fn deep_view(&self) -> SecretView {
        SecretView {
            name: self.name@,
            labels: self.labels.deep_view(),
            string_data: self.string_data.deep_view(),
            secret_type: self.secret_type@,
        }
    }
}

/// Why a call of the cluster's API failed: the code of its answer, where it
/// answered, and what is said of it.
#[derive(Debug, Clone, PartialEq, Eq)]
pub struct KubeFailure {
    pub code: Option<u16>,
    pub message: String,
}

/// The content of a failure.
pub struct KubeFailureView {
    pub code: Option<u16>,
    pub message: Seq<char>,
}

impl DeepView for KubeFailure {
    type V = KubeFailureView;

    open spec fn deep_view(&self) -> KubeFailureView {
        KubeFailureView { code: self.code, message: self.message@ }
    }
}

// ---------------------------------------------------------------------------
// Names
// ---------------------------------------------------------------------------

/// A character of a DNS label.
pub open spec fn is_label_char(c: char) -> bool {
    text::is_lower(c) || text::is_digit(c) || c == '-'
}

/// A DNS label: lower-case letters, digits and hyphens, with no hyphen at either
/// end.
pub open spec fn is_label(value: Seq<char>) -> bool {
    &&& 1 <= value.len() <= 63
    &&& forall|i: int| 0 <= i < value.len() ==> is_label_char(#[trigger] value[i])
    &&& text::is_alphanumeric(value[0])
    &&& text::is_alphanumeric(value.last())
}

/// All of some texts are DNS labels.
pub open spec fn all_labels(parts: Seq<Seq<char>>) -> bool {
    forall|i: int| 0 <= i < parts.len() ==> is_label(#[trigger] parts[i])
}

/// A DNS subdomain: labels with dots between them.
pub open spec fn is_subdomain(value: Seq<char>) -> bool {
    &&& 1 <= value.len() <= 253
    &&& all_labels(text::split(value, '.'))
    &&& !text::contains_text(value, ".."@)
}

/// A character of a key in a Secret's data.
pub open spec fn is_key_char(c: char) -> bool {
    text::is_alphanumeric(c) || c == '-' || c == '_' || c == '.'
}

/// A key in a Secret's data.
pub open spec fn is_data_key(value: Seq<char>) -> bool {
    &&& 1 <= value.len() <= 253
    &&& forall|i: int| 0 <= i < value.len() ==> is_key_char(#[trigger] value[i])
}

/// Tells whether a text is a DNS label.
pub fn is_dns_label(value: &str) -> (r: bool)
    ensures
        r == is_label(value@),
{
    let chars = text::chars_of(value);
    if chars.len() == 0 || chars.len() > 63 {
        return false;
    }
    let mut i: usize = 0;
    while i < chars.len()
        invariant
            i <= chars.len(),
            chars@ == value@,
            forall|j: int| 0 <= j < i ==> is_label_char(#[trigger] value@[j]),
        decreases chars.len() - i,
    {
        let c = chars[i];
        if !(('a' <= c && c <= 'z') || text::char_is_digit(c) || c == '-') {
            assert(!is_label_char(value@[i as int]));
            return false;
        }
        i += 1;
    }
    text::char_is_alphanumeric(chars[0]) && text::char_is_alphanumeric(chars[chars.len() - 1])
}

/// Tells whether a text is a DNS subdomain. A subdomain has only characters of one
/// byte, so that its length in characters is its length in bytes.
pub fn is_dns_subdomain(value: &str) -> (r: bool)
    ensures
        r == is_subdomain(value@),
{
    let n = value.unicode_len();
    if n == 0 || n > 253 {
        return false;
    }
    let parts = text::split_on(value, '.');
    let ghost list = parts.deep_view();
    let mut i: usize = 0;
    while i < parts.len()
        invariant
            i <= parts.len(),
            list == parts.deep_view(),
            list == text::split(value@, '.'),
            forall|j: int| 0 <= j < i ==> is_label(#[trigger] list[j]),
        decreases parts.len() - i,
    {
        assert(list[i as int] == parts@[i as int]@);
        if !is_dns_label(parts[i].as_str()) {
            assert(!all_labels(list));
            return false;
        }
        i += 1;
    }
    !text::contains(value, "..")
}

/// Tells whether a text is a key in a Secret's data.
pub fn is_secret_data_key(value: &str) -> (r: bool)
    ensures
        r == is_data_key(value@),
{
    let chars = text::chars_of(value);
    if chars.len() == 0 || chars.len() > 253 {
        return false;
    }
    let mut i: usize = 0;
    while i < chars.len()
        invariant
            i <= chars.len(),
            chars@ == value@,
            forall|j: int| 0 <= j < i ==> is_key_char(#[trigger] value@[j]),
        decreases chars.len() - i,
    {
        let c = chars[i];
        if !(text::char_is_alphanumeric(c) || c == '-' || c == '_' || c == '.') {
            assert(!is_key_char(value@[i as int]));
            return false;
        }
        i += 1;
    }
    true
}

/// The text that the digest of a managed Secret's name is taken of.
pub open spec fn named_bytes(provider_name: Seq<char>, credential_key: Seq<char>) -> Seq<u8> {
    encode_utf8(provider_name) + seq![0u8] + encode_utf8(credential_key)
}

/// The name of the Secret that the gateway manages for a provider's credential.
pub open spec fn secret_name_of(provider_name: Seq<char>, credential_key: Seq<char>) -> Seq<char> {
    "openshell-cred-"@ + hex_text(sha256(named_bytes(provider_name, credential_key))).take(40)
}

/// The name of a managed Secret, from the digest of what it is named after.
pub fn secret_name_from_digest(digest: &Vec<u8>) -> (r: String)
    requires
        digest.len() == 32,
    ensures
        r@ == "openshell-cred-"@ + hex_text(digest@).take(40),
{
    let digits = hex_encode(digest);
    let start = digits.as_str().substring_char(0, 40);
    assert(hex_text(digest@).subrange(0, 40) =~= hex_text(digest@).take(40));
    cat2("openshell-cred-", start)
}

/// The name of the Secret that the gateway manages for a provider's credential.
pub fn managed_secret_name(provider_name: &str, credential_key: &str) -> (r: String)
    ensures
        r@ == secret_name_of(provider_name@, credential_key@),
{
    let mut bytes = provider_name.as_bytes_vec();
    bytes.push(0);
    let mut key = credential_key.as_bytes_vec();
    bytes.append(&mut key);
    assert(bytes@ =~= named_bytes(provider_name@, credential_key@));
    let digest = sha256_of(&bytes);
    secret_name_from_digest(&digest)
}

/// The Secret that the gateway keeps a value in.
pub open spec fn secret_of(
    secret_name: Seq<char>,
    key: Seq<char>,
    value: Seq<char>,
) -> SecretView {
    SecretView {
        name: secret_name,
        labels: seq![("app.kubernetes.io/managed-by"@, "openshell"@)],
        string_data: seq![(key, value)],
        secret_type: "Opaque"@,
    }
}

/// The Secret that the gateway keeps a value in.
pub fn managed_secret(secret_name: &str, key: &str, value: &str) -> (r: ManagedSecret)
    ensures
        r.deep_view() == secret_of(secret_name@, key@, value@),
{
    let mut labels: Vec<(String, String)> = Vec::new();
    labels.push(("app.kubernetes.io/managed-by".to_owned(), "openshell".to_owned()));
    let mut string_data: Vec<(String, String)> = Vec::new();
    string_data.push((key.to_owned(), value.to_owned()));
    assert(labels.deep_view() =~= seq![("app.kubernetes.io/managed-by"@, "openshell"@)]);
    assert(string_data.deep_view() =~= seq![(key@, value@)]);
    ManagedSecret {
        name: secret_name.to_owned(),
        labels,
        string_data,
        secret_type: "Opaque".to_owned(),
    }
}

// ---------------------------------------------------------------------------
// Settings
// ---------------------------------------------------------------------------

/// What the messages about settings start with.
pub const SETTINGS_SECTION: &'static str = "[openshell.credential_drivers.kubernetes-secrets] ";

/// A value of the configuration, which is neither blank nor has space around it.
pub open spec fn trimmed_setting(field_name: Seq<char>, value: Seq<char>) -> Result<
    Seq<char>,
    Seq<char>,
> {
    if text::trimmed(value).len() == 0 {
        Err(SETTINGS_SECTION@ + field_name + " must not be empty"@)
    } else if text::trimmed(value).len() != value.len() {
        Err(
            SETTINGS_SECTION@ + field_name
                + " must not contain leading or trailing whitespace"@,
        )
    } else {
        Ok(text::trimmed(value))
    }
}

/// The namespace where none is configured: that of the service account, where its
/// file holds one, or else `default`.
pub open spec fn namespace_or_default(account: Option<Seq<char>>) -> Seq<char> {
    match account {
        Some(content) => if is_label(text::trimmed(content)) {
            text::trimmed(content)
        } else {
            "default"@
        },
        None => "default"@,
    }
}

/// The settings, from what decoding the configuration gave and from what the
/// service account's file holds.
pub open spec fn settings_of(
    parsed: Result<DriverConfigView, Seq<char>>,
    account: Option<Seq<char>>,
) -> Result<SettingsView, Seq<char>> {
    match parsed {
        Err(problem) => Err(
            "invalid [openshell.credential_drivers.kubernetes-secrets]: "@ + problem,
        ),
        Ok(config) => match config.namespace {
            None => Ok(
                SettingsView {
                    namespace: namespace_or_default(account),
                    allow_reference_namespace: config.allow_reference_namespace,
                },
            ),
            Some(given) => match trimmed_setting("namespace"@, given) {
                Err(message) => Err(message),
                Ok(namespace) => if is_label(namespace) {
                    Ok(
                        SettingsView {
                            namespace,
                            allow_reference_namespace: config.allow_reference_namespace,
                        },
                    )
                } else {
                    Err(SETTINGS_SECTION@ + "namespace must be a Kubernetes namespace name"@)
                },
            },
        },
    }
}

/// A value of the configuration, which is neither blank nor has space around it.
pub fn trimmed_config_string<'a>(field_name: &str, value: &'a str) -> (r: Result<&'a str, String>)
    ensures
        shown(r) == trimmed_setting(field_name@, value@),
{
    let trimmed = text::trim(value);
    if trimmed.is_empty() {
        return Err(cat3(SETTINGS_SECTION, field_name, " must not be empty"));
    }
    if trimmed.unicode_len() != value.unicode_len() {
        return Err(
            cat3(
                SETTINGS_SECTION,
                field_name,
                " must not contain leading or trailing whitespace",
            ),
        );
    }
    Ok(trimmed)
}

/// The namespace where none is configured, from what the service account's file
/// holds.
pub fn default_namespace(account: Option<&str>) -> (r: String)
    ensures
        r@ == namespace_or_default(account.deep_view()),
{
    if let Some(content) = account {
        let namespace = text::trim(content);
        if is_dns_label(namespace) {
            return namespace.to_owned();
        }
    }
    "default".to_owned()
}

impl KubernetesSecretsDriverSettings {
    /// The settings, from what decoding the configuration gave and from what the
    /// service account's file holds.
    pub fn from_table(
        parsed: Result<KubernetesSecretsDriverConfig, String>,
        account: Option<&str>,
    ) -> (r: Result<KubernetesSecretsDriverSettings, String>)
        ensures
            shown(r) == settings_of(shown(parsed), account.deep_view()),
    {
        let config = match parsed {
            Ok(config) => config,
            Err(problem) => {
                return Err(
                    cat2(
                        "invalid [openshell.credential_drivers.kubernetes-secrets]: ",
                        problem.as_str(),
                    ),
                );
            },
        };
        let namespace = match &config.namespace {
            Some(given) => {
                let namespace = match trimmed_config_string("namespace", given.as_str()) {
                    Ok(namespace) => namespace,
                    Err(message) => {
                        return Err(message);
                    },
                };
                if !is_dns_label(namespace) {
                    return Err(
                        cat2(SETTINGS_SECTION, "namespace must be a Kubernetes namespace name"),
                    );
                }
                namespace.to_owned()
            },
            None => default_namespace(account),
        };
        Ok(
            KubernetesSecretsDriverSettings {
                namespace,
                allow_reference_namespace: config.allow_reference_namespace,
            },
        )
    }
}

// ---------------------------------------------------------------------------
// Handles
// ---------------------------------------------------------------------------

/// A refusal of a request.
pub open spec fn invalid(message: Seq<char>) -> StatusView {
    status(Code::InvalidArgument, message)
}

/// What the messages about handles start with.
pub const HANDLE_PREFIX: &'static str = "kubernetes-secrets credential handle ";

/// A part of a handle, which is neither blank nor has space around it.
pub open spec fn handle_part(field_name: Seq<char>, value: Seq<char>) -> Result<
    Seq<char>,
    StatusView,
> {
    if text::trimmed(value).len() == 0 {
        Err(invalid(HANDLE_PREFIX@ + field_name + " is required"@))
    } else if text::trimmed(value).len() != value.len() {
        Err(
            invalid(
                HANDLE_PREFIX@ + field_name
                    + " must not contain leading or trailing whitespace"@,
            ),
        )
    } else {
        Ok(text::trimmed(value))
    }
}

/// What is said of a credential key that no Secret can have.
pub const BAD_KEY: &'static str = "kubernetes-secrets credential key must be a valid Kubernetes Secret data key";

/// Where the credential of a handle is kept.
pub open spec fn resolved(handle: Seq<char>, credential_key: Seq<char>) -> Result<
    ReferenceView,
    StatusView,
> {
    let parts = text::split(handle, ':');
    if parts.len() != 3 || parts[0] != HANDLE_VERSION@ {
        Err(invalid("kubernetes-secrets credential handle is malformed"@))
    } else {
        match handle_part("namespace"@, parts[1]) {
            Err(error) => Err(error),
            Ok(namespace) => if !is_label(namespace) {
                Err(invalid("kubernetes-secrets credential handle namespace is invalid"@))
            } else {
                match handle_part("secret"@, parts[2]) {
                    Err(error) => Err(error),
                    Ok(secret_name) => if !is_subdomain(secret_name) {
                        Err(
                            invalid(
                                "kubernetes-secrets credential handle Secret name is invalid"@,
                            ),
                        )
                    } else {
                        match handle_part("credential_key"@, credential_key) {
                            Err(error) => Err(error),
                            Ok(key) => if !is_data_key(key) {
                                Err(invalid(BAD_KEY@))
                            } else {
                                Ok(ReferenceView { namespace, secret_name, key })
                            },
                        }
                    },
                }
            },
        }
    }
}

/// A part of a handle, which is neither blank nor has space around it.
pub fn required_handle_component<'a>(field_name: &str, value: &'a str) -> (r: Result<
    &'a str,
    Status,
>)
    ensures
        shown(r) == handle_part(field_name@, value@),
{
    let trimmed = text::trim(value);
    if trimmed.is_empty() {
        return Err(
            Status::new(
                Code::InvalidArgument,
                cat3(HANDLE_PREFIX, field_name, " is required"),
            ),
        );
    }
    if trimmed.unicode_len() != value.unicode_len() {
        return Err(
            Status::new(
                Code::InvalidArgument,
                cat3(
                    HANDLE_PREFIX,
                    field_name,
                    " must not contain leading or trailing whitespace",
                ),
            ),
        );
    }
    Ok(trimmed)
}

/// Where a new credential is kept: where its existing handle says, or else in a
/// Secret that the gateway manages. `managed_name` is that Secret's name.
pub open spec fn store_target(
    request: StoreView,
    settings: SettingsView,
    managed_name: Seq<char>,
) -> Result<ReferenceView, StatusView> {
    let chosen = match request.existing_handle {
        Some(handle) => resolved(handle.handle, request.credential_key),
        None => match handle_part("credential_key"@, request.credential_key) {
            Err(error) => Err(error),
            Ok(key) => Ok(
                ReferenceView { namespace: settings.namespace, secret_name: managed_name, key },
            ),
        },
    };
    match chosen {
        Err(error) => Err(error),
        Ok(reference) => if is_data_key(reference.key) {
            Ok(reference)
        } else {
            Err(invalid(BAD_KEY@))
        },
    }
}

/// The handle under which a credential is found again.
pub open spec fn handle_of(reference: ReferenceView) -> HandleView {
    HandleView {
        driver: NAME@,
        handle: HANDLE_VERSION@ + ":"@ + reference.namespace + ":"@ + reference.secret_name,
        metadata: Seq::empty(),
    }
}

// ---------------------------------------------------------------------------
// Answers of the cluster
// ---------------------------------------------------------------------------

/// A Secret, as messages name it.
pub open spec fn secret_text(secret_name: Seq<char>, namespace: Seq<char>) -> Seq<char> {
    "Kubernetes Secret '"@ + secret_name + "' in namespace '"@ + namespace + "'"@
}

/// What is said of a Secret that could not be read.
pub open spec fn read_problem(
    namespace: Seq<char>,
    secret_name: Seq<char>,
    failure: KubeFailureView,
) -> StatusView {
    if failure.code == Some(404u16) {
        status(Code::NotFound, secret_text(secret_name, namespace) + " was not found"@)
    } else if failure.code == Some(403u16) {
        status(
            Code::PermissionDenied,
            "gateway is not allowed to read "@ + secret_text(secret_name, namespace),
        )
    } else {
        status(
            Code::Unavailable,
            "failed to read "@ + secret_text(secret_name, namespace) + ": "@ + failure.message,
        )
    }
}

/// What is said of a Secret that could not be written.
pub open spec fn write_problem(
    namespace: Seq<char>,
    secret_name: Seq<char>,
    failure: KubeFailureView,
) -> StatusView {
    if failure.code == Some(403u16) {
        status(
            Code::PermissionDenied,
            "gateway is not allowed to write "@ + secret_text(secret_name, namespace),
        )
    } else {
        status(
            Code::Unavailable,
            "failed to write "@ + secret_text(secret_name, namespace) + ": "@ + failure.message,
        )
    }
}

/// What deleting a Secret came to. One that is not there counts as deleted.
pub open spec fn delete_outcome(
    reference: ReferenceView,
    outcome: Result<(), KubeFailureView>,
) -> Result<(), StatusView> {
    match outcome {
        Ok(_) => Ok(()),
        Err(failure) => if failure.code == Some(404u16) {
            Ok(())
        } else if failure.code == Some(403u16) {
            Err(
                status(
                    Code::PermissionDenied,
                    "gateway is not allowed to delete "@ + secret_text(
                        reference.secret_name,
                        reference.namespace,
                    ),
                ),
            )
        } else {
            Err(
                status(
                    Code::Unavailable,
                    "failed to delete "@ + secret_text(reference.secret_name, reference.namespace)
                        + ": "@ + failure.message,
                ),
            )
        },
    }
}

fn secret_words(secret_name: &str, namespace: &str) -> (r: String)
    ensures
        r@ == secret_text(secret_name@, namespace@),
{
    cat5("Kubernetes Secret '", secret_name, "' in namespace '", namespace, "'")
}

/// What is said of a Secret that could not be read.
pub fn kube_error_to_status(namespace: &str, secret_name: &str, failure: &KubeFailure) -> (r:
    Status)
    ensures
        r.deep_view() == read_problem(namespace@, secret_name@, failure.deep_view()),
{
    let secret = secret_words(secret_name, namespace);
    if failure.code == Some(404) {
        Status::new(Code::NotFound, cat2(secret.as_str(), " was not found"))
    } else if failure.code == Some(403) {
        Status::new(
            Code::PermissionDenied,
            cat2("gateway is not allowed to read ", secret.as_str()),
        )
    } else {
        Status::new(
            Code::Unavailable,
            cat4("failed to read ", secret.as_str(), ": ", failure.message.as_str()),
        )
    }
}

/// What is said of a Secret that could not be written.
pub fn kube_write_error_to_status(namespace: &str, secret_name: &str, failure: &KubeFailure) -> (r:
    Status)
    ensures
        r.deep_view() == write_problem(namespace@, secret_name@, failure.deep_view()),
{
    let secret = secret_words(secret_name, namespace);
    if failure.code == Some(403) {
        Status::new(
            Code::PermissionDenied,
            cat2("gateway is not allowed to write ", secret.as_str()),
        )
    } else {
        Status::new(
            Code::Unavailable,
            cat4("failed to write ", secret.as_str(), ": ", failure.message.as_str()),
        )
    }
}

/// What comes after a Secret was to be created.
#[derive(Debug, Clone, PartialEq, Eq)]
pub enum StoreStep {
    /// It was created.
    Done,
    /// It is there already: merge the new value into it.
    Merge,
    /// It could not be created.
    Failed(Status),
}

/// The content of what comes next.
pub enum StepView {
    Done,
    Merge,
    Failed(StatusView),
}

impl DeepView for StoreStep {
    type V = StepView;

    open spec fn deep_view(&self) -> StepView {
        match self {
            StoreStep::Done => StepView::Done,
            StoreStep::Merge => StepView::Merge,
            StoreStep::Failed(status) => StepView::Failed(status.deep_view()),
        }
    }
}

/// What comes after a Secret was to be created.
pub open spec fn after_creation(
    reference: ReferenceView,
    outcome: Result<(), KubeFailureView>,
) -> StepView {
    match outcome {
        Ok(_) => StepView::Done,
        Err(failure) => if failure.code == Some(409u16) {
            StepView::Merge
        } else {
            StepView::Failed(write_problem(reference.namespace, reference.secret_name, failure))
        },
    }
}

/// The content of a Secret's data.
pub open spec fn data_view(data: Option<Vec<(String, Vec<u8>)>>) -> Option<
    Seq<(Seq<char>, Seq<u8>)>,
> {
    match data {
        Some(entries) => Some(entries.deep_view()),
        None => None,
    }
}

/// The value of a reference in its Secret's data.
pub open spec fn value_of(
    reference: ReferenceView,
    data: Option<Seq<(Seq<char>, Seq<u8>)>>,
) -> Result<Seq<u8>, StatusView> {
    let secret = secret_text(reference.secret_name, reference.namespace);
    match data {
        None => Err(status(Code::NotFound, secret + " has no data"@)),
        Some(entries) => match ordered::lookup(entries, reference.key) {
            None => Err(
                status(
                    Code::NotFound,
                    secret + " does not contain key '"@ + reference.key + "'"@,
                ),
            ),
            Some(bytes) => if valid_utf8(bytes) {
                Ok(bytes)
            } else {
                Err(
                    status(
                        Code::InvalidArgument,
                        secret + " key '"@ + reference.key + "' is not valid UTF-8"@,
                    ),
                )
            },
        },
    }
}

// ---------------------------------------------------------------------------
// The driver
// ---------------------------------------------------------------------------

/// The driver, apart from its connection to the cluster.
#[derive(Debug, Clone, PartialEq, Eq)]
pub struct KubernetesSecretsCredentialDriver {
    pub settings: KubernetesSecretsDriverSettings,
}

impl KubernetesSecretsCredentialDriver {
    /// The driver with the settings of a configuration.
    pub fn from_config(
        parsed: Result<KubernetesSecretsDriverConfig, String>,
        account: Option<&str>,
    ) -> (r: Result<KubernetesSecretsCredentialDriver, String>)
        ensures
            match settings_of(shown(parsed), account.deep_view()) {
                Ok(settings) => r matches Ok(driver) && driver.settings.deep_view() == settings,
                Err(message) => r matches Err(problem) && problem@ == message,
            },
    {
        match KubernetesSecretsDriverSettings::from_table(parsed, account) {
            Ok(settings) => Ok(KubernetesSecretsCredentialDriver { settings }),
            Err(message) => Err(message),
        }
    }

    /// The handle of a request, which must have one.
    pub fn handle_from_request(request_id: &str, handle: Option<CredentialHandle>) -> (r: Result<
        CredentialHandle,
        Status,
    >)
        ensures
            shown(r) == (match handle.deep_view() {
                Some(handle) => Ok(handle),
                None => Err(
                    invalid(
                        "kubernetes-secrets credential request '"@ + request_id@
                            + "' is missing handle"@,
                    ),
                ),
            }),
    {
        match handle {
            Some(handle) => Ok(handle),
            None => Err(
                Status::new(
                    Code::InvalidArgument,
                    cat3(
                        "kubernetes-secrets credential request '",
                        request_id,
                        "' is missing handle",
                    ),
                ),
            ),
        }
    }

    /// Where the credential of a handle is kept.
    pub fn resolve_handle(handle: &CredentialHandle, credential_key: &str) -> (r: Result<
        KubernetesSecretReference,
        Status,
    >)
        ensures
            shown(r) == resolved(handle.deep_view().handle, credential_key@),
    {
        let parts = text::split_on(handle.handle.as_str(), ':');
        let ghost list = parts.deep_view();
        proof {
            assert(list.len() == parts.len());
        }
        if parts.len() != 3 {
            return Err(
                Status::new(
                    Code::InvalidArgument,
                    "kubernetes-secrets credential handle is malformed".to_owned(),
                ),
            );
        }
        proof {
            assert(list[0] == parts@[0]@ && list[1] == parts@[1]@ && list[2] == parts@[2]@);
        }
        if !text::same(parts[0].as_str(), HANDLE_VERSION) {
            return Err(
                Status::new(
                    Code::InvalidArgument,
                    "kubernetes-secrets credential handle is malformed".to_owned(),
                ),
            );
        }
        let namespace = match required_handle_component("namespace", parts[1].as_str()) {
            Ok(namespace) => namespace,
            Err(error) => {
                return Err(error);
            },
        };
        if !is_dns_label(namespace) {
            return Err(
                Status::new(
                    Code::InvalidArgument,
                    "kubernetes-secrets credential handle namespace is invalid".to_owned(),
                ),
            );
        }
        let secret_name = match required_handle_component("secret", parts[2].as_str()) {
            Ok(secret_name) => secret_name,
            Err(error) => {
                return Err(error);
            },
        };
        if !is_dns_subdomain(secret_name) {
            return Err(
                Status::new(
                    Code::InvalidArgument,
                    "kubernetes-secrets credential handle Secret name is invalid".to_owned(),
                ),
            );
        }
        let key = match required_handle_component("credential_key", credential_key) {
            Ok(key) => key,
            Err(error) => {
                return Err(error);
            },
        };
        if !is_secret_data_key(key) {
            return Err(Status::new(Code::InvalidArgument, BAD_KEY.to_owned()));
        }
        Ok(
            KubernetesSecretReference {
                namespace: namespace.to_owned(),
                secret_name: secret_name.to_owned(),
                key: key.to_owned(),
            },
        )
    }

    /// Where a new credential is kept, given the name of the Secret that the
    /// gateway manages for it.
    pub fn choose_target(&self, request: &StoreCredentialRequest, managed_name: &str) -> (r: Result<
        KubernetesSecretReference,
        Status,
    >)
        ensures
            shown(r) == store_target(
                request.deep_view(),
                self.settings.deep_view(),
                managed_name@,
            ),
    {
        let reference = match &request.existing_handle {
            Some(handle) => match KubernetesSecretsCredentialDriver::resolve_handle(
                handle,
                request.credential_key.as_str(),
            ) {
                Ok(reference) => reference,
                Err(error) => {
                    return Err(error);
                },
            },
            None => match required_handle_component(
                "credential_key",
                request.credential_key.as_str(),
            ) {
                Ok(key) => KubernetesSecretReference {
                    namespace: self.settings.namespace.clone(),
                    secret_name: managed_name.to_owned(),
                    key: key.to_owned(),
                },
                Err(error) => {
                    return Err(error);
                },
            },
        };
        if !is_secret_data_key(reference.key.as_str()) {
            return Err(Status::new(Code::InvalidArgument, BAD_KEY.to_owned()));
        }
        Ok(reference)
    }

    /// The first step of keeping a credential: where it is kept.
    pub fn store_credential(&self, request: &StoreCredentialRequest) -> (r: Result<
        KubernetesSecretReference,
        Status,
    >)
        ensures
            shown(r) == store_target(
                request.deep_view(),
                self.settings.deep_view(),
                secret_name_of(request.provider_name@, request.credential_key@),
            ),
    {
        let managed_name = managed_secret_name(
            request.provider_name.as_str(),
            request.credential_key.as_str(),
        );
        self.choose_target(request, managed_name.as_str())
    }

    /// The second step of keeping a credential: what comes after its Secret was to
    /// be created.
    pub fn store_secret_value(
        reference: &KubernetesSecretReference,
        outcome: &Result<(), KubeFailure>,
    ) -> (r: StoreStep)
        ensures
            r.deep_view() == after_creation(reference.deep_view(), shown(*outcome)),
    {
        match outcome {
            Ok(_) => StoreStep::Done,
            Err(failure) => {
                if failure.code == Some(409) {
                    StoreStep::Merge
                } else {
                    StoreStep::Failed(
                        kube_write_error_to_status(
                            reference.namespace.as_str(),
                            reference.secret_name.as_str(),
                            failure,
                        ),
                    )
                }
            },
        }
    }

    /// The handle under which a credential is found again.
    pub fn handle_for(reference: &KubernetesSecretReference) -> (r: CredentialHandle)
        ensures
            r.deep_view() == handle_of(reference.deep_view()),
    {
        let metadata: Vec<(String, String)> = Vec::new();
        assert(metadata.deep_view() =~= Seq::empty());
        CredentialHandle {
            driver: NAME.to_owned(),
            handle: cat5(
                HANDLE_VERSION,
                ":",
                reference.namespace.as_str(),
                ":",
                reference.secret_name.as_str(),
            ),
            metadata,
        }
    }

    /// What deleting a Secret came to.
    pub fn delete_credential(
        reference: &KubernetesSecretReference,
        outcome: &Result<(), KubeFailure>,
    ) -> (r: Result<(), Status>)
        ensures
            shown(r) == delete_outcome(reference.deep_view(), shown(*outcome)),
    {
        let failure = match outcome {
            Ok(_) => {
                return Ok(());
            },
            Err(failure) => failure,
        };
        if failure.code == Some(404) {
            return Ok(());
        }
        let secret = secret_words(
            reference.secret_name.as_str(),
            reference.namespace.as_str(),
        );
        if failure.code == Some(403) {
            return Err(
                Status::new(
                    Code::PermissionDenied,
                    cat2("gateway is not allowed to delete ", secret.as_str()),
                ),
            );
        }
        Err(
            Status::new(
                Code::Unavailable,
                cat4("failed to delete ", secret.as_str(), ": ", failure.message.as_str()),
            ),
        )
    }

    /// The value of a reference in the data of the Secret that was read.
    pub fn resolve_secret_value(
        reference: &KubernetesSecretReference,
        data: &Option<Vec<(String, Vec<u8>)>>,
    ) -> (r: Result<String, Status>)
        ensures
            match value_of(reference.deep_view(), data_view(*data)) {
                Ok(bytes) => r matches Ok(value) && encode_utf8(value@) == bytes,
                Err(problem) => r matches Err(error) && error.deep_view() == problem,
            },
    {
        let secret = secret_words(
            reference.secret_name.as_str(),
            reference.namespace.as_str(),
        );
        let entries = match data {
            Some(entries) => entries,
            None => {
                return Err(Status::new(Code::NotFound, cat2(secret.as_str(), " has no data")));
            },
        };
        let bytes = match ordered::get(entries, reference.key.as_str()) {
            Some(bytes) => bytes,
            None => {
                return Err(
                    Status::new(
                        Code::NotFound,
                        cat4(
                            secret.as_str(),
                            " does not contain key '",
                            reference.key.as_str(),
                            "'",
                        ),
                    ),
                );
            },
        };
        proof {
            assert(bytes.deep_view() =~= bytes@);
        }
        match utf8_text(bytes) {
            Some(value) => Ok(value),
            None => Err(
                Status::new(
                    Code::InvalidArgument,
                    cat4(
                        secret.as_str(),
                        " key '",
                        reference.key.as_str(),
                        "' is not valid UTF-8",
                    ),
                ),
            ),
        }
    }
}

// ---------------------------------------------------------------------------
// Laws
// ---------------------------------------------------------------------------

/// A text without a separator is one part.
proof fn lemma_split_single(s: Seq<char>, c: char)
    requires
        !s.contains(c),
    ensures
        text::split(s, c) == seq![s],
    decreases s.len(),
{
    if s.len() == 0 {
        assert(s =~= Seq::empty());
        assert(text::split(s, c) =~= seq![s]);
    } else {
        let start = s.drop_last();
        assert forall|i: int| 0 <= i < start.len() implies start[i] != c by {
            assert(start[i] == s[i]);
        }
        assert(s[s.len() - 1] == s.last());
        lemma_split_single(start, c);
        assert(start.push(s.last()) =~= s);
        assert(text::split(s, c) =~= seq![s]);
    }
}

/// A separator and a part without one make one part more.
proof fn lemma_split_append(s: Seq<char>, c: char, part: Seq<char>)
    requires
        !part.contains(c),
    ensures
        text::split(s.push(c) + part, c) == text::split(s, c).push(part),
    decreases part.len(),
{
    text::lemma_split_nonempty(s, c);
    if part.len() == 0 {
        let whole = s.push(c) + part;
        assert(whole =~= s.push(c));
        assert(whole.last() == c);
        assert(whole.drop_last() =~= s);
        assert(part =~= Seq::empty());
    } else {
        let start = part.drop_last();
        assert forall|i: int| 0 <= i < start.len() implies start[i] != c by {
            assert(start[i] == part[i]);
        }
        assert(part[part.len() - 1] == part.last());
        lemma_split_append(s, c, start);
        let whole = s.push(c) + part;
        assert(whole.drop_last() =~= s.push(c) + start);
        assert(whole.last() == part.last());
        assert(start.push(part.last()) =~= part);
        assert(text::split(whole, c) =~= text::split(s, c).push(part));
    }
}

proof fn lemma_trimmed_untouched(s: Seq<char>)
    requires
        s.len() > 0,
        !text::is_space(s[0]),
        !text::is_space(s.last()),
    ensures
        text::trimmed(s) == s,
{
    reveal_with_fuel(text::trim_start, 2);
    reveal_with_fuel(text::trim_end, 2);
}

/// A DNS label has no colon, no slash and no space around it.
proof fn lemma_label(value: Seq<char>)
    requires
        is_label(value),
    ensures
        !value.contains(':'),
        !value.contains('.'),
        text::trimmed(value) == value,
{
    assert forall|i: int| 0 <= i < value.len() implies value[i] != ':' && value[i] != '.' by {
        assert(is_label_char(value[i]));
    }
    lemma_trimmed_untouched(value);
}

/// Every character of a text is one of some part between separators, or a
/// separator.
proof fn lemma_split_chars(s: Seq<char>, c: char, i: int)
    requires
        0 <= i < s.len(),
        s[i] != c,
    ensures
        exists|k: int, j: int|
            0 <= k < text::split(s, c).len() && 0 <= j < text::split(s, c)[k].len()
                && #[trigger] text::split(s, c)[k][j] == s[i],
    decreases s.len(),
{
    let start = s.drop_last();
    let before = text::split(start, c);
    let parts = text::split(s, c);
    text::lemma_split_nonempty(start, c);
    if i < start.len() {
        assert(start[i] == s[i]);
        lemma_split_chars(start, c, i);
        let (k, j) = choose|k: int, j: int|
            0 <= k < before.len() && 0 <= j < before[k].len() && #[trigger] before[k][j]
                == start[i];
        if s.last() == c {
            assert(parts[k][j] == s[i]);
        } else if k < before.len() - 1 {
            assert(parts[k] == before[k]);
            assert(parts[k][j] == s[i]);
        } else {
            assert(parts[k] == before[k].push(s.last()));
            assert(parts[k][j] == s[i]);
        }
    } else {
        let k = before.len() - 1;
        assert(parts[k] == before[k].push(s.last()));
        assert(parts[k][before[k].len() as int] == s[i]);
    }
}

/// A DNS subdomain has no colon and no space around it.
proof fn lemma_subdomain(value: Seq<char>)
    requires
        is_subdomain(value),
    ensures
        !value.contains(':'),
        text::trimmed(value) == value,
{
    let parts = text::split(value, '.');
    assert forall|i: int| 0 <= i < value.len() implies value[i] != ':' && !text::is_space(
        value[i],
    ) by {
        if value[i] != '.' {
            lemma_split_chars(value, '.', i);
            let (k, j) = choose|k: int, j: int|
                0 <= k < parts.len() && 0 <= j < parts[k].len() && #[trigger] parts[k][j]
                    == value[i];
            assert(is_label(parts[k]));
            assert(is_label_char(parts[k][j]));
        }
    }
    assert(value[0] == value[0] && value.last() == value[value.len() - 1]);
    lemma_trimmed_untouched(value);
}

/// A handle is resolved back to where its credential is kept.
pub proof fn law_handles_resolve_back(reference: ReferenceView)
    requires
        is_label(reference.namespace),
        is_subdomain(reference.secret_name),
        is_data_key(reference.key),
    ensures
        resolved(handle_of(reference).handle, reference.key) == Ok::<ReferenceView, StatusView>(
            reference,
        ),
{
    reveal_strlit(":");
    reveal_strlit("v1");
    let handle = handle_of(reference).handle;
    let namespace = reference.namespace;
    let secret_name = reference.secret_name;
    lemma_label(namespace);
    lemma_subdomain(secret_name);
    assert("v1"@ =~= seq!['v', '1']);
    assert(!"v1"@.contains(':'));
    lemma_split_single("v1"@, ':');
    lemma_split_append("v1"@, ':', namespace);
    let start = "v1"@.push(':') + namespace;
    lemma_split_append(start, ':', secret_name);
    assert(handle =~= start.push(':') + secret_name);
    let parts = text::split(handle, ':');
    assert(parts =~= seq!["v1"@, namespace, secret_name]);
    assert forall|i: int| 0 <= i < reference.key.len() implies !text::is_space(
        reference.key[i],
    ) by {
        assert(is_key_char(reference.key[i]));
    }
    lemma_trimmed_untouched(reference.key);
}

/// Two credentials with the same handle and key are kept in the same place.
pub proof fn law_handles_are_distinct(a: ReferenceView, b: ReferenceView)
    requires
        is_label(a.namespace),
        is_subdomain(a.secret_name),
        is_data_key(a.key),
        is_label(b.namespace),
        is_subdomain(b.secret_name),
        is_data_key(b.key),
        handle_of(a) == handle_of(b),
        a.key == b.key,
    ensures
        a == b,
{
    law_handles_resolve_back(a);
    law_handles_resolve_back(b);
}

/// The names of managed Secrets are DNS subdomains, whatever they are named after.
pub proof fn law_managed_names_are_subdomains(digest: Seq<u8>)
    requires
        digest.len() == 32,
    ensures
        is_subdomain("openshell-cred-"@ + hex_text(digest).take(40)),
        is_label("openshell-cred-"@ + hex_text(digest).take(40)),
{
    reveal_strlit("openshell-cred-");
    reveal_strlit("..");
    let start = "openshell-cred-"@;
    let digits = hex_text(digest).take(40);
    let name = start + digits;
    assert(start.len() == 15);
    assert(name.len() == 55);
    assert forall|i: int| 0 <= i < name.len() implies is_label_char(#[trigger] name[i]) by {
        if i >= 15 {
            let k = i - 15;
            let byte = digest[k / 2];
            assert(0 <= byte as int / 16 < 16);
            assert(0 <= byte as int % 16 < 16);
            assert(name[i] == hex_text(digest)[k]);
        } else {
            assert(name[i] == start[i]);
        }
    }
    assert(name[0] == 'o');
    let last = digest[19];
    assert(0 <= last as int / 16 < 16);
    assert(0 <= last as int % 16 < 16);
    assert(name.last() == hex_text(digest)[39]);
    assert(is_label(name));
    lemma_label(name);
    lemma_split_single(name, '.');
    assert(text::split(name, '.')[0] == name);
    if text::contains_text(name, ".."@) {
        let i = choose|i: int| #[trigger] text::holds_at(name, ".."@, i);
        assert(name.subrange(i, i + 2)[0] == '.');
        assert(name[i] == '.');
    }
}

/// Settings that were accepted name a namespace.
pub proof fn law_settings_name_a_namespace(
    parsed: Result<DriverConfigView, Seq<char>>,
    account: Option<Seq<char>>,
)
    requires
        settings_of(parsed, account) is Ok,
    ensures
        is_label(settings_of(parsed, account)->Ok_0.namespace),
{
    reveal_strlit("default");
    assert(is_label("default"@));
}

/// A credential that was kept is found again under its handle: what
/// `store_credential` chose is what `resolve_handle` gives for the handle.
pub proof fn law_stored_credentials_are_found(
    request: StoreView,
    settings: SettingsView,
    digest: Seq<u8>,
)
    requires
        is_label(settings.namespace),
        digest.len() == 32,
        store_target(
            request,
            settings,
            "openshell-cred-"@ + hex_text(digest).take(40),
        ) is Ok,
    ensures
        ({
            let reference = store_target(
                request,
                settings,
                "openshell-cred-"@ + hex_text(digest).take(40),
            )->Ok_0;
            resolved(handle_of(reference).handle, reference.key) == Ok::<
                ReferenceView,
                StatusView,
            >(reference)
        }),
{
    let name = "openshell-cred-"@ + hex_text(digest).take(40);
    let reference = store_target(request, settings, name)->Ok_0;
    law_managed_names_are_subdomains(digest);
    law_handles_resolve_back(reference);
}

} // verus!
