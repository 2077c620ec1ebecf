//! Interceptor configuration, and the manifests that interceptors describe
//! themselves with.

use crate::interceptors::payload::{Toml, TomlView};
use crate::outcome::shown;
use crate::text;
use crate::text::{cat2, cat3, cat5};
use vstd::prelude::*;

verus! {

pub const API_VERSION: &'static str = "gateway.interceptor.openshell.dev/v1";

pub const DEFAULT_MAX_PATCH_COUNT: usize = 32;

pub const PHASE_PRE_REQUEST: &'static str = "pre_request";

pub const PHASE_MODIFY_OBJECT: &'static str = "modify_object";

pub const PHASE_VALIDATE_OBJECT: &'static str = "validate_object";

pub const PHASE_VALIDATE_DRIVER: &'static str = "validate_driver";

pub const PHASE_POST_COMMIT: &'static str = "post_commit";

/// Pairs of texts, ordered by the first.
pub type TextMap = Seq<(Seq<char>, Seq<char>)>;

// ---------------------------------------------------------------------------
// Errors
// ---------------------------------------------------------------------------

/// Why an interceptor configuration is refused.
#[derive(Debug, Clone, PartialEq, Eq)]
pub enum InterceptorConfigError {
    MissingName,
    MissingEndpoint { name: String },
    DuplicateName { name: String },
    InvalidEndpoint { endpoint: String, message: String },
    InvalidTimeout { value: String },
    InvalidFailurePolicy { value: String },
    DescribeFailed { interceptor: String, message: String },
    UnsupportedApiVersion { interceptor: String, api_version: String },
    DuplicateBinding { interceptor: String, binding: String },
    MissingBindingId { interceptor: String },
    MissingPhases { interceptor: String, binding: String },
    UnknownPhase { interceptor: String, binding: String, phase: String },
    InvalidModifies { interceptor: String, binding: String },
    InvalidIgnorePolicy { interceptor: String, binding: String },
    UnknownOverrideBinding { interceptor: String, binding: String },
    OverrideExpands { interceptor: String, binding: String, field: &'static str },
    ConfigMustBeTable { interceptor: String },
}

/// The content of a configuration error.
pub enum ConfigErrorView {
    MissingName,
    MissingEndpoint { name: Seq<char> },
    DuplicateName { name: Seq<char> },
    InvalidEndpoint { endpoint: Seq<char>, message: Seq<char> },
    InvalidTimeout { value: Seq<char> },
    InvalidFailurePolicy { value: Seq<char> },
    DescribeFailed { interceptor: Seq<char>, message: Seq<char> },
    UnsupportedApiVersion { interceptor: Seq<char>, api_version: Seq<char> },
    DuplicateBinding { interceptor: Seq<char>, binding: Seq<char> },
    MissingBindingId { interceptor: Seq<char> },
    MissingPhases { interceptor: Seq<char>, binding: Seq<char> },
    UnknownPhase { interceptor: Seq<char>, binding: Seq<char>, phase: Seq<char> },
    InvalidModifies { interceptor: Seq<char>, binding: Seq<char> },
    InvalidIgnorePolicy { interceptor: Seq<char>, binding: Seq<char> },
    UnknownOverrideBinding { interceptor: Seq<char>, binding: Seq<char> },
    OverrideExpands { interceptor: Seq<char>, binding: Seq<char>, field: Seq<char> },
    ConfigMustBeTable { interceptor: Seq<char> },
}

impl DeepView for InterceptorConfigError {
    type V = ConfigErrorView;

    open spec fn deep_view(&self) -> ConfigErrorView {
        match self {
            InterceptorConfigError::MissingName => ConfigErrorView::MissingName,
            InterceptorConfigError::MissingEndpoint { name } =>
                ConfigErrorView::MissingEndpoint { name: name@ },
            InterceptorConfigError::DuplicateName { name } =>
                ConfigErrorView::DuplicateName { name: name@ },
            InterceptorConfigError::InvalidEndpoint { endpoint, message } =>
                ConfigErrorView::InvalidEndpoint { endpoint: endpoint@, message: message@ },
            InterceptorConfigError::InvalidTimeout { value } =>
                ConfigErrorView::InvalidTimeout { value: value@ },
            InterceptorConfigError::InvalidFailurePolicy { value } =>
                ConfigErrorView::InvalidFailurePolicy { value: value@ },
            InterceptorConfigError::DescribeFailed { interceptor, message } =>
                ConfigErrorView::DescribeFailed { interceptor: interceptor@, message: message@ },
            InterceptorConfigError::UnsupportedApiVersion { interceptor, api_version } =>
                ConfigErrorView::UnsupportedApiVersion {
                    interceptor: interceptor@,
                    api_version: api_version@,
                },
            InterceptorConfigError::DuplicateBinding { interceptor, binding } =>
                ConfigErrorView::DuplicateBinding { interceptor: interceptor@, binding: binding@ },
            InterceptorConfigError::MissingBindingId { interceptor } =>
                ConfigErrorView::MissingBindingId { interceptor: interceptor@ },
            InterceptorConfigError::MissingPhases { interceptor, binding } =>
                ConfigErrorView::MissingPhases { interceptor: interceptor@, binding: binding@ },
            InterceptorConfigError::UnknownPhase { interceptor, binding, phase } =>
                ConfigErrorView::UnknownPhase {
                    interceptor: interceptor@,
                    binding: binding@,
                    phase: phase@,
                },
            InterceptorConfigError::InvalidModifies { interceptor, binding } =>
                ConfigErrorView::InvalidModifies { interceptor: interceptor@, binding: binding@ },
            InterceptorConfigError::InvalidIgnorePolicy { interceptor, binding } =>
                ConfigErrorView::InvalidIgnorePolicy {
                    interceptor: interceptor@,
                    binding: binding@,
                },
            InterceptorConfigError::UnknownOverrideBinding { interceptor, binding } =>
                ConfigErrorView::UnknownOverrideBinding {
                    interceptor: interceptor@,
                    binding: binding@,
                },
            InterceptorConfigError::OverrideExpands { interceptor, binding, field } =>
                ConfigErrorView::OverrideExpands {
                    interceptor: interceptor@,
                    binding: binding@,
                    field: field@,
                },
            InterceptorConfigError::ConfigMustBeTable { interceptor } =>
                ConfigErrorView::ConfigMustBeTable { interceptor: interceptor@ },
        }
    }
}

/// An interceptor's name in a message.
pub open spec fn of_interceptor(name: Seq<char>) -> Seq<char> {
    "interceptor '"@ + name + "'"@
}

/// A binding's name in a message.
pub open spec fn of_binding(interceptor: Seq<char>, binding: Seq<char>) -> Seq<char> {
    "interceptor '"@ + interceptor + "' binding '"@ + binding + "'"@
}

/// What is said of a configuration error.
pub open spec fn config_error_text(error: ConfigErrorView) -> Seq<char> {
    match error {
        ConfigErrorView::MissingName => "interceptor name is required"@,
        ConfigErrorView::MissingEndpoint { name } => of_interceptor(name)
            + " endpoint is required"@,
        ConfigErrorView::DuplicateName { name } => "duplicate interceptor name '"@ + name + "'"@,
        ConfigErrorView::InvalidEndpoint { endpoint, message } =>
            "invalid interceptor endpoint '"@ + endpoint + "': "@ + message,
        ConfigErrorView::InvalidTimeout { value } => "invalid interceptor timeout '"@ + value
            + "'"@,
        ConfigErrorView::InvalidFailurePolicy { value } =>
            "invalid interceptor failure policy '"@ + value + "'"@,
        ConfigErrorView::DescribeFailed { interceptor, message } => of_interceptor(interceptor)
            + " describe failed: "@ + message,
        ConfigErrorView::UnsupportedApiVersion { interceptor, api_version } => of_interceptor(
            interceptor,
        ) + " manifest has unsupported api_version '"@ + api_version + "'"@,
        ConfigErrorView::DuplicateBinding { interceptor, binding } => of_interceptor(interceptor)
            + " manifest contains duplicate binding '"@ + binding + "'"@,
        ConfigErrorView::MissingBindingId { interceptor } => of_interceptor(interceptor)
            + " binding id is required"@,
        ConfigErrorView::MissingPhases { interceptor, binding } => of_binding(interceptor, binding)
            + " must declare at least one phase"@,
        ConfigErrorView::UnknownPhase { interceptor, binding, phase } => of_binding(
            interceptor,
            binding,
        ) + " uses unknown phase '"@ + phase + "'"@,
        ConfigErrorView::InvalidModifies { interceptor, binding } => of_binding(
            interceptor,
            binding,
        ) + " declares modifies=true outside modification phases"@,
        ConfigErrorView::InvalidIgnorePolicy { interceptor, binding } => of_binding(
            interceptor,
            binding,
        ) + " uses failure_policy=ignore outside post_commit"@,
        ConfigErrorView::UnknownOverrideBinding { interceptor, binding } => of_interceptor(
            interceptor,
        ) + " override references unknown binding '"@ + binding + "'"@,
        ConfigErrorView::OverrideExpands { interceptor, binding, field } => of_interceptor(
            interceptor,
        ) + " override for binding '"@ + binding + "' expands "@ + field
            + " beyond the service manifest"@,
        ConfigErrorView::ConfigMustBeTable { interceptor } => of_interceptor(interceptor)
            + " config must be a TOML table"@,
    }
}

fn interceptor_text(name: &str) -> (r: String)
    ensures
        r@ == of_interceptor(name@),
{
    cat3("interceptor '", name, "'")
}

fn binding_text(interceptor: &str, binding: &str) -> (r: String)
    ensures
        r@ == of_binding(interceptor@, binding@),
{
    cat5("interceptor '", interceptor, "' binding '", binding, "'")
}

impl InterceptorConfigError {
    /// What is said of the error.
    pub fn message(&self) -> (r: String)
        ensures
            r@ == config_error_text(self.deep_view()),
    {
        match self {
            InterceptorConfigError::MissingName => "interceptor name is required".to_owned(),
            InterceptorConfigError::MissingEndpoint { name } => cat2(
                interceptor_text(name.as_str()).as_str(),
                " endpoint is required",
            ),
            InterceptorConfigError::DuplicateName { name } => cat3(
                "duplicate interceptor name '",
                name.as_str(),
                "'",
            ),
            InterceptorConfigError::InvalidEndpoint { endpoint, message } => text::cat4(
                "invalid interceptor endpoint '",
                endpoint.as_str(),
                "': ",
                message.as_str(),
            ),
            InterceptorConfigError::InvalidTimeout { value } => cat3(
                "invalid interceptor timeout '",
                value.as_str(),
                "'",
            ),
            InterceptorConfigError::InvalidFailurePolicy { value } => cat3(
                "invalid interceptor failure policy '",
                value.as_str(),
                "'",
            ),
            InterceptorConfigError::DescribeFailed { interceptor, message } => cat3(
                interceptor_text(interceptor.as_str()).as_str(),
                " describe failed: ",
                message.as_str(),
            ),
            InterceptorConfigError::UnsupportedApiVersion { interceptor, api_version } =>
                text::cat4(
                    interceptor_text(interceptor.as_str()).as_str(),
                    " manifest has unsupported api_version '",
                    api_version.as_str(),
                    "'",
                ),
            InterceptorConfigError::DuplicateBinding { interceptor, binding } => text::cat4(
                interceptor_text(interceptor.as_str()).as_str(),
                " manifest contains duplicate binding '",
                binding.as_str(),
                "'",
            ),
            InterceptorConfigError::MissingBindingId { interceptor } => cat2(
                interceptor_text(interceptor.as_str()).as_str(),
                " binding id is required",
            ),
            InterceptorConfigError::MissingPhases { interceptor, binding } => cat2(
                binding_text(interceptor.as_str(), binding.as_str()).as_str(),
                " must declare at least one phase",
            ),
            InterceptorConfigError::UnknownPhase { interceptor, binding, phase } => text::cat4(
                binding_text(interceptor.as_str(), binding.as_str()).as_str(),
                " uses unknown phase '",
                phase.as_str(),
                "'",
            ),
            InterceptorConfigError::InvalidModifies { interceptor, binding } => cat2(
                binding_text(interceptor.as_str(), binding.as_str()).as_str(),
                " declares modifies=true outside modification phases",
            ),
            InterceptorConfigError::InvalidIgnorePolicy { interceptor, binding } => cat2(
                binding_text(interceptor.as_str(), binding.as_str()).as_str(),
                " uses failure_policy=ignore outside post_commit",
            ),
            InterceptorConfigError::UnknownOverrideBinding { interceptor, binding } => text::cat4(
                interceptor_text(interceptor.as_str()).as_str(),
                " override references unknown binding '",
                binding.as_str(),
                "'",
            ),
            InterceptorConfigError::OverrideExpands { interceptor, binding, field } => text::cat6(
                interceptor_text(interceptor.as_str()).as_str(),
                " override for binding '",
                binding.as_str(),
                "' expands ",
                field,
                " beyond the service manifest",
            ),
            InterceptorConfigError::ConfigMustBeTable { interceptor } => cat2(
                interceptor_text(interceptor.as_str()).as_str(),
                " config must be a TOML table",
            ),
        }
    }
}

// ---------------------------------------------------------------------------
// Failure policies
// ---------------------------------------------------------------------------

/// What becomes of an operation when an interceptor fails.
#[derive(Debug, Clone, Copy, PartialEq, Eq, Structural)]
pub enum FailurePolicy {
    FailClosed,
    FailOpen,
    Ignore,
}

impl DeepView for FailurePolicy {
    type V = FailurePolicy;

    open spec fn deep_view(&self) -> FailurePolicy {
        *self
    }
}

/// The policy that a text names, up to case and the space around it.
pub open spec fn failure_policy_parsed(value: Seq<char>) -> Result<FailurePolicy, ConfigErrorView> {
    let name = text::lower(text::trimmed(value));
    if name == ""@ {
        Err(ConfigErrorView::InvalidFailurePolicy { value })
    } else if name == "fail_closed"@ {
        Ok(FailurePolicy::FailClosed)
    } else if name == "fail_open"@ {
        Ok(FailurePolicy::FailOpen)
    } else if name == "ignore"@ {
        Ok(FailurePolicy::Ignore)
    } else {
        Err(ConfigErrorView::InvalidFailurePolicy { value: name })
    }
}

impl FailurePolicy {
    /// The name of a policy.
    pub open spec fn name(self) -> Seq<char> {
        match self {
            FailurePolicy::FailClosed => "fail_closed"@,
            FailurePolicy::FailOpen => "fail_open"@,
            FailurePolicy::Ignore => "ignore"@,
        }
    }

    /// The name of the policy.
    pub fn as_str(self) -> (r: &'static str)
        ensures
            r@ == self.name(),
    {
        match self {
            FailurePolicy::FailClosed => "fail_closed",
            FailurePolicy::FailOpen => "fail_open",
            FailurePolicy::Ignore => "ignore",
        }
    }

    /// The policy that a text names.
    pub fn parse(value: &str) -> (r: Result<FailurePolicy, InterceptorConfigError>)
        ensures
            shown(r) == failure_policy_parsed(value@),
    {
        let name = text::to_lower(text::trim(value));
        if text::same(name.as_str(), "") {
            Err(InterceptorConfigError::InvalidFailurePolicy { value: value.to_owned() })
        } else if text::same(name.as_str(), "fail_closed") {
            Ok(FailurePolicy::FailClosed)
        } else if text::same(name.as_str(), "fail_open") {
            Ok(FailurePolicy::FailOpen)
        } else if text::same(name.as_str(), "ignore") {
            Ok(FailurePolicy::Ignore)
        } else {
            Err(InterceptorConfigError::InvalidFailurePolicy { value: name })
        }
    }
}

/// A policy's name parses to the policy.
pub proof fn law_failure_policy_name_parses(policy: FailurePolicy)
    ensures
        failure_policy_parsed(policy.name()) == Ok::<FailurePolicy, ConfigErrorView>(policy),
{
    reveal_strlit("");
    reveal_strlit("fail_closed");
    reveal_strlit("fail_open");
    reveal_strlit("ignore");
    let name = policy.name();
    assert(name.len() > 0);
    assert(text::trim_start(name) == name);
    assert(text::trim_end(name) == name);
    assert(text::lower(name) =~= name);
    assert("fail_closed"@.len() == 11);
    assert("fail_open"@.len() == 9);
    assert("ignore"@.len() == 6);
}

// ---------------------------------------------------------------------------
// Timeouts
// ---------------------------------------------------------------------------

/// A length of time.
#[derive(Debug, Clone, Copy, PartialEq, Eq, Structural)]
pub struct Timeout {
    pub seconds: u64,
    pub nanoseconds: u32,
}

impl DeepView for Timeout {
    type V = Timeout;

    open spec fn deep_view(&self) -> Timeout {
        *self
    }
}

/// How long an interceptor may take where its configuration does not say.
pub const DEFAULT_TIMEOUT_MILLIS: u64 = 500;

/// A length of time in milliseconds.
pub open spec fn of_millis(n: nat) -> Timeout {
    Timeout { seconds: (n / 1000) as u64, nanoseconds: ((n % 1000) * 1_000_000) as u32 }
}

/// How many digits a text starts with.
pub open spec fn leading_digits(s: Seq<char>) -> nat
    decreases s.len(),
{
    if s.len() > 0 && text::is_digit(s[0]) {
        1 + leading_digits(s.skip(1))
    } else {
        0
    }
}

/// A timeout: a number of milliseconds, seconds or minutes. A number of minutes
/// whose seconds do not fit gives the longest timeout.
pub open spec fn timeout_parsed(value: Seq<char>) -> Result<Timeout, ConfigErrorView> {
    let content = text::trimmed(value);
    let n = leading_digits(content) as int;
    let number = text::digits_value(content.take(n));
    let unit = content.skip(n);
    if n == 0 || number > u64::MAX {
        Err(ConfigErrorView::InvalidTimeout { value: content })
    } else if unit == "ms"@ {
        Ok(of_millis(number))
    } else if unit == "s"@ {
        Ok(Timeout { seconds: number as u64, nanoseconds: 0 })
    } else if unit == "m"@ {
        Ok(
            Timeout {
                seconds: if number * 60 <= u64::MAX {
                    (number * 60) as u64
                } else {
                    u64::MAX
                },
                nanoseconds: 0,
            },
        )
    } else {
        Err(ConfigErrorView::InvalidTimeout { value: content })
    }
}

fn millis(n: u64) -> (r: Timeout)
    ensures
        r == of_millis(n as nat),
{
    Timeout { seconds: n / 1000, nanoseconds: ((n % 1000) * 1_000_000) as u32 }
}

/// The length of time that a text denotes.
pub fn parse_duration(value: &str) -> (r: Result<Timeout, InterceptorConfigError>)
    ensures
        shown(r) == timeout_parsed(value@),
{
    let content = text::trim(value);
    let ghost s = content@;
    let chars = text::chars_of(content);
    let mut n: usize = 0;
    proof {
        assert(s.skip(0) =~= s);
    }
    while n < chars.len() && text::char_is_digit(chars[n])
        invariant
            n <= chars.len(),
            chars@ == s,
            leading_digits(s) == n + leading_digits(s.skip(n as int)),
            forall|j: int| 0 <= j < n ==> text::is_digit(#[trigger] s[j]),
        decreases chars.len() - n,
    {
        proof {
            assert(s.skip(n as int)[0] == s[n as int]);
            assert(s.skip(n as int).skip(1) =~= s.skip(n + 1));
        }
        n += 1;
    }
    proof {
        if n < s.len() {
            assert(s.skip(n as int)[0] == s[n as int]);
        }
        assert(leading_digits(s.skip(n as int)) == 0);
        assert(s.take(n as int) =~= s.subrange(0, n as int));
        assert(s.skip(n as int) =~= s.subrange(n as int, s.len() as int));
        assert(text::all_digits(s.take(n as int)));
    }
    let number = content.substring_char(0, n);
    let unit = content.substring_char(n, chars.len());
    let amount: u64 = match text::parse_digits(number) {
        Some(amount) => amount,
        None => {
            return Err(InterceptorConfigError::InvalidTimeout { value: content.to_owned() });
        },
    };
    if text::same(unit, "ms") {
        Ok(millis(amount))
    } else if text::same(unit, "s") {
        Ok(Timeout { seconds: amount, nanoseconds: 0 })
    } else if text::same(unit, "m") {
        let seconds: u64 = if amount <= u64::MAX / 60 {
            amount * 60
        } else {
            u64::MAX
        };
        Ok(Timeout { seconds, nanoseconds: 0 })
    } else {
        Err(InterceptorConfigError::InvalidTimeout { value: content.to_owned() })
    }
}

/// The timeout that a configuration sets, or the default.
pub open spec fn timeout_of(timeout: Option<Seq<char>>) -> Result<Timeout, ConfigErrorView> {
    match timeout {
        Some(value) => timeout_parsed(value),
        None => Ok(of_millis(DEFAULT_TIMEOUT_MILLIS as nat)),
    }
}

/// The timeout that a configuration sets, or the default.
pub fn configured_timeout(timeout: Option<&str>) -> (r: Result<Timeout, InterceptorConfigError>)
    ensures
        shown(r) == timeout_of(timeout.deep_view()),
{
    match timeout {
        Some(value) => parse_duration(value),
        None => Ok(millis(DEFAULT_TIMEOUT_MILLIS)),
    }
}

// ---------------------------------------------------------------------------
// Configurations
// ---------------------------------------------------------------------------

/// What an override narrows a binding's matches to. What it leaves out stays as
/// the manifest declares it.
#[derive(Debug, Clone, PartialEq, Eq)]
pub struct BindingMatchConfig {
    pub phases: Option<Vec<String>>,
    pub resources: Option<Vec<String>>,
    pub operations: Option<Vec<String>>,
    pub principal_kinds: Option<Vec<String>>,
    pub principal_groups: Option<Vec<String>>,
    pub labels: Option<Vec<(String, String)>>,
    pub compute_drivers: Option<Vec<String>>,
}

/// The content of an override's matches.
#[verifier::ext_equal]
pub struct MatchView {
    pub phases: Option<Seq<Seq<char>>>,
    pub resources: Option<Seq<Seq<char>>>,
    pub operations: Option<Seq<Seq<char>>>,
    pub principal_kinds: Option<Seq<Seq<char>>>,
    pub principal_groups: Option<Seq<Seq<char>>>,
    pub labels: Option<TextMap>,
    pub compute_drivers: Option<Seq<Seq<char>>>,
}

impl DeepView for BindingMatchConfig {
    type V = MatchView;

    open spec fn deep_view(&self) -> MatchView {
        MatchView {
            phases: self.phases.deep_view(),
            resources: self.resources.deep_view(),
            operations: self.operations.deep_view(),
            principal_kinds: self.principal_kinds.deep_view(),
            principal_groups: self.principal_groups.deep_view(),
            labels: self.labels.deep_view(),
            compute_drivers: self.compute_drivers.deep_view(),
        }
    }
}

/// Matches that narrow nothing.
pub open spec fn open_match() -> MatchView {
    MatchView {
        phases: None,
        resources: None,
        operations: None,
        principal_kinds: None,
        principal_groups: None,
        labels: None,
        compute_drivers: None,
    }
}

impl Default for BindingMatchConfig {
    /// Matches that narrow nothing.
    fn default() -> (r: BindingMatchConfig)
        ensures
            r.deep_view() == open_match(),
    {
        BindingMatchConfig {
            phases: None,
            resources: None,
            operations: None,
            principal_kinds: None,
            principal_groups: None,
            labels: None,
            compute_drivers: None,
        }
    }
}

/// What a gateway operator sets for one binding of an interceptor.
#[derive(Debug, Clone, PartialEq, Eq)]
pub struct BindingOverrideConfig {
    pub binding: String,
    pub enabled: Option<bool>,
    pub order: Option<i32>,
    pub failure_policy: Option<FailurePolicy>,
    pub match_: BindingMatchConfig,
}

/// The content of an override.
#[verifier::ext_equal]
pub struct OverrideView {
    pub binding: Seq<char>,
    pub enabled: Option<bool>,
    pub order: Option<i32>,
    pub failure_policy: Option<FailurePolicy>,
    pub match_: MatchView,
}

impl DeepView for BindingOverrideConfig {
    type V = OverrideView;

    open spec fn deep_view(&self) -> OverrideView {
        OverrideView {
            binding: self.binding@,
            enabled: self.enabled,
            order: self.order,
            failure_policy: self.failure_policy,
            match_: self.match_.deep_view(),
        }
    }
}

impl Default for BindingOverrideConfig {
    /// An override without a binding that sets nothing.
    fn default() -> (r: BindingOverrideConfig)
        ensures
            r.binding@ == Seq::<char>::empty(),
            r.enabled is None,
            r.order is None,
            r.failure_policy is None,
            r.match_.deep_view() == open_match(),
    {
        BindingOverrideConfig {
            binding: String::new(),
            enabled: None,
            order: None,
            failure_policy: None,
            match_: BindingMatchConfig::default(),
        }
    }
}

/// An interceptor that a gateway operator configured.
#[derive(Debug)]
pub struct InterceptorConfig {
    pub name: String,
    pub endpoint: String,
    pub order: i32,
    pub timeout: Option<String>,
    pub failure_policy: Option<FailurePolicy>,
    pub config: Toml,
    pub overrides: Vec<BindingOverrideConfig>,
}

/// The content of an interceptor's configuration.
#[verifier::ext_equal]
pub struct ConfigView {
    pub name: Seq<char>,
    pub endpoint: Seq<char>,
    pub order: i32,
    pub timeout: Option<Seq<char>>,
    pub failure_policy: Option<FailurePolicy>,
    pub config: TomlView,
    pub overrides: Seq<OverrideView>,
}

impl DeepView for InterceptorConfig {
    type V = ConfigView;

    open spec fn deep_view(&self) -> ConfigView {
        ConfigView {
            name: self.name@,
            endpoint: self.endpoint@,
            order: self.order,
            timeout: self.timeout.deep_view(),
            failure_policy: self.failure_policy,
            config: self.config.deep_view(),
            overrides: self.overrides.deep_view(),
        }
    }
}

impl Default for InterceptorConfig {
    /// A configuration without a name, with an empty table.
    fn default() -> (r: InterceptorConfig)
        ensures
            r.name@ == Seq::<char>::empty(),
            r.endpoint@ == Seq::<char>::empty(),
            r.order == 0,
            r.timeout is None,
            r.failure_policy is None,
            r.config matches Toml::Table(entries) && entries@.len() == 0,
            r.overrides@.len() == 0,
    {
        InterceptorConfig {
            name: String::new(),
            endpoint: String::new(),
            order: 0,
            timeout: None,
            failure_policy: None,
            config: Toml::Table(Vec::new()),
            overrides: Vec::new(),
        }
    }
}

/// What is wrong with the `i`th configuration, given those before it.
pub open spec fn naming_problem(configs: Seq<ConfigView>, i: int) -> Option<ConfigErrorView> {
    let name = text::trimmed(configs[i].name);
    if name.len() == 0 {
        Some(ConfigErrorView::MissingName)
    } else if exists|j: int| 0 <= j < i && text::trimmed((#[trigger] configs[j]).name) == name {
        Some(ConfigErrorView::DuplicateName { name })
    } else if text::trimmed(configs[i].endpoint).len() == 0 {
        Some(ConfigErrorView::MissingEndpoint { name })
    } else {
        None
    }
}

/// The first thing that is wrong with the names and endpoints of configurations.
pub open spec fn first_naming_problem(configs: Seq<ConfigView>, from: int) -> Option<
    ConfigErrorView,
>
    decreases configs.len() - from,
{
    if from < 0 || from >= configs.len() {
        None
    } else {
        match naming_problem(configs, from) {
            Some(problem) => Some(problem),
            None => first_naming_problem(configs, from + 1),
        }
    }
}

/// Checks that every configuration has an endpoint and a name of its own.
pub fn check_names(configs: &Vec<InterceptorConfig>) -> (r: Result<(), InterceptorConfigError>)
    ensures
        match first_naming_problem(configs.deep_view(), 0) {
            Some(problem) => r matches Err(error) && error.deep_view() == problem,
            None => r is Ok,
        },
{
    let ghost list = configs.deep_view();
    let mut names: Vec<String> = Vec::new();
    let mut i: usize = 0;
    while i < configs.len()
        invariant
            i <= configs.len(),
            list == configs.deep_view(),
            names.len() == i,
            forall|j: int|
                0 <= j < i ==> #[trigger] names.deep_view()[j] == text::trimmed(list[j].name),
            first_naming_problem(list, 0) == first_naming_problem(list, i as int),
        decreases configs.len() - i,
    {
        let config = &configs[i];
        assert(list[i as int] == config.deep_view());
        let name = text::trim(config.name.as_str());
        if name.is_empty() {
            return Err(InterceptorConfigError::MissingName);
        }
        let repeated = text::list_contains(&names, name);
        proof {
            if repeated {
                let j = choose|j: int| 0 <= j < i && names.deep_view()[j] == name@;
                assert(names.deep_view().contains(name@));
                assert(text::trimmed(list[j].name) == name@);
            } else {
                assert forall|j: int| 0 <= j < i implies text::trimmed((#[trigger] list[j]).name)
                    != name@ by {
                    assert(names.deep_view()[j] == text::trimmed(list[j].name));
                }
            }
        }
        if repeated {
            return Err(InterceptorConfigError::DuplicateName { name: name.to_owned() });
        }
        if text::is_blank(config.endpoint.as_str()) {
            return Err(InterceptorConfigError::MissingEndpoint { name: name.to_owned() });
        }
        let ghost before = names.deep_view();
        names.push(name.to_owned());
        proof {
            assert forall|j: int| 0 <= j < i + 1 implies #[trigger] names.deep_view()[j]
                == text::trimmed(list[j].name) by {
                if j < i {
                    assert(names.deep_view()[j] == before[j]);
                }
            }
        }
        i += 1;
    }
    Ok(())
}

// ---------------------------------------------------------------------------
// Manifests
// ---------------------------------------------------------------------------

/// Whom a binding is for.
#[derive(Debug, Clone, PartialEq, Eq)]
pub struct InterceptorSelector {
    pub principal_kinds: Vec<String>,
    pub principal_groups: Vec<String>,
    pub labels: Vec<(String, String)>,
    pub compute_drivers: Vec<String>,
}

/// The content of a selector.
#[verifier::ext_equal]
pub struct SelectorView {
    pub principal_kinds: Seq<Seq<char>>,
    pub principal_groups: Seq<Seq<char>>,
    pub labels: TextMap,
    pub compute_drivers: Seq<Seq<char>>,
}

impl DeepView for InterceptorSelector {
    type V = SelectorView;

    open spec fn deep_view(&self) -> SelectorView {
        SelectorView {
            principal_kinds: self.principal_kinds.deep_view(),
            principal_groups: self.principal_groups.deep_view(),
            labels: self.labels.deep_view(),
            compute_drivers: self.compute_drivers.deep_view(),
        }
    }
}

/// The selector that every request meets.
pub open spec fn open_selector() -> SelectorView {
    SelectorView {
        principal_kinds: Seq::empty(),
        principal_groups: Seq::empty(),
        labels: Seq::empty(),
        compute_drivers: Seq::empty(),
    }
}

impl Default for InterceptorSelector {
    /// The selector that every request meets.
    fn default() -> (r: InterceptorSelector)
        ensures
            r.deep_view() == open_selector(),
    {
        let r = InterceptorSelector {
            principal_kinds: Vec::new(),
            principal_groups: Vec::new(),
            labels: Vec::new(),
            compute_drivers: Vec::new(),
        };
        assert(r.principal_kinds.deep_view() =~= Seq::empty());
        assert(r.principal_groups.deep_view() =~= Seq::empty());
        assert(r.labels.deep_view() =~= Seq::empty());
        assert(r.compute_drivers.deep_view() =~= Seq::empty());
        r
    }
}

/// What an interceptor declares that it reviews.
#[derive(Debug, Clone, PartialEq, Eq)]
pub struct InterceptorBinding {
    pub id: String,
    pub phases: Vec<String>,
    pub resources: Vec<String>,
    pub operations: Vec<String>,
    pub order: i32,
    pub modifies: bool,
    pub default_failure_policy: String,
    pub selector: Option<InterceptorSelector>,
}

/// The content of a binding.
#[verifier::ext_equal]
pub struct BindingView {
    pub id: Seq<char>,
    pub phases: Seq<Seq<char>>,
    pub resources: Seq<Seq<char>>,
    pub operations: Seq<Seq<char>>,
    pub order: i32,
    pub modifies: bool,
    pub default_failure_policy: Seq<char>,
    pub selector: Option<SelectorView>,
}

impl DeepView for InterceptorBinding {
    type V = BindingView;

    open spec fn deep_view(&self) -> BindingView {
        BindingView {
            id: self.id@,
            phases: self.phases.deep_view(),
            resources: self.resources.deep_view(),
            operations: self.operations.deep_view(),
            order: self.order,
            modifies: self.modifies,
            default_failure_policy: self.default_failure_policy@,
            selector: self.selector.deep_view(),
        }
    }
}

/// What an interceptor says of itself.
#[derive(Debug, Clone, PartialEq, Eq)]
pub struct InterceptorManifest {
    pub api_version: String,
    pub bindings: Vec<InterceptorBinding>,
}

/// The content of a manifest.
#[verifier::ext_equal]
pub struct ManifestView {
    pub api_version: Seq<char>,
    pub bindings: Seq<BindingView>,
}

impl DeepView for InterceptorManifest {
    type V = ManifestView;

    open spec fn deep_view(&self) -> ManifestView {
        ManifestView {
            api_version: self.api_version@,
            bindings: self.bindings.deep_view(),
        }
    }
}

/// A phase in which interceptors are asked.
pub open spec fn known_phase(phase: Seq<char>) -> bool {
    modification_phase(phase) || phase == PHASE_VALIDATE_OBJECT@ || phase
        == PHASE_VALIDATE_DRIVER@ || phase == PHASE_POST_COMMIT@
}

/// A phase in which interceptors may change the object.
pub open spec fn modification_phase(phase: Seq<char>) -> bool {
    phase == PHASE_PRE_REQUEST@ || phase == PHASE_MODIFY_OBJECT@
}

/// The first unknown phase of a list.
pub open spec fn first_unknown_phase(phases: Seq<Seq<char>>) -> Option<Seq<char>>
    decreases phases.len(),
{
    if phases.len() == 0 {
        None
    } else if !known_phase(phases[0]) {
        Some(phases[0])
    } else {
        first_unknown_phase(phases.skip(1))
    }
}

/// Every phase of a list is one in which interceptors may change the object.
pub open spec fn all_modification_phases(phases: Seq<Seq<char>>) -> bool {
    forall|i: int| 0 <= i < phases.len() ==> modification_phase(#[trigger] phases[i])
}

/// What is wrong with the `i`th binding of a manifest.
pub open spec fn binding_problem(
    interceptor: Seq<char>,
    bindings: Seq<BindingView>,
    i: int,
) -> Option<ConfigErrorView> {
    let binding = bindings[i];
    let id = binding.id;
    if text::trimmed(id).len() == 0 {
        Some(ConfigErrorView::MissingBindingId { interceptor })
    } else if exists|j: int| 0 <= j < i && (#[trigger] bindings[j]).id == id {
        Some(ConfigErrorView::DuplicateBinding { interceptor, binding: id })
    } else if binding.phases.len() == 0 {
        Some(ConfigErrorView::MissingPhases { interceptor, binding: id })
    } else if first_unknown_phase(binding.phases) is Some {
        Some(
            ConfigErrorView::UnknownPhase {
                interceptor,
                binding: id,
                phase: first_unknown_phase(binding.phases)->0,
            },
        )
    } else if binding.modifies && !all_modification_phases(binding.phases) {
        Some(ConfigErrorView::InvalidModifies { interceptor, binding: id })
    } else {
        None
    }
}

/// The first thing that is wrong with the bindings of a manifest.
pub open spec fn first_binding_problem(
    interceptor: Seq<char>,
    bindings: Seq<BindingView>,
    from: int,
) -> Option<ConfigErrorView>
    decreases bindings.len() - from,
{
    if from < 0 || from >= bindings.len() {
        None
    } else {
        match binding_problem(interceptor, bindings, from) {
            Some(problem) => Some(problem),
            None => first_binding_problem(interceptor, bindings, from + 1),
        }
    }
}

/// A manifest declares a binding.
pub open spec fn declares(bindings: Seq<BindingView>, id: Seq<char>) -> bool {
    exists|i: int| 0 <= i < bindings.len() && (#[trigger] bindings[i]).id == id
}

/// The first override that names a binding that the manifest does not declare.
pub open spec fn first_unknown_override(
    overrides: Seq<OverrideView>,
    bindings: Seq<BindingView>,
) -> Option<Seq<char>>
    decreases overrides.len(),
{
    if overrides.len() == 0 {
        None
    } else if !declares(bindings, overrides[0].binding) {
        Some(overrides[0].binding)
    } else {
        first_unknown_override(overrides.skip(1), bindings)
    }
}

/// What is wrong with a manifest, under a configuration.
pub open spec fn manifest_problem(config: ConfigView, manifest: ManifestView) -> Option<
    ConfigErrorView,
> {
    if manifest.api_version.len() > 0 && manifest.api_version != API_VERSION@ {
        Some(
            ConfigErrorView::UnsupportedApiVersion {
                interceptor: config.name,
                api_version: manifest.api_version,
            },
        )
    } else {
        match first_binding_problem(config.name, manifest.bindings, 0) {
            Some(problem) => Some(problem),
            None => match first_unknown_override(config.overrides, manifest.bindings) {
                Some(binding) => Some(
                    ConfigErrorView::UnknownOverrideBinding { interceptor: config.name, binding },
                ),
                None => None,
            },
        }
    }
}

/// Tells whether interceptors are asked in a phase.
pub fn is_known_phase(phase: &str) -> (r: bool)
    ensures
        r == known_phase(phase@),
{
    is_modification_phase(phase) || text::same(phase, PHASE_VALIDATE_OBJECT) || text::same(
        phase,
        PHASE_VALIDATE_DRIVER,
    ) || text::same(phase, PHASE_POST_COMMIT)
}

/// Tells whether interceptors may change the object in a phase.
pub fn is_modification_phase(phase: &str) -> (r: bool)
    ensures
        r == modification_phase(phase@),
{
    text::same(phase, PHASE_PRE_REQUEST) || text::same(phase, PHASE_MODIFY_OBJECT)
}

fn find_unknown_phase<'a>(phases: &'a Vec<String>) -> (r: Option<&'a str>)
    ensures
        r.deep_view() == first_unknown_phase(phases.deep_view()),
{
    let ghost list = phases.deep_view();
    let mut i: usize = 0;
    proof {
        assert(list.skip(0) =~= list);
    }
    while i < phases.len()
        invariant
            i <= phases.len(),
            list == phases.deep_view(),
            first_unknown_phase(list) == first_unknown_phase(list.skip(i as int)),
        decreases phases.len() - i,
    {
        proof {
            assert(list.skip(i as int)[0] == phases@[i as int]@);
            assert(list.skip(i as int).skip(1) =~= list.skip(i + 1));
        }
        if !is_known_phase(phases[i].as_str()) {
            return Some(phases[i].as_str());
        }
        i += 1;
    }
    None
}

fn modifies_everywhere(phases: &Vec<String>) -> (r: bool)
    ensures
        r == all_modification_phases(phases.deep_view()),
{
    let ghost list = phases.deep_view();
    let mut i: usize = 0;
    while i < phases.len()
        invariant
            i <= phases.len(),
            list == phases.deep_view(),
            forall|j: int| 0 <= j < i ==> modification_phase(#[trigger] list[j]),
        decreases phases.len() - i,
    {
        assert(list[i as int] == phases@[i as int]@);
        if !is_modification_phase(phases[i].as_str()) {
            return false;
        }
        i += 1;
    }
    true
}

fn has_binding_before(bindings: &Vec<InterceptorBinding>, id: &str, n: usize) -> (r: bool)
    requires
        n <= bindings.len(),
    ensures
        r == (exists|j: int| 0 <= j < n && (#[trigger] bindings.deep_view()[j]).id == id@),
{
    let ghost list = bindings.deep_view();
    let mut j: usize = 0;
    while j < n
        invariant
            j <= n <= bindings.len(),
            list == bindings.deep_view(),
            forall|k: int| 0 <= k < j ==> (#[trigger] list[k]).id != id@,
        decreases n - j,
    {
        assert(list[j as int].id == bindings@[j as int].id@);
        if text::same(bindings[j].id.as_str(), id) {
            assert(list[j as int].id == id@);
            return true;
        }
        j += 1;
    }
    false
}

fn find_binding_problem(interceptor: &str, bindings: &Vec<InterceptorBinding>, i: usize) -> (r: Option<
    InterceptorConfigError,
>)
    requires
        i < bindings.len(),
    ensures
        r.deep_view() == binding_problem(interceptor@, bindings.deep_view(), i as int),
{
    let binding = &bindings[i];
    assert(bindings.deep_view()[i as int] == binding.deep_view());
    if text::is_blank(binding.id.as_str()) {
        return Some(
            InterceptorConfigError::MissingBindingId { interceptor: interceptor.to_owned() },
        );
    }
    if has_binding_before(bindings, binding.id.as_str(), i) {
        return Some(
            InterceptorConfigError::DuplicateBinding {
                interceptor: interceptor.to_owned(),
                binding: binding.id.clone(),
            },
        );
    }
    if binding.phases.len() == 0 {
        return Some(
            InterceptorConfigError::MissingPhases {
                interceptor: interceptor.to_owned(),
                binding: binding.id.clone(),
            },
        );
    }
    if let Some(phase) = find_unknown_phase(&binding.phases) {
        return Some(
            InterceptorConfigError::UnknownPhase {
                interceptor: interceptor.to_owned(),
                binding: binding.id.clone(),
                phase: phase.to_owned(),
            },
        );
    }
    if binding.modifies && !modifies_everywhere(&binding.phases) {
        return Some(
            InterceptorConfigError::InvalidModifies {
                interceptor: interceptor.to_owned(),
                binding: binding.id.clone(),
            },
        );
    }
    None
}

/// Checks a manifest: the version of its interface, each of its bindings, and
/// that every override of the configuration names one of them.
pub fn validate_manifest(config: &InterceptorConfig, manifest: &InterceptorManifest) -> (r: Result<
    (),
    InterceptorConfigError,
>)
    ensures
        match manifest_problem(config.deep_view(), manifest.deep_view()) {
            Some(problem) => r matches Err(error) && error.deep_view() == problem,
            None => r is Ok,
        },
{
    let ghost shown_config = config.deep_view();
    let ghost shown_manifest = manifest.deep_view();
    let version = manifest.api_version.as_str();
    if !version.is_empty() && !text::same(version, API_VERSION) {
        return Err(
            InterceptorConfigError::UnsupportedApiVersion {
                interceptor: config.name.clone(),
                api_version: manifest.api_version.clone(),
            },
        );
    }
    let ghost bindings = shown_manifest.bindings;
    let mut i: usize = 0;
    while i < manifest.bindings.len()
        invariant
            i <= manifest.bindings.len(),
            shown_config == config.deep_view(),
            shown_manifest == manifest.deep_view(),
            bindings == shown_manifest.bindings,
            !(shown_manifest.api_version.len() > 0 && shown_manifest.api_version != API_VERSION@),
            first_binding_problem(shown_config.name, bindings, 0) == first_binding_problem(
                shown_config.name,
                bindings,
                i as int,
            ),
        decreases manifest.bindings.len() - i,
    {
        if let Some(problem) = find_binding_problem(config.name.as_str(), &manifest.bindings, i) {
            return Err(problem);
        }
        i += 1;
    }
    let ghost overrides = shown_config.overrides;
    let mut k: usize = 0;
    proof {
        assert(overrides.skip(0) =~= overrides);
    }
    while k < config.overrides.len()
        invariant
            k <= config.overrides.len(),
            shown_config == config.deep_view(),
            shown_manifest == manifest.deep_view(),
            bindings == shown_manifest.bindings,
            overrides == shown_config.overrides,
            !(shown_manifest.api_version.len() > 0 && shown_manifest.api_version != API_VERSION@),
            first_binding_problem(shown_config.name, bindings, 0) is None,
            first_unknown_override(overrides, bindings) == first_unknown_override(
                overrides.skip(k as int),
                bindings,
            ),
        decreases config.overrides.len() - k,
    {
        let name = config.overrides[k].binding.as_str();
        proof {
            assert(overrides.skip(k as int)[0] == config.overrides@[k as int].deep_view());
            assert(overrides.skip(k as int).skip(1) =~= overrides.skip(k + 1));
        }
        if !has_binding_before(&manifest.bindings, name, manifest.bindings.len()) {
            return Err(
                InterceptorConfigError::UnknownOverrideBinding {
                    interceptor: config.name.clone(),
                    binding: name.to_owned(),
                },
            );
        }
        k += 1;
    }
    Ok(())
}

/// A manifest that is accepted declares each binding once, and lets no binding
/// that modifies objects be asked outside the phases for that.
pub proof fn law_accepted_manifest(
    config: ConfigView,
    manifest: ManifestView,
    i: int,
    j: int,
)
    requires
        manifest_problem(config, manifest) is None,
        0 <= i < j < manifest.bindings.len(),
    ensures
        manifest.bindings[i].id != manifest.bindings[j].id,
        manifest.bindings[j].phases.len() > 0,
        manifest.bindings[j].modifies ==> all_modification_phases(manifest.bindings[j].phases),
{
    lemma_no_binding_problem(config.name, manifest.bindings, 0, j);
    assert(manifest.bindings[i].id == manifest.bindings[i].id);
}

proof fn lemma_no_binding_problem(
    interceptor: Seq<char>,
    bindings: Seq<BindingView>,
    from: int,
    i: int,
)
    requires
        0 <= from <= i < bindings.len(),
        first_binding_problem(interceptor, bindings, from) is None,
    ensures
        binding_problem(interceptor, bindings, i) is None,
    decreases bindings.len() - from,
{
    if from < i {
        lemma_no_binding_problem(interceptor, bindings, from + 1, i);
    }
}

} // verus!
