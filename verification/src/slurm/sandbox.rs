//! Sandboxes as the Slurm driver gets them, and the checks on them.

use crate::outcome::shown;
use crate::paths;
use crate::paths::extension_of;
use crate::slurm::config::{ConfigView, SlurmComputeConfig};
use crate::text;
use crate::text::{cat2, cat3};
use vstd::prelude::*;

verus! {

/// Pairs of texts.
pub type TextMap = Seq<(Seq<char>, Seq<char>)>;

/// Why the driver refuses or fails.
#[derive(Debug, Clone, PartialEq, Eq)]
pub enum SlurmDriverError {
    AlreadyExists,
    Precondition(String),
    Message(String),
}

/// The content of a driver error.
pub enum DriverErrorView {
    AlreadyExists,
    Precondition(Seq<char>),
    Message(Seq<char>),
}

impl DeepView for SlurmDriverError {
    type V = DriverErrorView;

    open spec fn deep_view(&self) -> DriverErrorView {
        match self {
            SlurmDriverError::AlreadyExists => DriverErrorView::AlreadyExists,
            SlurmDriverError::Precondition(message) => DriverErrorView::Precondition(message@),
            SlurmDriverError::Message(message) => DriverErrorView::Message(message@),
        }
    }
}

impl SlurmDriverError {
    /// What is said of the error.
    pub fn message(&self) -> (r: String)
        ensures
            r@ == (match self.deep_view() {
                DriverErrorView::AlreadyExists => "sandbox already exists"@,
                DriverErrorView::Precondition(message) => message,
                DriverErrorView::Message(message) => message,
            }),
    {
        match self {
            SlurmDriverError::AlreadyExists => "sandbox already exists".to_owned(),
            SlurmDriverError::Precondition(message) => message.clone(),
            SlurmDriverError::Message(message) => message.clone(),
        }
    }
}

/// The resources that a sandbox asks for, as quantities.
#[derive(Debug, Clone, PartialEq, Eq)]
pub struct DriverResourceRequirements {
    pub cpu_request: String,
    pub cpu_limit: String,
    pub memory_request: String,
    pub memory_limit: String,
}

/// What a sandbox is made from.
#[derive(Debug, Clone, PartialEq, Eq)]
pub struct DriverSandboxTemplate {
    pub image: String,
    pub environment: Vec<(String, String)>,
    pub resources: Option<DriverResourceRequirements>,
    /// The template has configuration for another platform.
    pub has_platform_config: bool,
}

/// What a sandbox is to be.
#[derive(Debug, Clone, PartialEq, Eq)]
pub struct DriverSandboxSpec {
    pub log_level: String,
    pub environment: Vec<(String, String)>,
    pub template: Option<DriverSandboxTemplate>,
    pub gpu: bool,
    pub gpu_device: String,
}

/// A condition of a sandbox.
#[derive(Debug, Clone, PartialEq, Eq)]
pub struct DriverCondition {
    pub condition_type: String,
    pub status: String,
    pub reason: String,
    pub message: String,
    pub last_transition_time: String,
}

/// The content of a condition.
pub struct ConditionView {
    pub condition_type: Seq<char>,
    pub status: Seq<char>,
    pub reason: Seq<char>,
    pub message: Seq<char>,
    pub last_transition_time: Seq<char>,
}

impl DeepView for DriverCondition {
    type V = ConditionView;

    open spec fn deep_view(&self) -> ConditionView {
        ConditionView {
            condition_type: self.condition_type@,
            status: self.status@,
            reason: self.reason@,
            message: self.message@,
            last_transition_time: self.last_transition_time@,
        }
    }
}

/// What is known of a sandbox that was created.
#[derive(Debug, Clone, PartialEq, Eq)]
pub struct DriverSandboxStatus {
    pub sandbox_name: String,
    pub instance_id: String,
    pub agent_fd: String,
    pub sandbox_fd: String,
    pub conditions: Vec<DriverCondition>,
    pub deleting: bool,
}

/// A sandbox.
#[derive(Debug, Clone, PartialEq, Eq)]
pub struct DriverSandbox {
    pub id: String,
    pub name: String,
    pub namespace: String,
    pub spec: Option<DriverSandboxSpec>,
    pub status: Option<DriverSandboxStatus>,
}

/// The content of resources.
pub struct ResourcesView {
    pub cpu_request: Seq<char>,
    pub cpu_limit: Seq<char>,
    pub memory_request: Seq<char>,
    pub memory_limit: Seq<char>,
}

/// The content of a template.
#[verifier::ext_equal]
pub struct TemplateView {
    pub image: Seq<char>,
    pub environment: TextMap,
    pub resources: Option<ResourcesView>,
    pub has_platform_config: bool,
}

/// The content of what a sandbox is to be.
#[verifier::ext_equal]
pub struct SpecView {
    pub log_level: Seq<char>,
    pub environment: TextMap,
    pub template: Option<TemplateView>,
    pub gpu: bool,
    pub gpu_device: Seq<char>,
}

/// The content of what is known of a sandbox.
#[verifier::ext_equal]
pub struct SandboxStatusView {
    pub sandbox_name: Seq<char>,
    pub instance_id: Seq<char>,
    pub agent_fd: Seq<char>,
    pub sandbox_fd: Seq<char>,
    pub conditions: Seq<ConditionView>,
    pub deleting: bool,
}

/// The content of a sandbox.
#[verifier::ext_equal]
pub struct SandboxView {
    pub id: Seq<char>,
    pub name: Seq<char>,
    pub namespace: Seq<char>,
    pub spec: Option<SpecView>,
    pub status: Option<SandboxStatusView>,
}

impl DeepView for DriverResourceRequirements {
    type V = ResourcesView;

    open spec fn deep_view(&self) -> ResourcesView {
        ResourcesView {
            cpu_request: self.cpu_request@,
            cpu_limit: self.cpu_limit@,
            memory_request: self.memory_request@,
            memory_limit: self.memory_limit@,
        }
    }
}

impl DeepView for DriverSandboxTemplate {
    type V = TemplateView;

    open spec fn deep_view(&self) -> TemplateView {
        TemplateView {
            image: self.image@,
            environment: self.environment.deep_view(),
            resources: self.resources.deep_view(),
            has_platform_config: self.has_platform_config,
        }
    }
}

impl DeepView for DriverSandboxSpec {
    type V = SpecView;

    open spec fn deep_view(&self) -> SpecView {
        SpecView {
            log_level: self.log_level@,
            environment: self.environment.deep_view(),
            template: self.template.deep_view(),
            gpu: self.gpu,
            gpu_device: self.gpu_device@,
        }
    }
}

impl DeepView for DriverSandboxStatus {
    type V = SandboxStatusView;

    open spec fn deep_view(&self) -> SandboxStatusView {
        SandboxStatusView {
            sandbox_name: self.sandbox_name@,
            instance_id: self.instance_id@,
            agent_fd: self.agent_fd@,
            sandbox_fd: self.sandbox_fd@,
            conditions: self.conditions.deep_view(),
            deleting: self.deleting,
        }
    }
}

impl DeepView for DriverSandbox {
    type V = SandboxView;

    open spec fn deep_view(&self) -> SandboxView {
        SandboxView {
            id: self.id@,
            name: self.name@,
            namespace: self.namespace@,
            spec: self.spec.deep_view(),
            status: self.status.deep_view(),
        }
    }
}

/// A refusal for a reason of the caller's.
pub open spec fn precondition(message: Seq<char>) -> DriverErrorView {
    DriverErrorView::Precondition(message)
}

// ---------------------------------------------------------------------------
// Names
// ---------------------------------------------------------------------------

/// A character of an identity that can be part of a path.
pub open spec fn is_path_char(c: char) -> bool {
    text::is_alphanumeric(c) || c == '.' || c == '_' || c == '-'
}

/// An identity that can be part of a path.
pub open spec fn is_path_id(value: Seq<char>) -> bool {
    &&& 1 <= value.len() <= 128
    &&& forall|i: int| 0 <= i < value.len() ==> is_path_char(#[trigger] value[i])
}

/// What is said of an identity.
pub open spec fn path_id_verdict(value: Seq<char>) -> Result<(), DriverErrorView> {
    if is_path_id(value) {
        Ok(())
    } else {
        Err(precondition("sandbox id must match [A-Za-z0-9._-]{1,128}"@))
    }
}

/// A character that can start the name of an environment variable.
pub open spec fn starts_env_name(c: char) -> bool {
    c == '_' || text::is_letter(c)
}

/// What is said of the name of an environment variable.
pub open spec fn env_name_verdict(value: Seq<char>) -> Result<(), DriverErrorView> {
    if value.len() == 0 {
        Err(precondition("environment variable name cannot be empty"@))
    } else if starts_env_name(value[0]) && (forall|i: int|
        1 <= i < value.len() ==> (#[trigger] value[i] == '_' || text::is_alphanumeric(value[i]))) {
        Ok(())
    } else {
        Err(precondition("invalid environment variable name '"@ + value + "'"@))
    }
}

/// What is said of the value of an environment variable.
pub open spec fn env_value_verdict(key: Seq<char>, value: Seq<char>) -> Result<
    (),
    DriverErrorView,
> {
    if value.contains('\n') || value.contains('\0') {
        Err(
            precondition(
                "environment variable '"@ + key
                    + "' contains an unsupported newline or NUL byte"@,
            ),
        )
    } else {
        Ok(())
    }
}

/// Checks that an identity can be part of a path.
pub fn validate_path_id(value: &str) -> (r: Result<(), SlurmDriverError>)
    ensures
        shown(r) == path_id_verdict(value@),
{
    let chars = text::chars_of(value);
    let mut valid = 1 <= chars.len() && chars.len() <= 128;
    let mut i: usize = 0;
    while i < chars.len() && valid
        invariant
            i <= chars.len(),
            chars@ == value@,
            valid ==> 1 <= value@.len() <= 128 && forall|j: int|
                0 <= j < i ==> is_path_char(#[trigger] value@[j]),
            !valid ==> !is_path_id(value@),
        decreases chars.len() - i,
    {
        let c = chars[i];
        if !(text::char_is_alphanumeric(c) || c == '.' || c == '_' || c == '-') {
            valid = false;
            assert(!is_path_char(value@[i as int]));
        }
        i += 1;
    }
    if valid {
        Ok(())
    } else {
        Err(
            SlurmDriverError::Precondition(
                "sandbox id must match [A-Za-z0-9._-]{1,128}".to_owned(),
            ),
        )
    }
}

/// Checks the name of an environment variable.
pub fn validate_env_name(value: &str) -> (r: Result<(), SlurmDriverError>)
    ensures
        shown(r) == env_name_verdict(value@),
{
    let chars = text::chars_of(value);
    if chars.len() == 0 {
        return Err(
            SlurmDriverError::Precondition(
                "environment variable name cannot be empty".to_owned(),
            ),
        );
    }
    let mut valid = chars[0] == '_' || text::char_is_letter(chars[0]);
    let ghost starts = valid;
    let mut i: usize = 1;
    while i < chars.len() && valid
        invariant
            1 <= i <= chars.len(),
            chars@ == value@,
            starts == starts_env_name(value@[0]),
            valid ==> starts && forall|j: int|
                1 <= j < i ==> (#[trigger] value@[j] == '_' || text::is_alphanumeric(value@[j])),
            !valid ==> !starts || exists|j: int|
                1 <= j < value@.len() && !(#[trigger] value@[j] == '_' || text::is_alphanumeric(
                    value@[j],
                )),
        decreases chars.len() - i,
    {
        let c = chars[i];
        if !(c == '_' || text::char_is_alphanumeric(c)) {
            valid = false;
            assert(!(value@[i as int] == '_' || text::is_alphanumeric(value@[i as int])));
        }
        i += 1;
    }
    if valid {
        Ok(())
    } else {
        Err(
            SlurmDriverError::Precondition(
                cat3("invalid environment variable name '", value, "'"),
            ),
        )
    }
}

/// Checks the value of an environment variable.
pub fn validate_env_value(key: &str, value: &str) -> (r: Result<(), SlurmDriverError>)
    ensures
        shown(r) == env_value_verdict(key@, value@),
{
    if text::contains_char(value, '\n') || text::contains_char(value, '\0') {
        Err(
            SlurmDriverError::Precondition(
                cat3(
                    "environment variable '",
                    key,
                    "' contains an unsupported newline or NUL byte",
                ),
            ),
        )
    } else {
        Ok(())
    }
}

// ---------------------------------------------------------------------------
// Images
// ---------------------------------------------------------------------------

/// An image that Apptainer takes as it is.
pub open spec fn is_apptainer_image(image: Seq<char>) -> bool {
    ||| text::starts_with(image, "docker://"@)
    ||| text::starts_with(image, "oras://"@)
    ||| text::starts_with(image, "library://"@)
    ||| (extension_of(image) matches Some(extension) && text::lower(extension) == "sif"@)
}

/// The image of a sandbox: its template's, or the configured one, with the
/// transport that Apptainer needs.
pub open spec fn image_of(sandbox: SandboxView, config: ConfigView) -> Seq<char> {
    let chosen = match sandbox.spec {
        Some(SpecView { template: Some(template), .. }) => if text::trimmed(
            template.image,
        ).len() > 0 {
            template.image
        } else {
            config.default_image
        },
        _ => config.default_image,
    };
    let image = text::trimmed(chosen);
    if image.len() == 0 {
        Seq::empty()
    } else if is_apptainer_image(image) {
        image
    } else {
        "docker://"@ + image
    }
}

fn has_sif_extension(path: &str) -> (r: bool)
    ensures
        r == (extension_of(path@) matches Some(extension) && text::lower(extension) == "sif"@),
{
    match paths::extension(path) {
        Some(extension) => {
            let lowered = text::to_lower(extension.as_str());
            text::same(lowered.as_str(), "sif")
        },
        None => false,
    }
}

/// The image of a sandbox, with the transport that Apptainer needs.
pub fn resolve_image(sandbox: &DriverSandbox, config: &SlurmComputeConfig) -> (r: String)
    ensures
        r@ == image_of(sandbox.deep_view(), config.deep_view()),
{
    let mut chosen = config.default_image.as_str();
    if let Some(spec) = &sandbox.spec {
        if let Some(template) = &spec.template {
            if !text::is_blank(template.image.as_str()) {
                chosen = template.image.as_str();
            }
        }
    }
    let image = text::trim(chosen);
    if image.is_empty() {
        let empty = String::new();
        assert(empty@ =~= Seq::empty());
        return empty;
    }
    if text::has_prefix(image, "docker://") || text::has_prefix(image, "oras://")
        || text::has_prefix(image, "library://") || has_sif_extension(image) {
        return image.to_owned();
    }
    cat2("docker://", image)
}

/// An image is never given without a transport, unless it is a file or empty.
pub proof fn law_image_has_transport(sandbox: SandboxView, config: ConfigView)
    ensures
        image_of(sandbox, config).len() == 0 || is_apptainer_image(image_of(sandbox, config)),
{
    let chosen = match sandbox.spec {
        Some(SpecView { template: Some(template), .. }) => if text::trimmed(
            template.image,
        ).len() > 0 {
            template.image
        } else {
            config.default_image
        },
        _ => config.default_image,
    };
    let image = text::trimmed(chosen);
    if image.len() > 0 && !is_apptainer_image(image) {
        let out = "docker://"@ + image;
        assert(out.take("docker://"@.len() as int) =~= "docker://"@);
    }
}

// ---------------------------------------------------------------------------
// Resources
// ---------------------------------------------------------------------------

/// The first of two texts that is not blank, without the space around it.
pub open spec fn first_filled(a: Seq<char>, b: Seq<char>) -> Option<Seq<char>> {
    if text::trimmed(a).len() > 0 {
        Some(text::trimmed(a))
    } else if text::trimmed(b).len() > 0 {
        Some(text::trimmed(b))
    } else {
        None
    }
}

/// The first of two texts that is not blank, without the space around it.
pub fn first_non_empty<'a>(a: &'a str, b: &'a str) -> (r: Option<&'a str>)
    ensures
        r.deep_view() == first_filled(a@, b@),
{
    let first = text::trim(a);
    if !first.is_empty() {
        return Some(first);
    }
    let second = text::trim(b);
    if !second.is_empty() {
        return Some(second);
    }
    None
}

/// The resources of a sandbox.
pub open spec fn resources_of(sandbox: SandboxView) -> Option<ResourcesView> {
    match sandbox.spec {
        Some(SpecView { template: Some(template), .. }) => template.resources,
        _ => None,
    }
}

/// The CPU quantity that a sandbox asks for: its limit, or else its request.
pub open spec fn cpu_text(sandbox: SandboxView) -> Option<Seq<char>> {
    match resources_of(sandbox) {
        Some(resources) => first_filled(resources.cpu_limit, resources.cpu_request),
        None => None,
    }
}

/// The memory quantity that a sandbox asks for: its limit, or else its request.
pub open spec fn memory_text(sandbox: SandboxView) -> Option<Seq<char>> {
    match resources_of(sandbox) {
        Some(resources) => first_filled(resources.memory_limit, resources.memory_request),
        None => None,
    }
}

/// The CPU quantity that a sandbox asks for.
pub fn slurm_cpu(sandbox: &DriverSandbox) -> (r: Option<&str>)
    ensures
        r.deep_view() == cpu_text(sandbox.deep_view()),
{
    if let Some(spec) = &sandbox.spec {
        if let Some(template) = &spec.template {
            if let Some(resources) = &template.resources {
                return first_non_empty(
                    resources.cpu_limit.as_str(),
                    resources.cpu_request.as_str(),
                );
            }
        }
    }
    None
}

/// The memory quantity that a sandbox asks for.
pub fn slurm_memory(sandbox: &DriverSandbox) -> (r: Option<&str>)
    ensures
        r.deep_view() == memory_text(sandbox.deep_view()),
{
    if let Some(spec) = &sandbox.spec {
        if let Some(template) = &spec.template {
            if let Some(resources) = &template.resources {
                return first_non_empty(
                    resources.memory_limit.as_str(),
                    resources.memory_request.as_str(),
                );
            }
        }
    }
    None
}

/// A CPU quantity: its number, and whether it counts thousandths of a core.
pub open spec fn cpu_parts(value: Seq<char>) -> (Seq<char>, bool) {
    let content = text::trimmed(value);
    if content.len() > 0 && content.last() == 'm' {
        (content.drop_last(), true)
    } else {
        (content, false)
    }
}

/// A CPU quantity: its number, and whether it counts thousandths of a core.
pub fn cpu_quantity(value: &str) -> (r: (&str, bool))
    ensures
        r.0@ == cpu_parts(value@).0,
        r.1 == cpu_parts(value@).1,
{
    let content = text::trim(value);
    let n = content.unicode_len();
    if n > 0 && content.get_char(n - 1) == 'm' {
        let number = content.substring_char(0, n - 1);
        proof {
            assert(content@.subrange(0, n - 1) =~= content@.drop_last());
        }
        return (number, true);
    }
    (content, false)
}

/// How many digits and dots a text starts with.
pub open spec fn leading_number(s: Seq<char>) -> nat
    decreases s.len(),
{
    if s.len() > 0 && (text::is_digit(s[0]) || s[0] == '.') {
        1 + leading_number(s.skip(1))
    } else {
        0
    }
}

/// A memory quantity: its number and its suffix.
pub open spec fn memory_parts(value: Seq<char>) -> (Seq<char>, Seq<char>) {
    let content = text::trimmed(value);
    let n = leading_number(content) as int;
    (content.take(n), content.skip(n))
}

/// A memory quantity: its number and its suffix.
pub fn memory_quantity(value: &str) -> (r: (&str, &str))
    ensures
        r.0@ == memory_parts(value@).0,
        r.1@ == memory_parts(value@).1,
{
    let content = text::trim(value);
    let ghost s = content@;
    let chars = text::chars_of(content);
    let mut n: usize = 0;
    proof {
        assert(s.skip(0) =~= s);
    }
    while n < chars.len() && (text::char_is_digit(chars[n]) || chars[n] == '.')
        invariant
            n <= chars.len(),
            chars@ == s,
            leading_number(s) == n + leading_number(s.skip(n as int)),
        decreases chars.len() - n,
    {
        proof {
            assert(s.skip(n as int)[0] == s[n as int]);
            assert(s.skip(n as int).skip(1) =~= s.skip(n + 1));
        }
        n += 1;
    }
    proof {
        if n < s.len() {
            assert(s.skip(n as int)[0] == s[n as int]);
        }
        assert(leading_number(s.skip(n as int)) == 0);
        assert(s.take(n as int) =~= s.subrange(0, n as int));
        assert(s.skip(n as int) =~= s.subrange(n as int, s.len() as int));
    }
    (content.substring_char(0, n), content.substring_char(n, chars.len()))
}

/// The unit of a memory quantity's suffix: a base and its power.
pub open spec fn unit_of(suffix: Seq<char>) -> Result<(u32, u32), DriverErrorView> {
    if suffix == ""@ {
        Ok((1, 1))
    } else if suffix == "Ki"@ {
        Ok((1024, 1))
    } else if suffix == "Mi"@ {
        Ok((1024, 2))
    } else if suffix == "Gi"@ {
        Ok((1024, 3))
    } else if suffix == "Ti"@ {
        Ok((1024, 4))
    } else if suffix == "K"@ || suffix == "k"@ {
        Ok((1000, 1))
    } else if suffix == "M"@ {
        Ok((1000, 2))
    } else if suffix == "G"@ {
        Ok((1000, 3))
    } else if suffix == "T"@ {
        Ok((1000, 4))
    } else {
        Err(precondition("invalid slurm memory quantity suffix '"@ + suffix + "'"@))
    }
}

/// The unit of a memory quantity's suffix: a base and its power.
pub fn memory_unit(suffix: &str) -> (r: Result<(u32, u32), SlurmDriverError>)
    ensures
        shown(r) == unit_of(suffix@),
{
    if text::same(suffix, "") {
        Ok((1, 1))
    } else if text::same(suffix, "Ki") {
        Ok((1024, 1))
    } else if text::same(suffix, "Mi") {
        Ok((1024, 2))
    } else if text::same(suffix, "Gi") {
        Ok((1024, 3))
    } else if text::same(suffix, "Ti") {
        Ok((1024, 4))
    } else if text::same(suffix, "K") || text::same(suffix, "k") {
        Ok((1000, 1))
    } else if text::same(suffix, "M") {
        Ok((1000, 2))
    } else if text::same(suffix, "G") {
        Ok((1000, 3))
    } else if text::same(suffix, "T") {
        Ok((1000, 4))
    } else {
        Err(
            SlurmDriverError::Precondition(
                cat3("invalid slurm memory quantity suffix '", suffix, "'"),
            ),
        )
    }
}

/// What a job asks Slurm for.
#[derive(Debug, Clone, PartialEq, Eq)]
pub struct SlurmResources {
    pub cpus_per_task: Option<u32>,
    pub mem: Option<String>,
}

/// The content of what a job asks for.
pub struct JobResourcesView {
    pub cpus_per_task: Option<u32>,
    pub mem: Option<Seq<char>>,
}

impl DeepView for SlurmResources {
    type V = JobResourcesView;

    open spec fn deep_view(&self) -> JobResourcesView {
        JobResourcesView { cpus_per_task: self.cpus_per_task, mem: self.mem.deep_view() }
    }
}

/// The content of the amount of a quantity, where one is asked for.
pub open spec fn amount_view<T>(amount: Option<Result<T, SlurmDriverError>>) -> Option<
    Result<T, DriverErrorView>,
> {
    match amount {
        None => None,
        Some(Ok(value)) => Some(Ok(value)),
        Some(Err(error)) => Some(Err(error.deep_view())),
    }
}

/// What a job asks for: whole cores and whole mebibytes.
pub open spec fn job_resources(
    cpus: Option<Result<u32, DriverErrorView>>,
    mebibytes: Option<Result<u64, DriverErrorView>>,
) -> Result<JobResourcesView, DriverErrorView> {
    match cpus {
        Some(Err(error)) => Err(error),
        _ => match mebibytes {
            Some(Err(error)) => Err(error),
            _ => Ok(
                JobResourcesView {
                    cpus_per_task: match cpus {
                        Some(Ok(count)) => Some(count),
                        _ => None,
                    },
                    mem: match mebibytes {
                        Some(Ok(amount)) => Some(text::decimal(amount as nat) + "M"@),
                        _ => None,
                    },
                },
            ),
        },
    }
}

/// What a job asks for, from the amounts of the quantities that its sandbox asks
/// for.
pub fn slurm_resources(
    cpus: Option<Result<u32, SlurmDriverError>>,
    mebibytes: Option<Result<u64, SlurmDriverError>>,
) -> (r: Result<SlurmResources, SlurmDriverError>)
    ensures
        shown(r) == job_resources(amount_view(cpus), amount_view(mebibytes)),
{
    let cpus_per_task: Option<u32> = match cpus {
        Some(Ok(count)) => Some(count),
        Some(Err(error)) => {
            return Err(error);
        },
        None => None,
    };
    let mem = match mebibytes {
        Some(Ok(amount)) => Some(cat2(text::decimal_of(amount).as_str(), "M")),
        Some(Err(error)) => {
            return Err(error);
        },
        None => None,
    };
    Ok(SlurmResources { cpus_per_task, mem })
}

// ---------------------------------------------------------------------------
// Shape
// ---------------------------------------------------------------------------

/// The first invalid name of an environment.
pub open spec fn first_bad_name(env: TextMap) -> Option<DriverErrorView>
    decreases env.len(),
{
    if env.len() == 0 {
        None
    } else {
        match env_name_verdict(env[0].0) {
            Err(error) => Some(error),
            Ok(_) => first_bad_name(env.skip(1)),
        }
    }
}

/// What is wrong with a sandbox, apart from its resources.
pub open spec fn shape_problem(sandbox: SandboxView, config: ConfigView) -> Option<
    DriverErrorView,
> {
    if text::trimmed(sandbox.id).len() == 0 {
        Some(precondition("sandbox id is required"@))
    } else if path_id_verdict(sandbox.id) is Err {
        Some(path_id_verdict(sandbox.id)->Err_0)
    } else if text::trimmed(sandbox.name).len() == 0 {
        Some(precondition("sandbox name is required"@))
    } else {
        match sandbox.spec {
            None => Some(precondition("sandbox.spec is required"@)),
            Some(spec) => match spec.template {
                None => Some(precondition("sandbox.spec.template is required"@)),
                Some(template) => if template.has_platform_config {
                    Some(
                        precondition(
                            "slurm compute driver does not support template.platform_config"@,
                        ),
                    )
                } else if spec.gpu && text::trimmed(spec.gpu_device).len() > 0 {
                    Some(
                        precondition(
                            "slurm compute driver does not support --gpu-device in the Apptainer MVP"@,
                        ),
                    )
                } else if text::trimmed(image_of(sandbox, config)).len() == 0 {
                    Some(
                        precondition(
                            "no sandbox image configured: set --sandbox-image on the server or provide an image in the sandbox template"@,
                        ),
                    )
                } else {
                    match first_bad_name(spec.environment) {
                        Some(error) => Some(error),
                        None => first_bad_name(template.environment),
                    }
                },
            },
        }
    }
}

/// What is said of a sandbox, from what reading its resources gave.
pub open spec fn shape_verdict(
    sandbox: SandboxView,
    config: ConfigView,
    resources: Result<JobResourcesView, DriverErrorView>,
) -> Result<(), DriverErrorView> {
    match shape_problem(sandbox, config) {
        Some(error) => Err(error),
        None => match resources {
            Err(error) => Err(error),
            Ok(_) => Ok(()),
        },
    }
}

fn find_bad_name(env: &Vec<(String, String)>) -> (r: Option<SlurmDriverError>)
    ensures
        r.deep_view() == first_bad_name(env.deep_view()),
{
    let ghost list = env.deep_view();
    let mut i: usize = 0;
    proof {
        assert(list.skip(0) =~= list);
    }
    while i < env.len()
        invariant
            i <= env.len(),
            list == env.deep_view(),
            first_bad_name(list) == first_bad_name(list.skip(i as int)),
        decreases env.len() - i,
    {
        proof {
            assert(list.skip(i as int)[0] == (env@[i as int].0@, env@[i as int].1@));
            assert(list.skip(i as int).skip(1) =~= list.skip(i + 1));
        }
        match validate_env_name(env[i].0.as_str()) {
            Ok(_) => {},
            Err(error) => {
                return Some(error);
            },
        }
        i += 1;
    }
    None
}

fn refusal(message: &str) -> (r: Result<(), SlurmDriverError>)
    ensures
        shown(r) == Err::<(), DriverErrorView>(precondition(message@)),
{
    Err(SlurmDriverError::Precondition(message.to_owned()))
}

/// Checks that a sandbox can be created, from what reading its resources gave.
pub fn validate_sandbox_shape(
    sandbox: &DriverSandbox,
    config: &SlurmComputeConfig,
    resources: Result<SlurmResources, SlurmDriverError>,
) -> (r: Result<(), SlurmDriverError>)
    ensures
        shown(r) == shape_verdict(sandbox.deep_view(), config.deep_view(), shown(resources)),
{
    if text::is_blank(sandbox.id.as_str()) {
        return refusal("sandbox id is required");
    }
    match validate_path_id(sandbox.id.as_str()) {
        Ok(_) => {},
        Err(error) => {
            return Err(error);
        },
    }
    if text::is_blank(sandbox.name.as_str()) {
        return refusal("sandbox name is required");
    }
    let spec = match &sandbox.spec {
        Some(spec) => spec,
        None => {
            return refusal("sandbox.spec is required");
        },
    };
    let template = match &spec.template {
        Some(template) => template,
        None => {
            return refusal("sandbox.spec.template is required");
        },
    };
    if template.has_platform_config {
        return refusal("slurm compute driver does not support template.platform_config");
    }
    if spec.gpu && !text::is_blank(spec.gpu_device.as_str()) {
        return refusal(
            "slurm compute driver does not support --gpu-device in the Apptainer MVP",
        );
    }
    let image = resolve_image(sandbox, config);
    if text::is_blank(image.as_str()) {
        return refusal(
            "no sandbox image configured: set --sandbox-image on the server or provide an image in the sandbox template",
        );
    }
    if let Some(error) = find_bad_name(&spec.environment) {
        return Err(error);
    }
    if let Some(error) = find_bad_name(&template.environment) {
        return Err(error);
    }
    match resources {
        Ok(_) => Ok(()),
        Err(error) => Err(error),
    }
}

} // verus!
