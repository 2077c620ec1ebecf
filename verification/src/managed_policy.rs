//! Pure admission decisions for a managed maximum policy.
//!
//! Callers compose the live candidate and the requested change before they call
//! this module. Persistence stays outside this boundary, so that every commit
//! point can make the same decision again right before it applies a change.

pub mod laws;

use crate::outcome::shown;
use crate::prover::envelope;
use crate::prover::envelope::{
    check_fits, check_within_auto_eligible_maximum, check_within_maximum, checkable,
    network_contained, policy_is_printable, unsupported, CheckView, CounterexampleView,
    MaximumPolicyCheck, MaximumView, PolicyCounterexample,
};
use crate::prover::policy::{
    model_of, parse_policy_str, ManagedPolicyMetadata, MetadataView, PolicyFile, PolicyModel,
    PolicyView,
};
use crate::text;
use crate::text::{cat2, cat3};
use vstd::prelude::*;

verus! {

/// User-selectable approval behavior inside a managed maximum.
#[derive(Debug, Clone, Copy, PartialEq, Eq, Structural)]
pub enum PermissionMode {
    Ask,
    Auto,
}

impl DeepView for PermissionMode {
    type V = PermissionMode;

    open spec fn deep_view(&self) -> PermissionMode {
        *self
    }
}

/// The mode that a text names, up to case and the space around it.
pub open spec fn mode_named(mode: Seq<char>) -> Option<PermissionMode> {
    let name = text::lower(text::trimmed(mode));
    if name == "ask"@ {
        Some(PermissionMode::Ask)
    } else if name == "auto"@ {
        Some(PermissionMode::Auto)
    } else {
        None
    }
}

/// Why a text names no mode.
pub open spec fn unknown_mode(mode: Seq<char>) -> Seq<char> {
    "unsupported managed permission mode '"@ + mode + "'; expected ask or auto"@
}

/// What parsing a mode gives.
pub open spec fn mode_parsed(mode: Seq<char>) -> Result<PermissionMode, Seq<char>> {
    match mode_named(mode) {
        Some(named) => Ok(named),
        None => Err(unknown_mode(mode)),
    }
}

impl PermissionMode {
    /// The name of a mode.
    pub open spec fn name(self) -> Seq<char> {
        match self {
            PermissionMode::Ask => "ask"@,
            PermissionMode::Auto => "auto"@,
        }
    }

    /// The variant of a mode, as it is written in messages.
    pub open spec fn variant(self) -> Seq<char> {
        match self {
            PermissionMode::Ask => "Ask"@,
            PermissionMode::Auto => "Auto"@,
        }
    }

    /// The mode that a text names.
    pub fn parse(mode: &str) -> (r: Result<PermissionMode, String>)
        ensures
            shown(r) == mode_parsed(mode@),
    {
        let name = text::to_lower(text::trim(mode));
        if text::same(name.as_str(), "ask") {
            Ok(PermissionMode::Ask)
        } else if text::same(name.as_str(), "auto") {
            Ok(PermissionMode::Auto)
        } else {
            Err(
                cat3(
                    "unsupported managed permission mode '",
                    mode,
                    "'; expected ask or auto",
                ),
            )
        }
    }

    /// The name of the mode.
    pub fn as_str(self) -> (r: &'static str)
        ensures
            r@ == self.name(),
    {
        match self {
            PermissionMode::Ask => "ask",
            PermissionMode::Auto => "auto",
        }
    }

    fn variant_name(self) -> (r: &'static str)
        ensures
            r@ == self.variant(),
    {
        match self {
            PermissionMode::Ask => "Ask",
            PermissionMode::Auto => "Auto",
        }
    }
}

/// A mode's name parses to the mode, and two modes have two names.
pub proof fn law_mode_name_parses(mode: PermissionMode)
    ensures
        mode_parsed(mode.name()) == Ok::<PermissionMode, Seq<char>>(mode),
{
    reveal_strlit("ask");
    reveal_strlit("auto");
    let name = mode.name();
    assert(name.len() > 0);
    assert(text::trim_start(name) == name);
    assert(text::trim_end(name) == name);
    assert(text::lower(name) =~= name);
    assert("ask"@.len() != "auto"@.len());
}

/// Origin of an authority-changing candidate.
#[derive(Debug, Clone, Copy, PartialEq, Eq, Structural)]
pub enum AdmissionSource {
    SandboxCreate,
    DirectAuthenticated,
    AgentProposal,
}

impl AdmissionSource {
    /// The name of a source.
    pub open spec fn name(self) -> Seq<char> {
        match self {
            AdmissionSource::SandboxCreate => "sandbox_create"@,
            AdmissionSource::DirectAuthenticated => "direct_authenticated"@,
            AdmissionSource::AgentProposal => "agent_proposal"@,
        }
    }

    /// The name of the source.
    pub fn as_str(self) -> (r: &'static str)
        ensures
            r@ == self.name(),
    {
        match self {
            AdmissionSource::SandboxCreate => "sandbox_create",
            AdmissionSource::DirectAuthenticated => "direct_authenticated",
            AdmissionSource::AgentProposal => "agent_proposal",
        }
    }
}

/// One active gateway-owned boundary.
pub struct ManagedBoundary<'a> {
    pub id: &'a str,
    pub version: u64,
    pub maximum: &'a PolicyModel,
    pub allowed_modes: &'a [PermissionMode],
}

/// The content of a boundary.
#[verifier::ext_equal]
pub struct BoundaryView {
    pub id: Seq<char>,
    pub version: u64,
    pub maximum: PolicyView,
    pub allowed_modes: Seq<PermissionMode>,
}

impl DeepView for ManagedBoundary<'_> {
    type V = BoundaryView;

    open spec fn deep_view(&self) -> BoundaryView {
        BoundaryView {
            id: self.id@,
            version: self.version,
            maximum: self.maximum.deep_view(),
            allowed_modes: self.allowed_modes@,
        }
    }
}

/// Validated, owned representation persisted by the gateway.
pub struct ManagedPolicyConfig {
    pub id: String,
    pub version: u64,
    pub maximum: PolicyModel,
    pub allowed_modes: Vec<PermissionMode>,
    pub default_mode: PermissionMode,
    pub audit_label: String,
}

/// The content of a managed policy configuration.
#[verifier::ext_equal]
pub struct ConfigView {
    pub id: Seq<char>,
    pub version: u64,
    pub maximum: PolicyView,
    pub allowed_modes: Seq<PermissionMode>,
    pub default_mode: PermissionMode,
    pub audit_label: Seq<char>,
}

impl DeepView for ManagedPolicyConfig {
    type V = ConfigView;

    open spec fn deep_view(&self) -> ConfigView {
        ConfigView {
            id: self.id@,
            version: self.version,
            maximum: self.maximum.deep_view(),
            allowed_modes: self.allowed_modes@,
            default_mode: self.default_mode,
            audit_label: self.audit_label@,
        }
    }
}

/// The modes that texts name, or why the first text that names none does not.
pub open spec fn modes_parsed(modes: Seq<Seq<char>>) -> Result<Seq<PermissionMode>, Seq<char>>
    decreases modes.len(),
{
    if modes.len() == 0 {
        Ok(Seq::empty())
    } else {
        match modes_parsed(modes.drop_last()) {
            Err(error) => Err(error),
            Ok(before) => match mode_parsed(modes.last()) {
                Err(error) => Err(error),
                Ok(mode) => Ok(before.push(mode)),
            },
        }
    }
}

/// The modes in order, each of them once.
pub open spec fn distinct_modes(modes: Seq<PermissionMode>) -> Seq<PermissionMode> {
    if modes.contains(PermissionMode::Ask) {
        if modes.contains(PermissionMode::Auto) {
            seq![PermissionMode::Ask, PermissionMode::Auto]
        } else {
            seq![PermissionMode::Ask]
        }
    } else if modes.contains(PermissionMode::Auto) {
        seq![PermissionMode::Auto]
    } else {
        Seq::empty()
    }
}

/// The modes that a document's metadata sets: those allowed and the default
/// among them, or why they are refused.
pub open spec fn modes_of(metadata: MetadataView) -> Result<
    (Seq<PermissionMode>, PermissionMode),
    Seq<char>,
> {
    match modes_parsed(metadata.allowed_modes) {
        Err(error) => Err(error),
        Ok(modes) => {
            let allowed = distinct_modes(modes);
            if allowed.len() == 0 {
                Err("managed maximum metadata.allowed_modes cannot be empty"@)
            } else {
                match mode_parsed(metadata.default_mode) {
                    Err(error) => Err(error),
                    Ok(default_mode) => if allowed.contains(default_mode) {
                        Ok((allowed, default_mode))
                    } else {
                        Err("managed maximum default_mode must be in allowed_modes"@)
                    },
                }
            }
        },
    }
}

/// The configuration that a document describes, or why it is refused before its
/// authority is looked at.
pub open spec fn config_described(policy: PolicyView) -> Result<ConfigView, Seq<char>> {
    if policy.version != 1 {
        Err(
            "managed maximum uses unsupported policy version "@ + text::decimal(
                policy.version as nat,
            ) + "; expected version 1"@,
        )
    } else {
        match policy.managed_metadata {
            None => Err("managed maximum requires a metadata block"@),
            Some(metadata) => if text::trimmed(metadata.policy_id).len() == 0 {
                Err("managed maximum metadata.policy_id is required"@)
            } else if metadata.version == 0 {
                Err("managed maximum metadata.version must be greater than zero"@)
            } else if metadata.extra_fields.len() > 0 {
                Err(
                    "managed maximum metadata contains unsupported fields: "@ + text::join(
                        metadata.extra_fields,
                        ", "@,
                    ),
                )
            } else {
                match modes_of(metadata) {
                    Err(error) => Err(error),
                    Ok((allowed_modes, default_mode)) => Ok(
                        ConfigView {
                            id: metadata.policy_id,
                            version: metadata.version,
                            maximum: policy,
                            allowed_modes,
                            default_mode,
                            audit_label: metadata.audit_label,
                        },
                    ),
                }
            },
        }
    }
}

/// A configuration once its maximum was checked against itself.
pub open spec fn config_settled(config: ConfigView, check: CheckView) -> Result<
    ConfigView,
    Seq<char>,
> {
    match check {
        CheckView::WithinMax => Ok(config),
        CheckView::Unsupported { reason } => Err(reason),
        CheckView::ExceedsMax { .. } => Err("managed maximum was not self-contained"@),
    }
}

/// What parsing a managed maximum may return: nothing but what its description
/// and a check of the maximum against itself give.
pub open spec fn config_fits(policy: PolicyView, result: Result<ConfigView, Seq<char>>) -> bool {
    match config_described(policy) {
        Err(error) => result == Err::<ConfigView, Seq<char>>(error),
        Ok(config) => exists|check: CheckView|
            #[trigger] check_fits(policy, policy, MaximumView::All, check) && result
                == config_settled(config, check),
    }
}

/// What a configuration always satisfies.
pub open spec fn config_is_valid(config: ConfigView) -> bool {
    &&& config.version > 0
    &&& text::trimmed(config.id).len() > 0
    &&& config.allowed_modes.len() > 0
    &&& config.allowed_modes.contains(config.default_mode)
    &&& config.allowed_modes.no_duplicates()
    &&& config.maximum.version == 1
    &&& unsupported("maximum"@, config.maximum) is None
}

fn parse_modes(modes: &Vec<String>) -> (r: Result<Vec<PermissionMode>, String>)
    ensures
        match r {
            Ok(parsed) => modes_parsed(modes.deep_view()) == Ok::<Seq<PermissionMode>, Seq<char>>(
                parsed@,
            ),
            Err(error) => modes_parsed(modes.deep_view()) == Err::<Seq<PermissionMode>, Seq<char>>(
                error@,
            ),
        },
{
    let ghost list = modes.deep_view();
    let mut parsed: Vec<PermissionMode> = Vec::new();
    let mut i: usize = 0;
    proof {
        assert(list.take(0) =~= Seq::empty());
        assert(parsed@ =~= Seq::empty());
    }
    while i < modes.len()
        invariant
            i <= modes.len(),
            list == modes.deep_view(),
            modes_parsed(list.take(i as int)) == Ok::<Seq<PermissionMode>, Seq<char>>(parsed@),
        decreases modes.len() - i,
    {
        proof {
            assert(list.take(i + 1).drop_last() =~= list.take(i as int));
            assert(list.take(i + 1).last() == modes@[i as int]@);
        }
        match PermissionMode::parse(modes[i].as_str()) {
            Ok(mode) => {
                parsed.push(mode);
            },
            Err(error) => {
                proof {
                    lemma_first_failure(list, i + 1);
                }
                return Err(error);
            },
        }
        i += 1;
    }
    proof {
        assert(list.take(i as int) =~= list);
    }
    Ok(parsed)
}

/// Where the first texts fail, all of them fail in the same way.
proof fn lemma_first_failure(modes: Seq<Seq<char>>, n: int)
    requires
        0 <= n <= modes.len(),
        modes_parsed(modes.take(n)) is Err,
    ensures
        modes_parsed(modes) == modes_parsed(modes.take(n)),
    decreases modes.len(),
{
    if n == modes.len() {
        assert(modes.take(n) =~= modes);
    } else {
        assert(modes.drop_last().take(n) =~= modes.take(n));
        lemma_first_failure(modes.drop_last(), n);
    }
}

fn holds_mode(modes: &[PermissionMode], mode: PermissionMode) -> (r: bool)
    ensures
        r == modes@.contains(mode),
{
    let mut i: usize = 0;
    while i < modes.len()
        invariant
            i <= modes@.len(),
            forall|j: int| 0 <= j < i ==> #[trigger] modes@[j] != mode,
        decreases modes@.len() - i,
    {
        if modes[i] == mode {
            assert(modes@.contains(modes@[i as int]));
            return true;
        }
        i += 1;
    }
    false
}

fn mode_set(modes: &Vec<PermissionMode>) -> (r: Vec<PermissionMode>)
    ensures
        r@ == distinct_modes(modes@),
{
    let mut set: Vec<PermissionMode> = Vec::new();
    if holds_mode(modes.as_slice(), PermissionMode::Ask) {
        set.push(PermissionMode::Ask);
    }
    if holds_mode(modes.as_slice(), PermissionMode::Auto) {
        set.push(PermissionMode::Auto);
    }
    assert(set@ =~= distinct_modes(modes@));
    set
}

fn modes_from(metadata: &ManagedPolicyMetadata) -> (r: Result<
    (Vec<PermissionMode>, PermissionMode),
    String,
>)
    ensures
        match r {
            Ok((allowed, default_mode)) => modes_of(metadata.deep_view()) == Ok::<
                (Seq<PermissionMode>, PermissionMode),
                Seq<char>,
            >((allowed@, default_mode)),
            Err(error) => modes_of(metadata.deep_view()) == Err::<
                (Seq<PermissionMode>, PermissionMode),
                Seq<char>,
            >(error@),
        },
{
    let modes = match parse_modes(&metadata.allowed_modes) {
        Ok(modes) => modes,
        Err(error) => {
            return Err(error);
        },
    };
    let allowed = mode_set(&modes);
    if allowed.len() == 0 {
        return Err("managed maximum metadata.allowed_modes cannot be empty".to_owned());
    }
    match PermissionMode::parse(metadata.default_mode.as_str()) {
        Ok(default_mode) => {
            if holds_mode(allowed.as_slice(), default_mode) {
                Ok((allowed, default_mode))
            } else {
                Err("managed maximum default_mode must be in allowed_modes".to_owned())
            }
        },
        Err(error) => Err(error),
    }
}

impl ManagedPolicyConfig {
    /// Reads a managed maximum document, where `parsed` is what reading the YAML
    /// text gave. Metadata comes from the document's top-level `metadata` block,
    /// authority from the prover's policy model.
    pub fn parse(parsed: Result<PolicyFile, String>) -> (r: Result<ManagedPolicyConfig, String>)
        requires
            parsed matches Ok(file) ==> (config_described(model_of(file)) is Ok ==> checkable(
                model_of(file),
                model_of(file),
            )),
        ensures
            match parsed {
                Err(_) => r matches Err(error) && error@ == "parsing policy YAML"@,
                Ok(file) => config_fits(model_of(file), shown(r)),
            },
    {
        let maximum = match parse_policy_str(parsed) {
            Ok(maximum) => maximum,
            Err(error) => {
                return Err(error);
            },
        };
        let config = match ManagedPolicyConfig::describe(maximum) {
            Ok(config) => config,
            Err(error) => {
                return Err(error);
            },
        };
        let check = check_within_maximum(&config.maximum, &config.maximum);
        let ghost policy = config.maximum.deep_view();
        let ghost found = check.deep_view();
        assert(check_fits(policy, policy, MaximumView::All, found));
        config.settle(check)
    }

    /// The configuration that a document describes, before its authority is
    /// looked at.
    pub fn describe(maximum: PolicyModel) -> (r: Result<ManagedPolicyConfig, String>)
        ensures
            shown(r) == config_described(maximum.deep_view()),
    {
        if maximum.version != 1 {
            let version = text::decimal_of(maximum.version as u64);
            return Err(
                cat3(
                    "managed maximum uses unsupported policy version ",
                    version.as_str(),
                    "; expected version 1",
                ),
            );
        }
        let (id, version, audit_label, modes) = match &maximum.managed_metadata {
            None => {
                return Err("managed maximum requires a metadata block".to_owned());
            },
            Some(metadata) => {
                if text::is_blank(metadata.policy_id.as_str()) {
                    return Err("managed maximum metadata.policy_id is required".to_owned());
                }
                if metadata.version == 0 {
                    return Err(
                        "managed maximum metadata.version must be greater than zero".to_owned(),
                    );
                }
                if metadata.extra_fields.len() > 0 {
                    let names = text::join_with(&metadata.extra_fields, ", ");
                    return Err(
                        cat2(
                            "managed maximum metadata contains unsupported fields: ",
                            names.as_str(),
                        ),
                    );
                }
                (
                    metadata.policy_id.clone(),
                    metadata.version,
                    metadata.audit_label.clone(),
                    modes_from(metadata),
                )
            },
        };
        match modes {
            Ok((allowed_modes, default_mode)) => Ok(
                ManagedPolicyConfig {
                    id,
                    version,
                    maximum,
                    allowed_modes,
                    default_mode,
                    audit_label,
                },
            ),
            Err(error) => Err(error),
        }
    }

    /// The configuration once its maximum was checked against itself.
    pub fn settle(self, check: MaximumPolicyCheck) -> (r: Result<ManagedPolicyConfig, String>)
        ensures
            shown(r) == config_settled(self.deep_view(), check.deep_view()),
    {
        match check {
            MaximumPolicyCheck::WithinMax => Ok(self),
            MaximumPolicyCheck::Unsupported { reason } => Err(reason),
            MaximumPolicyCheck::ExceedsMax { counterexample } => {
                Err("managed maximum was not self-contained".to_owned())
            },
        }
    }

    /// The boundary that the configuration draws.
    pub fn boundary(&self) -> (r: ManagedBoundary<'_>)
        ensures
            r.deep_view() == boundary_of(self.deep_view()),
    {
        ManagedBoundary {
            id: self.id.as_str(),
            version: self.version,
            maximum: &self.maximum,
            allowed_modes: self.allowed_modes.as_slice(),
        }
    }
}

/// The boundary that a configuration draws.
pub open spec fn boundary_of(config: ConfigView) -> BoundaryView {
    BoundaryView {
        id: config.id,
        version: config.version,
        maximum: config.maximum,
        allowed_modes: config.allowed_modes,
    }
}

/// A parsed configuration is valid, and keeps the document it was parsed from.
pub proof fn law_parsed_config_is_valid(
    policy: PolicyView,
    result: Result<ConfigView, Seq<char>>,
)
    requires
        config_fits(policy, result),
        result is Ok,
    ensures
        config_is_valid(result->Ok_0),
        result->Ok_0.maximum == policy,
{
}

/// Result shared by all authority commit points.
#[derive(Debug, Clone, PartialEq, Eq)]
pub enum AdmissionDecision {
    /// No managed maximum exists; the caller must use existing behavior.
    Unmanaged,
    Apply,
    Ask { reason: String, counterexample: Option<PolicyCounterexample> },
    Reject { reason: String, counterexample: Option<PolicyCounterexample> },
}

/// The content of an admission decision.
pub enum DecisionView {
    Unmanaged,
    Apply,
    Ask { reason: Seq<char>, counterexample: Option<CounterexampleView> },
    Reject { reason: Seq<char>, counterexample: Option<CounterexampleView> },
}

impl DeepView for AdmissionDecision {
    type V = DecisionView;

    open spec fn deep_view(&self) -> DecisionView {
        match self {
            AdmissionDecision::Unmanaged => DecisionView::Unmanaged,
            AdmissionDecision::Apply => DecisionView::Apply,
            AdmissionDecision::Ask { reason, counterexample } => DecisionView::Ask {
                reason: reason@,
                counterexample: counterexample.deep_view(),
            },
            AdmissionDecision::Reject { reason, counterexample } => DecisionView::Reject {
                reason: reason@,
                counterexample: counterexample.deep_view(),
            },
        }
    }
}

/// A boundary's identity and version.
pub open spec fn boundary_name(boundary: BoundaryView) -> Seq<char> {
    boundary.id + "@"@ + text::decimal(boundary.version as nat)
}

/// The refusal of a candidate whose check against the maximum gave a result, or
/// nothing where the candidate is within the maximum.
pub open spec fn refusal(boundary: BoundaryView, check: CheckView) -> Option<DecisionView> {
    match check {
        CheckView::WithinMax => None,
        CheckView::ExceedsMax { counterexample } => Some(
            DecisionView::Reject {
                reason: "candidate exceeds managed maximum "@ + boundary_name(boundary),
                counterexample: Some(counterexample),
            },
        ),
        CheckView::Unsupported { reason } => Some(
            DecisionView::Reject {
                reason: "candidate cannot be evaluated against managed maximum "@ + boundary_name(
                    boundary,
                ) + ": "@ + reason,
                counterexample: None,
            },
        ),
    }
}

/// The decision on a new sandbox, from the check of its authority against what
/// needs no review.
pub open spec fn create_decision(check: CheckView) -> DecisionView {
    match check {
        CheckView::WithinMax => DecisionView::Apply,
        CheckView::ExceedsMax { counterexample } => DecisionView::Reject {
            reason: "sandbox creation includes review-required authority"@,
            counterexample: Some(counterexample),
        },
        CheckView::Unsupported { reason } => DecisionView::Reject { reason, counterexample: None },
    }
}

/// The decision on a proposal in automatic mode, from the check of the requested
/// change against what needs no review.
pub open spec fn proposal_decision(check: CheckView) -> DecisionView {
    match check {
        CheckView::WithinMax => DecisionView::Apply,
        CheckView::ExceedsMax { counterexample } => DecisionView::Ask {
            reason: "requested authority is inside the maximum but requires review"@,
            counterexample: Some(counterexample),
        },
        CheckView::Unsupported { reason } => DecisionView::Reject { reason, counterexample: None },
    }
}

/// The results of the checks that an admission rests on. A check that was not made
/// has none.
pub struct ChecksView {
    /// The candidate against the maximum.
    pub candidate: Option<CheckView>,
    /// The candidate against the part of the maximum that needs no review.
    pub created: Option<CheckView>,
    /// The candidate against the current policy.
    pub removal: Option<CheckView>,
    /// The requested change against the part of the maximum that needs no review.
    pub requested: Option<CheckView>,
}

/// The candidate is within the current policy, so that it only removes authority.
pub open spec fn only_removes(checks: ChecksView) -> bool {
    checks.removal == Some(CheckView::WithinMax)
}

/// The checks that the decision depends on were made.
pub open spec fn checks_suffice(
    boundary: Option<BoundaryView>,
    mode: PermissionMode,
    source: AdmissionSource,
    checks: ChecksView,
) -> bool {
    boundary matches Some(boundary) ==> boundary.allowed_modes.contains(mode) ==> {
        &&& checks.candidate is Some
        &&& checks.candidate->0 is WithinMax ==> match source {
            AdmissionSource::SandboxCreate => checks.created is Some,
            AdmissionSource::DirectAuthenticated => true,
            AdmissionSource::AgentProposal => only_removes(checks) || mode == PermissionMode::Ask
                || checks.requested is Some,
        }
    }
}

/// What admission decides on the results of its checks: nothing without a boundary,
/// a refusal for a mode that the boundary does not allow or a candidate that is not
/// within its maximum, and otherwise what the source and the mode ask for.
pub open spec fn admission_of(
    boundary: Option<BoundaryView>,
    mode: PermissionMode,
    source: AdmissionSource,
    checks: ChecksView,
) -> DecisionView {
    match boundary {
        None => DecisionView::Unmanaged,
        Some(boundary) => if !boundary.allowed_modes.contains(mode) {
            DecisionView::Reject {
                reason: "permission mode "@ + mode.variant()
                    + " is not allowed by managed maximum "@ + boundary_name(boundary),
                counterexample: None,
            }
        } else {
            match refusal(boundary, checks.candidate->0) {
                Some(refused) => refused,
                None => match source {
                    AdmissionSource::SandboxCreate => create_decision(checks.created->0),
                    AdmissionSource::DirectAuthenticated => DecisionView::Apply,
                    AdmissionSource::AgentProposal => if only_removes(checks) {
                        DecisionView::Apply
                    } else if mode == PermissionMode::Ask {
                        DecisionView::Ask {
                            reason: "managed permission mode requires approval"@,
                            counterexample: None,
                        }
                    } else {
                        proposal_decision(checks.requested->0)
                    },
                },
            }
        },
    }
}

/// The checks are those of the given policies: each that was made gave a result of
/// its check, and the current policy was checked where a proposal may only remove
/// authority from it.
pub open spec fn checks_fit(
    boundary: Option<BoundaryView>,
    source: AdmissionSource,
    current: Option<PolicyView>,
    candidate: PolicyView,
    requested_delta: PolicyView,
    checks: ChecksView,
) -> bool {
    boundary matches Some(boundary) ==> {
        &&& checks.candidate matches Some(check) ==> check_fits(
            boundary.maximum,
            candidate,
            MaximumView::All,
            check,
        )
        &&& checks.created matches Some(check) ==> check_fits(
            boundary.maximum,
            candidate,
            MaximumView::AutoEligible,
            check,
        )
        &&& checks.requested matches Some(check) ==> check_fits(
            boundary.maximum,
            requested_delta,
            MaximumView::AutoEligible,
            check,
        )
        &&& match current {
            None => checks.removal is None,
            Some(policy) => {
                &&& checks.removal matches Some(check) ==> check_fits(
                    policy,
                    candidate,
                    MaximumView::All,
                    check,
                )
                &&& source == AdmissionSource::AgentProposal && checks.candidate == Some(
                    CheckView::WithinMax,
                ) ==> checks.removal is Some
            },
        }
    }
}

/// What admission decides: what follows from results of the checks that it needs.
pub open spec fn admission_fits(
    boundary: Option<BoundaryView>,
    mode: PermissionMode,
    source: AdmissionSource,
    current: Option<PolicyView>,
    candidate: PolicyView,
    requested_delta: PolicyView,
    decision: DecisionView,
) -> bool {
    exists|checks: ChecksView|
        checks_fit(boundary, source, current, candidate, requested_delta, checks)
            && checks_suffice(boundary, mode, source, checks) && decision
            == #[trigger] admission_of(boundary, mode, source, checks)
}

/// The solver can take every policy that admission may have to check.
pub open spec fn admissible(
    boundary: Option<BoundaryView>,
    mode: PermissionMode,
    source: AdmissionSource,
    current: Option<PolicyView>,
    candidate: PolicyView,
    requested_delta: PolicyView,
) -> bool {
    match boundary {
        None => true,
        Some(boundary) => boundary.allowed_modes.contains(mode) ==> {
            &&& checkable(boundary.maximum, candidate)
            &&& source == AdmissionSource::AgentProposal ==> {
                &&& current matches Some(policy) ==> checkable(policy, candidate)
                &&& mode == PermissionMode::Auto ==> checkable(boundary.maximum, requested_delta)
            }
        },
    }
}

/// The refusal of a candidate whose check against the maximum gave a result.
pub fn refuse(boundary: &ManagedBoundary<'_>, check: MaximumPolicyCheck) -> (r: Option<
    AdmissionDecision,
>)
    ensures
        r.deep_view() == refusal(boundary.deep_view(), check.deep_view()),
{
    let version = text::decimal_of(boundary.version);
    match check {
        MaximumPolicyCheck::WithinMax => None,
        MaximumPolicyCheck::ExceedsMax { counterexample } => {
            let name = cat3(boundary.id, "@", version.as_str());
            Some(
                AdmissionDecision::Reject {
                    reason: cat2("candidate exceeds managed maximum ", name.as_str()),
                    counterexample: Some(*counterexample),
                },
            )
        },
        MaximumPolicyCheck::Unsupported { reason } => {
            let name = cat3(boundary.id, "@", version.as_str());
            Some(
                AdmissionDecision::Reject {
                    reason: text::cat4(
                        "candidate cannot be evaluated against managed maximum ",
                        name.as_str(),
                        ": ",
                        reason.as_str(),
                    ),
                    counterexample: None,
                },
            )
        },
    }
}

/// The decision on a new sandbox, from the check of its authority against what
/// needs no review.
pub fn decide_create(check: MaximumPolicyCheck) -> (r: AdmissionDecision)
    ensures
        r.deep_view() == create_decision(check.deep_view()),
{
    match check {
        MaximumPolicyCheck::WithinMax => AdmissionDecision::Apply,
        MaximumPolicyCheck::ExceedsMax { counterexample } => AdmissionDecision::Reject {
            reason: "sandbox creation includes review-required authority".to_owned(),
            counterexample: Some(*counterexample),
        },
        MaximumPolicyCheck::Unsupported { reason } => AdmissionDecision::Reject {
            reason,
            counterexample: None,
        },
    }
}

/// The decision on a proposal in automatic mode, from the check of the requested
/// change against what needs no review.
pub fn decide_proposal(check: MaximumPolicyCheck) -> (r: AdmissionDecision)
    ensures
        r.deep_view() == proposal_decision(check.deep_view()),
{
    match check {
        MaximumPolicyCheck::WithinMax => AdmissionDecision::Apply,
        MaximumPolicyCheck::ExceedsMax { counterexample } => AdmissionDecision::Ask {
            reason: "requested authority is inside the maximum but requires review".to_owned(),
            counterexample: Some(*counterexample),
        },
        MaximumPolicyCheck::Unsupported { reason } => AdmissionDecision::Reject {
            reason,
            counterexample: None,
        },
    }
}

/// The results of the checks that an admission rests on. A check that was not made
/// has none.
#[derive(Debug, Clone, PartialEq, Eq)]
pub struct AdmissionChecks {
    /// The candidate against the maximum.
    pub candidate: Option<MaximumPolicyCheck>,
    /// The candidate against the part of the maximum that needs no review.
    pub created: Option<MaximumPolicyCheck>,
    /// The candidate against the current policy.
    pub removal: Option<MaximumPolicyCheck>,
    /// The requested change against the part of the maximum that needs no review.
    pub requested: Option<MaximumPolicyCheck>,
}

impl DeepView for AdmissionChecks {
    type V = ChecksView;

    open spec fn deep_view(&self) -> ChecksView {
        ChecksView {
            candidate: self.candidate.deep_view(),
            created: self.created.deep_view(),
            removal: self.removal.deep_view(),
            requested: self.requested.deep_view(),
        }
    }
}

fn is_within_max(check: &Option<MaximumPolicyCheck>) -> (r: bool)
    ensures
        r == (check.deep_view() == Some(CheckView::WithinMax)),
{
    match check {
        Some(MaximumPolicyCheck::WithinMax) => true,
        _ => false,
    }
}

/// Decides on the results of the checks.
pub fn decide_admission(
    boundary: Option<&ManagedBoundary<'_>>,
    mode: PermissionMode,
    source: AdmissionSource,
    checks: AdmissionChecks,
) -> (r: AdmissionDecision)
    requires
        checks_suffice(boundary.deep_view(), mode, source, checks.deep_view()),
    ensures
        r.deep_view() == admission_of(boundary.deep_view(), mode, source, checks.deep_view()),
{
    let boundary = match boundary {
        Some(boundary) => boundary,
        None => {
            return AdmissionDecision::Unmanaged;
        },
    };
    if !holds_mode(boundary.allowed_modes, mode) {
        let version = text::decimal_of(boundary.version);
        let name = cat3(boundary.id, "@", version.as_str());
        return AdmissionDecision::Reject {
            reason: text::cat4(
                "permission mode ",
                mode.variant_name(),
                " is not allowed by managed maximum ",
                name.as_str(),
            ),
            counterexample: None,
        };
    }
    let removes = is_within_max(&checks.removal);
    if let Some(refused) = refuse(boundary, checks.candidate.unwrap()) {
        return refused;
    }
    match source {
        AdmissionSource::SandboxCreate => decide_create(checks.created.unwrap()),
        AdmissionSource::DirectAuthenticated => AdmissionDecision::Apply,
        AdmissionSource::AgentProposal => {
            if removes {
                AdmissionDecision::Apply
            } else if mode == PermissionMode::Ask {
                AdmissionDecision::Ask {
                    reason: "managed permission mode requires approval".to_owned(),
                    counterexample: None,
                }
            } else {
                decide_proposal(checks.requested.unwrap())
            }
        },
    }
}

/// Makes the checks that the decision on a candidate depends on.
fn make_checks(
    boundary: &ManagedBoundary<'_>,
    mode: PermissionMode,
    source: AdmissionSource,
    current: Option<&PolicyModel>,
    candidate: &PolicyModel,
    requested_delta: &PolicyModel,
) -> (r: AdmissionChecks)
    requires
        boundary.deep_view().allowed_modes.contains(mode),
        admissible(
            Some(boundary.deep_view()),
            mode,
            source,
            current.deep_view(),
            candidate.deep_view(),
            requested_delta.deep_view(),
        ),
    ensures
        checks_fit(
            Some(boundary.deep_view()),
            source,
            current.deep_view(),
            candidate.deep_view(),
            requested_delta.deep_view(),
            r.deep_view(),
        ),
        checks_suffice(Some(boundary.deep_view()), mode, source, r.deep_view()),
{
    let mut checks = AdmissionChecks {
        candidate: Some(check_within_maximum(boundary.maximum, candidate)),
        created: None,
        removal: None,
        requested: None,
    };
    if !is_within_max(&checks.candidate) {
        return checks;
    }
    if source == AdmissionSource::SandboxCreate {
        checks.created = Some(check_within_auto_eligible_maximum(boundary.maximum, candidate));
    }
    if source == AdmissionSource::AgentProposal {
        if let Some(current) = current {
            checks.removal = Some(check_within_maximum(current, candidate));
        }
        if !is_within_max(&checks.removal) && mode == PermissionMode::Auto {
            checks.requested = Some(
                check_within_auto_eligible_maximum(boundary.maximum, requested_delta),
            );
        }
    }
    checks
}

/// Decides whether one fully composed candidate may be committed.
pub fn admit_candidate(
    boundary: Option<&ManagedBoundary<'_>>,
    mode: PermissionMode,
    source: AdmissionSource,
    current: Option<&PolicyModel>,
    candidate: &PolicyModel,
    requested_delta: &PolicyModel,
) -> (r: AdmissionDecision)
    requires
        admissible(
            boundary.deep_view(),
            mode,
            source,
            current.deep_view(),
            candidate.deep_view(),
            requested_delta.deep_view(),
        ),
    ensures
        admission_fits(
            boundary.deep_view(),
            mode,
            source,
            current.deep_view(),
            candidate.deep_view(),
            requested_delta.deep_view(),
            r.deep_view(),
        ),
{
    let mut checks = AdmissionChecks {
        candidate: None,
        created: None,
        removal: None,
        requested: None,
    };
    if let Some(boundary) = boundary {
        if holds_mode(boundary.allowed_modes, mode) {
            checks = make_checks(boundary, mode, source, current, candidate, requested_delta);
        }
    }
    decide_admission(boundary, mode, source, checks)
}

// ---------------------------------------------------------------------------
// Laws
// ---------------------------------------------------------------------------

/// The candidate's network authority and filesystem authority are within the
/// maximum.
pub open spec fn is_within(
    maximum: PolicyView,
    candidate: PolicyView,
    view: MaximumView,
) -> bool {
    &&& envelope::filesystem_verdict(maximum, candidate) is None
    &&& network_contained(maximum, candidate, view)
}

/// A decision is `Unmanaged` exactly where there is no boundary.
pub proof fn law_unmanaged_without_boundary(
    boundary: Option<BoundaryView>,
    mode: PermissionMode,
    source: AdmissionSource,
    current: Option<PolicyView>,
    candidate: PolicyView,
    requested_delta: PolicyView,
    decision: DecisionView,
)
    requires
        admission_fits(boundary, mode, source, current, candidate, requested_delta, decision),
    ensures
        decision is Unmanaged <==> boundary is None,
{
}

/// Nothing outside the maximum is applied or held for approval, whatever the
/// mode and the source, where the texts of the policies are printable ASCII.
pub proof fn law_outside_maximum_is_rejected(
    boundary: BoundaryView,
    mode: PermissionMode,
    source: AdmissionSource,
    current: Option<PolicyView>,
    candidate: PolicyView,
    requested_delta: PolicyView,
    decision: DecisionView,
)
    requires
        policy_is_printable(boundary.maximum),
        policy_is_printable(candidate),
        admission_fits(
            Some(boundary),
            mode,
            source,
            current,
            candidate,
            requested_delta,
            decision,
        ),
        !is_within(boundary.maximum, candidate, MaximumView::All),
    ensures
        decision is Reject,
{
}

/// A candidate is held for approval exactly where an agent proposes it in a mode that
/// the boundary allows, it is within the maximum, it is not found to remove authority
/// only, and either the mode asks or the requested change is found to need review.
pub proof fn law_ask_exactly(
    boundary: Option<BoundaryView>,
    mode: PermissionMode,
    source: AdmissionSource,
    checks: ChecksView,
)
    requires
        checks_suffice(boundary, mode, source, checks),
    ensures
        admission_of(boundary, mode, source, checks) is Ask <==> {
            &&& boundary is Some
            &&& boundary->0.allowed_modes.contains(mode)
            &&& checks.candidate == Some(CheckView::WithinMax)
            &&& source == AdmissionSource::AgentProposal
            &&& checks.removal != Some(CheckView::WithinMax)
            &&& mode == PermissionMode::Ask || checks.requested->0 is ExceedsMax
        },
{
}

/// A sandbox is created with no authority that needs review, where the texts of the
/// policies are printable ASCII.
pub proof fn law_created_authority_needs_no_review(
    boundary: BoundaryView,
    mode: PermissionMode,
    current: Option<PolicyView>,
    candidate: PolicyView,
    requested_delta: PolicyView,
    decision: DecisionView,
)
    requires
        policy_is_printable(boundary.maximum),
        policy_is_printable(candidate),
        admission_fits(
            Some(boundary),
            mode,
            AdmissionSource::SandboxCreate,
            current,
            candidate,
            requested_delta,
            decision,
        ),
        decision is Apply,
    ensures
        is_within(boundary.maximum, candidate, MaximumView::AutoEligible),
{
}

/// A proposal that is applied in a mode that asks removes authority only, where the
/// texts of the policies are printable ASCII.
pub proof fn law_ask_mode_applies_removals_only(
    boundary: BoundaryView,
    current: PolicyView,
    candidate: PolicyView,
    requested_delta: PolicyView,
    decision: DecisionView,
)
    requires
        policy_is_printable(current),
        policy_is_printable(candidate),
        admission_fits(
            Some(boundary),
            PermissionMode::Ask,
            AdmissionSource::AgentProposal,
            Some(current),
            candidate,
            requested_delta,
            decision,
        ),
        decision is Apply,
    ensures
        is_within(current, candidate, MaximumView::All),
{
}

/// A proposal that is applied on its own either removes authority only or asks
/// for a change that needs no review, where the texts of the policies are printable ASCII.
pub proof fn law_auto_mode_applies_eligible_grants(
    boundary: BoundaryView,
    current: PolicyView,
    candidate: PolicyView,
    requested_delta: PolicyView,
    decision: DecisionView,
)
    requires
        policy_is_printable(boundary.maximum),
        policy_is_printable(current),
        policy_is_printable(candidate),
        policy_is_printable(requested_delta),
        admission_fits(
            Some(boundary),
            PermissionMode::Auto,
            AdmissionSource::AgentProposal,
            Some(current),
            candidate,
            requested_delta,
            decision,
        ),
        decision is Apply,
    ensures
        is_within(current, candidate, MaximumView::All) || is_within(
            boundary.maximum,
            requested_delta,
            MaximumView::AutoEligible,
        ),
{
}

/// What an authenticated user asks for within the maximum is applied, where the
/// boundary allows the mode: never held for approval.
pub proof fn law_direct_edit_is_never_held(
    boundary: BoundaryView,
    mode: PermissionMode,
    current: Option<PolicyView>,
    candidate: PolicyView,
    requested_delta: PolicyView,
    decision: DecisionView,
)
    requires
        admission_fits(
            Some(boundary),
            mode,
            AdmissionSource::DirectAuthenticated,
            current,
            candidate,
            requested_delta,
            decision,
        ),
    ensures
        decision is Apply || decision is Reject,
{
}

} // verus!
