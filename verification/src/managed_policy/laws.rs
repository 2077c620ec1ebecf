//! What a managed maximum is, and what admission decides under it.

use crate::managed_policy::{
    admission_of, checks_suffice, config_described, config_settled, mode_named, mode_parsed,
    modes_of, modes_parsed, AdmissionSource, BoundaryView, ChecksView, DecisionView,
    PermissionMode,
};
use crate::prover::envelope::CheckView;
use crate::prover::policy::{MetadataView, PolicyView};
use crate::text;
use vstd::prelude::*;

verus! {

// ---------------------------------------------------------------------------
// Decisions
// ---------------------------------------------------------------------------

/// A change is applied under a boundary exactly where the boundary allows the mode, the
/// candidate is within its maximum, and the source may apply it: a new sandbox where the
/// candidate needs no review, an authenticated user always, and an agent where the candidate
/// only removes authority, or the mode is automatic and the request needs no review.
pub proof fn law_applied_exactly(
    boundary: BoundaryView,
    mode: PermissionMode,
    source: AdmissionSource,
    checks: ChecksView,
)
    requires
        checks_suffice(Some(boundary), mode, source, checks),
    ensures
        admission_of(Some(boundary), mode, source, checks) is Apply <==> {
            &&& boundary.allowed_modes.contains(mode)
            &&& checks.candidate == Some(CheckView::WithinMax)
            &&& source == AdmissionSource::SandboxCreate ==> checks.created == Some(
                CheckView::WithinMax,
            )
            &&& source == AdmissionSource::AgentProposal ==> {
                ||| checks.removal == Some(CheckView::WithinMax)
                ||| mode == PermissionMode::Auto && checks.requested == Some(CheckView::WithinMax)
            }
        },
{
}

/// A change is refused under a boundary exactly where the boundary does not allow the mode,
/// the candidate is not found within its maximum, a new sandbox is not found to need no
/// review, or a request in automatic mode cannot be checked.
pub proof fn law_rejected_exactly(
    boundary: BoundaryView,
    mode: PermissionMode,
    source: AdmissionSource,
    checks: ChecksView,
)
    requires
        checks_suffice(Some(boundary), mode, source, checks),
    ensures
        admission_of(Some(boundary), mode, source, checks) is Reject <==> {
            ||| !boundary.allowed_modes.contains(mode)
            ||| checks.candidate != Some(CheckView::WithinMax)
            ||| source == AdmissionSource::SandboxCreate && checks.created != Some(
                CheckView::WithinMax,
            )
            ||| source == AdmissionSource::AgentProposal && checks.removal != Some(
                CheckView::WithinMax,
            ) && mode == PermissionMode::Auto && checks.requested->0 is Unsupported
        },
        admission_of(None, mode, source, checks) is Unmanaged,
        !(admission_of(Some(boundary), mode, source, checks) is Unmanaged),
{
}

/// A candidate that exceeds the maximum is refused with the action that exceeds it, and with
/// the maximum's identity and version. One that cannot be checked is refused with the
/// reason, and without an action.
pub proof fn law_refusals_name_the_maximum(
    boundary: BoundaryView,
    mode: PermissionMode,
    source: AdmissionSource,
    checks: ChecksView,
)
    requires
        boundary.allowed_modes.contains(mode),
    ensures
        checks.candidate matches Some(CheckView::ExceedsMax { counterexample }) ==> admission_of(
            Some(boundary),
            mode,
            source,
            checks,
        ) == (DecisionView::Reject {
            reason: "candidate exceeds managed maximum "@ + (boundary.id + "@"@ + text::decimal(
                boundary.version as nat,
            )),
            counterexample: Some(counterexample),
        }),
        checks.candidate matches Some(CheckView::Unsupported { reason }) ==> admission_of(
            Some(boundary),
            mode,
            source,
            checks,
        ) == (DecisionView::Reject {
            reason: "candidate cannot be evaluated against managed maximum "@ + (boundary.id + "@"@
                + text::decimal(boundary.version as nat)) + ": "@ + reason,
            counterexample: None,
        }),
{
}

/// What is held for approval in automatic mode is held with the action that needs review.
pub proof fn law_held_requests_are_shown(
    boundary: BoundaryView,
    checks: ChecksView,
)
    requires
        boundary.allowed_modes.contains(PermissionMode::Auto),
        checks.candidate == Some(CheckView::WithinMax),
        checks.removal != Some(CheckView::WithinMax),
        checks.requested matches Some(CheckView::ExceedsMax { .. }),
    ensures
        admission_of(
            Some(boundary),
            PermissionMode::Auto,
            AdmissionSource::AgentProposal,
            checks,
        ) matches DecisionView::Ask { counterexample, .. } && counterexample == Some(
            checks.requested->0->counterexample,
        ),
{
}

// ---------------------------------------------------------------------------
// Managed maximums
// ---------------------------------------------------------------------------

/// There are two modes, `ask` and `auto`, in whatever case and with whatever space around
/// them.
pub proof fn law_modes(mode: Seq<char>)
    ensures
        mode_parsed(mode) == Ok::<PermissionMode, Seq<char>>(PermissionMode::Ask) <==> text::lower(
            text::trimmed(mode),
        ) == "ask"@,
        mode_parsed(mode) == Ok::<PermissionMode, Seq<char>>(PermissionMode::Auto) <==> text::lower(
            text::trimmed(mode),
        ) == "auto"@,
{
    reveal_strlit("ask");
    reveal_strlit("auto");
    assert("ask"@.len() == 3 && "auto"@.len() == 4);
}

proof fn lemma_modes_parsed(modes: Seq<Seq<char>>)
    ensures
        modes_parsed(modes) is Ok <==> forall|i: int|
            0 <= i < modes.len() ==> mode_named(#[trigger] modes[i]) is Some,
        modes_parsed(modes) matches Ok(parsed) ==> parsed.len() == modes.len() && forall|i: int|
            0 <= i < modes.len() ==> mode_named(#[trigger] modes[i]) == Some(parsed[i]),
    decreases modes.len(),
{
    if modes.len() > 0 {
        let before = modes.drop_last();
        lemma_modes_parsed(before);
        assert(modes.last() == modes[modes.len() - 1]);
        if modes_parsed(modes) is Ok {
            assert forall|i: int| 0 <= i < modes.len() implies mode_named(#[trigger] modes[i])
                == Some(modes_parsed(modes)->Ok_0[i]) by {
                if i < before.len() {
                    assert(before[i] == modes[i]);
                }
            }
        } else {
            if modes_parsed(before) is Err {
                let i = choose|i: int|
                    0 <= i < before.len() && !(mode_named(#[trigger] before[i]) is Some);
                assert(!(mode_named(modes[i]) is Some));
            } else {
                assert(!(mode_named(modes[modes.len() - 1]) is Some));
            }
        }
    }
}

/// A document sets the modes that it lists, at least one, and a default among them.
pub proof fn law_document_modes(metadata: MetadataView)
    ensures
        modes_of(metadata) matches Ok((allowed, default_mode)) ==> {
            &&& allowed.len() > 0
            &&& allowed.contains(default_mode)
            &&& mode_named(metadata.default_mode) == Some(default_mode)
            &&& forall|mode: PermissionMode| #[trigger]
                allowed.contains(mode) <==> exists|i: int|
                    0 <= i < metadata.allowed_modes.len() && mode_named(
                        #[trigger] metadata.allowed_modes[i],
                    ) == Some(mode)
            &&& forall|i: int|
                0 <= i < metadata.allowed_modes.len() ==> mode_named(
                    #[trigger] metadata.allowed_modes[i],
                ) is Some
        },
        metadata.allowed_modes.len() == 0 ==> modes_of(metadata) is Err,
{
    lemma_modes_parsed(metadata.allowed_modes);
    if let Ok((allowed, default_mode)) = modes_of(metadata) {
        let modes = modes_parsed(metadata.allowed_modes)->Ok_0;
        assert(allowed == crate::managed_policy::distinct_modes(modes));
        assert forall|mode: PermissionMode| #[trigger]
            allowed.contains(mode) <==> exists|i: int|
                0 <= i < metadata.allowed_modes.len() && mode_named(
                    #[trigger] metadata.allowed_modes[i],
                ) == Some(mode) by {
            assert(seq![PermissionMode::Ask, PermissionMode::Auto][0] == PermissionMode::Ask);
            assert(seq![PermissionMode::Ask, PermissionMode::Auto][1] == PermissionMode::Auto);
            assert(seq![PermissionMode::Ask][0] == PermissionMode::Ask);
            assert(seq![PermissionMode::Auto][0] == PermissionMode::Auto);
            assert(allowed.contains(mode) <==> modes.contains(mode)) by {
                match mode {
                    PermissionMode::Ask => {},
                    PermissionMode::Auto => {},
                }
            }
            if modes.contains(mode) {
                let i = choose|i: int| 0 <= i < modes.len() && modes[i] == mode;
                assert(mode_named(metadata.allowed_modes[i]) == Some(mode));
            }
            if exists|i: int|
                0 <= i < metadata.allowed_modes.len() && mode_named(
                    #[trigger] metadata.allowed_modes[i],
                ) == Some(mode) {
                let i = choose|i: int|
                    0 <= i < metadata.allowed_modes.len() && mode_named(
                        #[trigger] metadata.allowed_modes[i],
                    ) == Some(mode);
                assert(modes[i] == mode);
            }
        }
    }
}

/// A document describes a managed maximum exactly where it has version 1 and metadata with
/// an identity, a version above zero, no unknown fields and valid modes. The maximum is the
/// document, under that identity and version.
pub proof fn law_described_maximums(policy: PolicyView)
    ensures
        config_described(policy) is Ok <==> {
            &&& policy.version == 1
            &&& policy.managed_metadata is Some
            &&& text::trimmed(policy.managed_metadata->0.policy_id).len() > 0
            &&& policy.managed_metadata->0.version > 0
            &&& policy.managed_metadata->0.extra_fields.len() == 0
            &&& modes_of(policy.managed_metadata->0) is Ok
        },
        config_described(policy) matches Ok(config) ==> {
            &&& config.id == policy.managed_metadata->0.policy_id
            &&& config.version == policy.managed_metadata->0.version
            &&& config.maximum == policy
            &&& config.audit_label == policy.managed_metadata->0.audit_label
            &&& modes_of(policy.managed_metadata->0) == Ok::<
                (Seq<PermissionMode>, PermissionMode),
                Seq<char>,
            >((config.allowed_modes, config.default_mode))
        },
        forall|check: CheckView|
            #![trigger config_settled(config_described(policy)->Ok_0, check)]
            config_settled(config_described(policy)->Ok_0, check) is Ok <==> check is WithinMax,
{
}

} // verus!
