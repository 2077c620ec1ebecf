//! What requests about the managed maximum change, and what they are answered.

use crate::digest::{hex_text, law_hex_round_trip, sha256};
use crate::managed_policy::{
    admission_fits, boundary_of, mode_named, AdmissionSource, ConfigView, DecisionView,
    PermissionMode,
};
use crate::managed_settings::requests::{
    delete_result, get_result, set_result, settings_deleted, settings_set,
};
use crate::managed_settings::{
    admission_record, applied_verdict, authority_fits, config_record, create_mode, decision_context,
    document_refusal, in_context, maximum_in_force, message_of, replacement_of, sandbox_mode,
    version_verdict, ReplacementView, SettingView, SettingsView, Severity,
};
use crate::ordered;
use crate::prover::envelope::CounterexampleView;
use crate::prover::policy::PolicyView;
use crate::status::{Code, StatusView};
use crate::text;
use vstd::prelude::*;
use vstd::utf8::valid_utf8;

verus! {

// ---------------------------------------------------------------------------
// Permission modes
// ---------------------------------------------------------------------------

/// A new sandbox has the mode that is asked for, or the default where none is, and in
/// either case one that the managed maximum allows. Without a managed maximum it has none,
/// and none may be asked for.
pub proof fn law_created_modes(config: Option<ConfigView>, requested: Seq<char>)
    ensures
        config is None && text::trimmed(requested).len() == 0 ==> create_mode(config, requested)
            == Ok::<Option<PermissionMode>, StatusView>(None),
        config is None && text::trimmed(requested).len() > 0 ==> (create_mode(config, requested)
            matches Err(error) && error.code == Code::FailedPrecondition),
        config matches Some(config) ==> text::trimmed(requested).len() == 0 ==> (
        config.allowed_modes.contains(config.default_mode) ==> create_mode(Some(config), requested)
            == Ok::<Option<PermissionMode>, StatusView>(Some(config.default_mode))),
        config matches Some(config) ==> text::trimmed(requested).len() > 0 ==> match mode_named(
            requested,
        ) {
            None => create_mode(Some(config), requested) matches Err(error) && error.code
                == Code::InvalidArgument,
            Some(mode) => if config.allowed_modes.contains(mode) {
                create_mode(Some(config), requested) == Ok::<Option<PermissionMode>, StatusView>(
                    Some(mode),
                )
            } else {
                create_mode(Some(config), requested) matches Err(error) && error.code
                    == Code::FailedPrecondition
            },
        },
{
}

/// A sandbox keeps the mode of its label. A sandbox without the label has none, and a label
/// that names no mode is an internal error.
pub proof fn law_kept_modes(labels: Seq<(Seq<char>, Seq<char>)>, key: Seq<char>)
    ensures
        sandbox_mode(None, key) == Ok::<Option<PermissionMode>, StatusView>(None),
        match ordered::lookup(labels, key) {
            None => sandbox_mode(Some(labels), key) == Ok::<Option<PermissionMode>, StatusView>(
                None,
            ),
            Some(value) => match mode_named(value) {
                Some(mode) => sandbox_mode(Some(labels), key) == Ok::<
                    Option<PermissionMode>,
                    StatusView,
                >(Some(mode)),
                None => sandbox_mode(Some(labels), key) matches Err(error) && error.code
                    == Code::Internal,
            },
        },
{
}

// ---------------------------------------------------------------------------
// Requests
// ---------------------------------------------------------------------------

/// A document is looked at only where the storage has one replica, and it is not empty, not
/// longer than the limit, and UTF-8.
pub proof fn law_refused_documents(
    is_single_replica: bool,
    policy_yaml: Seq<u8>,
    max_size: usize,
)
    ensures
        document_refusal(is_single_replica, policy_yaml, max_size) is None <==> is_single_replica
            && 0 < policy_yaml.len() <= max_size && valid_utf8(policy_yaml),
        document_refusal(is_single_replica, policy_yaml, max_size) matches Some(refusal)
            ==> refusal.code == (if is_single_replica {
            Code::InvalidArgument
        } else {
            Code::FailedPrecondition
        }),
{
}

/// The managed maximum is never changed while there are sandboxes, nor beside a global
/// policy, nor to a version of the same maximum that is not higher. A request that is
/// refused leaves the settings as they were.
pub proof fn law_protected_maximum(
    settings: SettingsView,
    config: ConfigView,
    policy_yaml: Seq<u8>,
    sandboxes_exist: bool,
    policy_key: Seq<char>,
    existing: Result<ConfigView, StatusView>,
)
    ensures
        ({
            let result = set_result(
                settings,
                config,
                policy_yaml,
                sandboxes_exist,
                policy_key,
                existing,
            );
            let after = settings_set(
                settings,
                config,
                policy_yaml,
                sandboxes_exist,
                policy_key,
                existing,
            );
            let stored = ordered::lookup(settings.settings, "managed_maximum_policy"@);
            let same = stored == Some(SettingView::Bytes(hex_text(policy_yaml)));
            &&& result is Err ==> after == settings
            &&& sandboxes_exist ==> result is Err
            &&& ordered::lookup(settings.settings, policy_key) is Some ==> result is Err
            &&& same && result is Ok ==> after == settings && (result matches Ok(set)
                && set.audit is None)
            &&& !same && stored is Some && result is Ok ==> (existing matches Ok(old) && (old.id
                == config.id ==> config.version > old.version))
            &&& !sandboxes_exist && ordered::lookup(settings.settings, policy_key) is None
                && stored is None ==> result is Ok
        }),
{
}

/// A maximum that is set is answered with the document, its identity and version, and the
/// hash of the document, at the new revision, and is recorded. The settings then hold the
/// document in hexadecimal digits, and their revision is one higher.
pub proof fn law_set_maximum(
    settings: SettingsView,
    config: ConfigView,
    policy_yaml: Seq<u8>,
    sandboxes_exist: bool,
    policy_key: Seq<char>,
    existing: Result<ConfigView, StatusView>,
)
    requires
        ordered::is_map(settings.settings),
        settings.revision < u64::MAX,
        ordered::lookup(settings.settings, "managed_maximum_policy"@) != Some(
            SettingView::Bytes(hex_text(policy_yaml)),
        ),
    ensures
        set_result(settings, config, policy_yaml, sandboxes_exist, policy_key, existing)
            matches Ok(set) ==> {
            let after = settings_set(
                settings,
                config,
                policy_yaml,
                sandboxes_exist,
                policy_key,
                existing,
            );
            &&& set.response.configured
            &&& set.response.policy_yaml == policy_yaml
            &&& set.response.policy_hash == hex_text(sha256(policy_yaml))
            &&& set.response.policy_id == config.id
            &&& set.response.version == config.version
            &&& set.response.audit_label == config.audit_label
            &&& set.response.allowed_modes.len() == config.allowed_modes.len()
            &&& set.response.settings_revision == settings.revision + 1
            &&& set.audit matches Some(record) && record.state == "set"@ && record.succeeded
            &&& after.revision == settings.revision + 1
            &&& ordered::lookup(after.settings, "managed_maximum_policy"@) == Some(
                SettingView::Bytes(hex_text(policy_yaml)),
            )
        },
{
    ordered::law_put_lookup(
        settings.settings,
        "managed_maximum_policy"@,
        SettingView::Bytes(hex_text(policy_yaml)),
        "managed_maximum_policy"@,
    );
}

/// The managed maximum is deleted only while there are no sandboxes. What was deleted is
/// recorded, and a deletion without a maximum is none.
pub proof fn law_deleted_maximum(
    settings: SettingsView,
    sandboxes_exist: bool,
    config: Result<ConfigView, StatusView>,
)
    requires
        ordered::is_map(settings.settings),
        settings.revision < u64::MAX,
    ensures
        sandboxes_exist ==> delete_result(settings, sandboxes_exist, config) is Err
            && settings_deleted(settings, sandboxes_exist) == settings,
        !sandboxes_exist ==> ordered::lookup(
            settings_deleted(settings, sandboxes_exist).settings,
            "managed_maximum_policy"@,
        ) is None,
        delete_result(settings, sandboxes_exist, config) matches Ok(done) ==> {
            &&& done.deleted <==> ordered::lookup(settings.settings, "managed_maximum_policy"@)
                is Some
            &&& done.deleted ==> done.settings_revision == settings.revision + 1
            &&& done.deleted ==> (done.audit matches Some(record) && record.state == "delete"@)
            &&& !done.deleted ==> done.settings_revision == settings.revision && done.audit
                is None
        },
{
    ordered::law_without(
        settings.settings,
        "managed_maximum_policy"@,
        "managed_maximum_policy"@,
    );
}

/// Asking for the managed maximum gives the stored document as it is, or says that none is
/// configured.
pub proof fn law_asked_maximum(settings: SettingsView, config: Result<ConfigView, StatusView>)
    ensures
        ordered::lookup(settings.settings, "managed_maximum_policy"@) is None ==> (get_result(
            settings,
            config,
        ) matches Ok(response) && !response.configured && response.policy_yaml.len() == 0
            && response.settings_revision == settings.revision),
        ordered::lookup(settings.settings, "managed_maximum_policy"@) is Some ==> (get_result(
            settings,
            config,
        ) matches Ok(response) ==> response.configured && response.settings_revision
            == settings.revision && (config matches Ok(config) && response.policy_id == config.id
            && response.version == config.version)),
{
}

/// A maximum is in force as the bytes that were stored, on storage with one replica alone.
/// Without a stored maximum none is in force, on any storage.
pub proof fn law_maximum_in_force(settings: SettingsView, is_single_replica: bool, bytes: Seq<u8>)
    ensures
        ordered::lookup(settings.settings, "managed_maximum_policy"@) is None ==> maximum_in_force(
            settings,
            is_single_replica,
        ) == Ok::<Option<Seq<u8>>, StatusView>(None),
        ordered::lookup(settings.settings, "managed_maximum_policy"@) is Some && !is_single_replica
            ==> (maximum_in_force(settings, is_single_replica) matches Err(error) && error.code
            == Code::FailedPrecondition),
        ordered::lookup(settings.settings, "managed_maximum_policy"@) == Some(
            SettingView::Bytes(hex_text(bytes)),
        ) && is_single_replica ==> maximum_in_force(settings, is_single_replica) == Ok::<
            Option<Seq<u8>>,
            StatusView,
        >(Some(bytes)),
{
    law_hex_round_trip(bytes);
}

/// What a new maximum meets: nothing while there are sandboxes or a global policy, and else
/// the stored maximum, if there is one.
pub proof fn law_met_maximums(
    sandboxes_exist: bool,
    settings: SettingsView,
    policy_key: Seq<char>,
    policy_yaml: Seq<u8>,
    stored: Seq<u8>,
)
    ensures
        sandboxes_exist || ordered::lookup(settings.settings, policy_key) is Some ==> (
        replacement_of(sandboxes_exist, settings, policy_key, policy_yaml) matches Err(error)
            && error.code == Code::FailedPrecondition),
        !sandboxes_exist && ordered::lookup(settings.settings, policy_key) is None ==> {
            let kept = ordered::lookup(settings.settings, "managed_maximum_policy"@);
            let met = replacement_of(sandboxes_exist, settings, policy_key, policy_yaml);
            &&& kept is None <==> met == Ok::<ReplacementView, StatusView>(ReplacementView::Fresh)
            &&& kept == Some(SettingView::Bytes(hex_text(stored))) && stored == policy_yaml ==> met
                == Ok::<ReplacementView, StatusView>(ReplacementView::Same)
            &&& kept == Some(SettingView::Bytes(hex_text(stored))) && stored != policy_yaml ==> met
                == Ok::<ReplacementView, StatusView>(ReplacementView::Over(stored))
        },
{
    law_hex_round_trip(stored);
    law_hex_round_trip(policy_yaml);
}

/// A maximum is replaced by one of another identity, or of a higher version.
pub proof fn law_replaced_versions(config: ConfigView, existing: ConfigView)
    ensures
        version_verdict(config, existing) is Ok <==> existing.id != config.id || config.version
            > existing.version,
        version_verdict(config, existing) matches Err(error) ==> error.code
            == Code::FailedPrecondition,
{
}

/// A change of the maximum is recorded with the maximum and the hash of its document.
pub proof fn law_recorded_changes(
    action: Seq<char>,
    config: ConfigView,
    policy_hash: Seq<char>,
)
    ensures
        ({
            let record = config_record(action, config, policy_hash);
            &&& record.state == action
            &&& record.succeeded
            &&& record.severity == Severity::Informational
            &&& record.unmapped == seq![
                ("managed_policy_id"@, config.id),
                ("managed_policy_version"@, text::decimal(config.version as nat)),
                ("managed_audit_label"@, config.audit_label),
                ("policy_hash"@, policy_hash),
            ]
        }),
{
}

/// Without a mode no change of a managed sandbox is decided on. The decision on any other
/// change is that of its admission, with what it was made under.
pub proof fn law_authorities(
    config: ConfigView,
    mode: Option<PermissionMode>,
    source: AdmissionSource,
    current: Option<PolicyView>,
    candidate: PolicyView,
    requested_delta: PolicyView,
    result: Result<DecisionView, StatusView>,
)
    requires
        authority_fits(config, mode, source, current, candidate, requested_delta, result),
    ensures
        mode is None ==> (result matches Err(error) && error.code == Code::FailedPrecondition),
        mode is Some ==> (result matches Ok(told) && !(told is Unmanaged)),
{
    if let Some(mode) = mode {
        let decision = choose|decision: DecisionView|
            #[trigger] admission_fits(
                Some(boundary_of(config)),
                mode,
                source,
                current,
                candidate,
                requested_delta,
                decision,
            ) && result == Ok::<DecisionView, StatusView>(
                in_context(decision, decision_context(config, mode, source)),
            );
        assert(!(decision is Unmanaged));
    }
}

// ---------------------------------------------------------------------------
// Decisions
// ---------------------------------------------------------------------------

/// A change passes a commit point exactly where it is unmanaged or to be applied. One that
/// waits for approval and one that is refused are told apart by their codes.
pub proof fn law_commit_points(decision: DecisionView)
    ensures
        applied_verdict(decision) is Ok <==> decision is Unmanaged || decision is Apply,
        decision matches DecisionView::Ask { reason, counterexample } ==> (applied_verdict(decision)
            matches Err(error) && error.code == Code::FailedPrecondition && text::starts_with(
            error.message,
            reason,
        )),
        decision matches DecisionView::Reject { reason, counterexample } ==> (applied_verdict(
            decision,
        ) matches Err(error) && error.code == Code::PermissionDenied && text::starts_with(
            error.message,
            reason,
        )),
{
    if let DecisionView::Ask { reason, counterexample } = decision {
        lemma_message(reason, counterexample);
    }
    if let DecisionView::Reject { reason, counterexample } = decision {
        lemma_message(reason, counterexample);
    }
}

proof fn lemma_message(reason: Seq<char>, counterexample: Option<CounterexampleView>)
    ensures
        text::starts_with(message_of(reason, counterexample), reason),
{
    assert(message_of(reason, counterexample).take(reason.len() as int) =~= reason);
}

/// The message about an action names it in full.
pub proof fn law_messages_name_the_action(reason: Seq<char>, action: CounterexampleView)
    ensures
        message_of(reason, Some(action)) == reason + ": protocol="@ + action.protocol + " host="@
            + action.host + " port="@ + text::decimal(action.port as nat) + " binary="@
            + action.binary + " method="@ + action.method + " path="@ + action.path,
        message_of(reason, None) == reason,
{
}

/// What a decision was made under is added to its reason, and changes nothing else in it.
pub proof fn law_decisions_keep_their_kind(
    decision: DecisionView,
    config: ConfigView,
    mode: PermissionMode,
    source: AdmissionSource,
)
    ensures
        ({
            let told = in_context(decision, decision_context(config, mode, source));
            &&& told is Apply <==> decision is Apply
            &&& told is Ask <==> decision is Ask
            &&& told is Reject <==> decision is Reject
            &&& told is Unmanaged <==> decision is Unmanaged
            &&& decision matches DecisionView::Reject { reason, counterexample } ==> told == (
            DecisionView::Reject {
                reason: reason + "; "@ + ("maximum="@ + config.id + "@"@ + text::decimal(
                    config.version as nat,
                ) + " mode="@ + mode.name() + " source="@ + source.name()),
                counterexample,
            })
            &&& decision matches DecisionView::Ask { reason, counterexample } ==> told == (
            DecisionView::Ask {
                reason: reason + "; "@ + ("maximum="@ + config.id + "@"@ + text::decimal(
                    config.version as nat,
                ) + " mode="@ + mode.name() + " source="@ + source.name()),
                counterexample,
            })
        }),
{
}

/// Every managed decision is recorded with the sandbox, the maximum, the mode, the source
/// and the decision. A refusal is graver, and counts as a failure.
pub proof fn law_recorded_decisions(
    sandbox_id: Seq<char>,
    sandbox_name: Seq<char>,
    config: ConfigView,
    mode: PermissionMode,
    source: AdmissionSource,
    decision: DecisionView,
)
    ensures
        match admission_record(sandbox_id, sandbox_name, config, mode, source, decision) {
            None => decision is Unmanaged,
            Some(record) => {
                let name = if decision is Apply {
                    "apply"@
                } else if decision is Ask {
                    "ask"@
                } else {
                    "reject"@
                };
                &&& !(decision is Unmanaged)
                &&& record.sandbox_id == sandbox_id
                &&& record.sandbox_name == sandbox_name
                &&& record.state == name
                &&& record.succeeded <==> !(decision is Reject)
                &&& record.severity == Severity::Medium <==> decision is Reject
                &&& record.unmapped.contains(("managed_policy_id"@, config.id))
                &&& record.unmapped.contains(
                    ("managed_policy_version"@, text::decimal(config.version as nat)),
                )
                &&& record.unmapped.contains(("managed_audit_label"@, config.audit_label))
                &&& record.unmapped.contains(
                    (
                        "permission_mode"@,
                        if mode == PermissionMode::Ask {
                            "ask"@
                        } else {
                            "auto"@
                        },
                    ),
                )
                &&& record.unmapped.contains(
                    (
                        "source"@,
                        match source {
                            AdmissionSource::SandboxCreate => "sandbox_create"@,
                            AdmissionSource::DirectAuthenticated => "direct_authenticated"@,
                            AdmissionSource::AgentProposal => "agent_proposal"@,
                        },
                    ),
                )
                &&& record.unmapped.contains(("decision"@, name))
            },
        },
{
    if let Some(record) = admission_record(
        sandbox_id,
        sandbox_name,
        config,
        mode,
        source,
        decision,
    ) {
        assert(record.unmapped[0] == ("managed_policy_id"@, config.id));
        assert(record.unmapped[1] == (
            "managed_policy_version"@,
            text::decimal(config.version as nat),
        ));
        assert(record.unmapped[2] == ("managed_audit_label"@, config.audit_label));
        assert(record.unmapped[3] == ("permission_mode"@, mode.name()));
        assert(record.unmapped[4] == ("source"@, source.name()));
        assert(record.unmapped[5].0 == "decision"@);
    }
}

} // verus!
