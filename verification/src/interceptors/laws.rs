//! What interceptors are asked, and what their replies do to an operation.

use crate::interceptors::config::FailurePolicy;
use crate::interceptors::planning::PlanView;
use crate::interceptors::review;
use crate::interceptors::review::{
    code_named, is_bound, next_bound, patched, progress, question, replied, resumed, settled,
    DecisionView, ErrorView, InputView, PatchView, ProgressView, RuntimeView, StateView,
};
use crate::ordered;
use crate::status::{Code, StatusView};
use crate::text;
use vstd::prelude::*;

verus! {

// ---------------------------------------------------------------------------
// Who is asked
// ---------------------------------------------------------------------------

/// A binding is bound to an operation where each of its lists is empty or holds what the
/// operation has: the phase, the resource, the operation, the kind of principal, a group of
/// the principal and the compute driver. The operation has to have every label that the
/// binding selects.
pub proof fn law_bound_operations(plan: PlanView, input: InputView)
    ensures
        is_bound(plan, input) <==> {
            &&& plan.phases.len() == 0 || plan.phases.contains(input.phase)
            &&& plan.resources.len() == 0 || plan.resources.contains(input.resource)
            &&& plan.operations.len() == 0 || plan.operations.contains(input.operation)
            &&& plan.selector.principal_kinds.len() == 0 || plan.selector.principal_kinds.contains(
                input.principal.kind,
            )
            &&& plan.selector.principal_groups.len() == 0 || exists|group: Seq<char>| #[trigger]
                plan.selector.principal_groups.contains(group) && input.principal.groups.contains(
                    group,
                )
            &&& plan.selector.compute_drivers.len() == 0 || plan.selector.compute_drivers.contains(
                input.context.compute_driver,
            )
            &&& forall|i: int|
                0 <= i < plan.selector.labels.len() ==> ordered::lookup(
                    input.context.labels,
                    (#[trigger] plan.selector.labels[i]).0,
                ) == Some(plan.selector.labels[i].1)
        },
{
    let list = plan.selector.principal_groups;
    let groups = input.principal.groups;
    if exists|group: Seq<char>| #[trigger] list.contains(group) && groups.contains(group) {
        let group = choose|group: Seq<char>| #[trigger]
            list.contains(group) && groups.contains(group);
        let i = choose|i: int| 0 <= i < list.len() && list[i] == group;
        assert(groups.contains(list[i]));
    }
    if exists|i: int| 0 <= i < list.len() && groups.contains(#[trigger] list[i]) {
        let i = choose|i: int| 0 <= i < list.len() && groups.contains(#[trigger] list[i]);
        assert(list.contains(list[i]));
    }
}

/// A binding whose list of phases, resources, operations, kinds of principals or compute
/// drivers is not empty and lacks what the operation has is not bound to it.
pub proof fn law_lists_bind(plan: PlanView, input: InputView)
    ensures
        plan.phases.len() > 0 && !plan.phases.contains(input.phase) ==> !is_bound(plan, input),
        plan.resources.len() > 0 && !plan.resources.contains(input.resource) ==> !is_bound(
            plan,
            input,
        ),
        plan.operations.len() > 0 && !plan.operations.contains(input.operation) ==> !is_bound(
            plan,
            input,
        ),
        plan.selector.principal_kinds.len() > 0 && !plan.selector.principal_kinds.contains(
            input.principal.kind,
        ) ==> !is_bound(plan, input),
        plan.selector.compute_drivers.len() > 0 && !plan.selector.compute_drivers.contains(
            input.context.compute_driver,
        ) ==> !is_bound(plan, input),
{
}

proof fn lemma_next(bindings: Seq<PlanView>, input: InputView, from: int)
    requires
        0 <= from,
    ensures
        match next_bound(bindings, input, from) {
            Some(i) => from <= i < bindings.len() && is_bound(bindings[i], input) && forall|j: int|
                from <= j < i ==> !is_bound(#[trigger] bindings[j], input),
            None => forall|j: int|
                from <= j < bindings.len() ==> !is_bound(#[trigger] bindings[j], input),
        },
    decreases bindings.len() - from,
{
    if from < bindings.len() {
        lemma_next(bindings, input, from + 1);
    }
}

/// No binding that is bound to the operation is passed over: a review is done only where
/// none is left, and waits for the first that is left. It does not ask a service that is
/// not there.
pub proof fn law_next_question(runtime: RuntimeView, input: InputView, state: StateView)
    requires
        0 <= state.next,
    ensures
        match settled(runtime, input, state) {
            ProgressView::Done(outcome) => {
                &&& forall|j: int|
                    state.next <= j < runtime.bindings.len() ==> !is_bound(
                        #[trigger] runtime.bindings[j],
                        input,
                    )
                &&& outcome.object == state.object
                &&& outcome.applied_patches == state.applied_patches
                &&& outcome.warnings == state.warnings
                &&& outcome.audit_annotations == state.audit_annotations
            },
            ProgressView::Waiting { binding, review, state: kept } => {
                &&& state.next <= binding < runtime.bindings.len()
                &&& is_bound(runtime.bindings[binding], input)
                &&& forall|j: int|
                    state.next <= j < binding ==> !is_bound(#[trigger] runtime.bindings[j], input)
                &&& runtime.services.contains(runtime.bindings[binding].interceptor_name)
                &&& kept == state
                &&& question(runtime.bindings[binding], input, state.object) == Ok::<
                    review::ReviewView,
                    ErrorView,
                >(review)
            },
            ProgressView::Stopped(error) => exists|j: int|
                state.next <= j < runtime.bindings.len() && #[trigger] is_bound(
                    runtime.bindings[j],
                    input,
                ),
        },
{
    lemma_next(runtime.bindings, input, state.next);
    if let Some(i) = next_bound(runtime.bindings, input, state.next) {
        assert(is_bound(runtime.bindings[i], input));
    }
}

/// Wherever a review waits, it waits for a binding whose lists hold the phase, the
/// resource, the operation, the kind of principal and the compute driver of the operation,
/// and asks it about exactly that operation, by that principal and in that context.
pub proof fn law_waits_only_for_the_bound(
    runtime: RuntimeView,
    input: InputView,
    replies: Seq<Result<DecisionView, StatusView>>,
)
    ensures
        progress(runtime, input, replies) matches ProgressView::Waiting { binding, review, state }
            ==> {
            let plan = runtime.bindings[binding];
            &&& 0 <= binding < runtime.bindings.len()
            &&& plan.phases.len() == 0 || plan.phases.contains(input.phase)
            &&& plan.resources.len() == 0 || plan.resources.contains(input.resource)
            &&& plan.operations.len() == 0 || plan.operations.contains(input.operation)
            &&& plan.selector.principal_kinds.len() == 0 || plan.selector.principal_kinds.contains(
                input.principal.kind,
            )
            &&& plan.selector.compute_drivers.len() == 0 || plan.selector.compute_drivers.contains(
                input.context.compute_driver,
            )
            &&& review.api_version == "gateway.interceptor.openshell.dev/v1"@
            &&& review.interceptor_name == plan.interceptor_name
            &&& review.binding_id == plan.binding_id
            &&& review.phase == input.phase
            &&& review.resource == input.resource
            &&& review.operation == input.operation
            &&& review.principal == input.principal
            &&& review.context == input.context
            &&& review.old_object == input.old_object
            &&& review.request == input.request
            &&& review.object == state.object
        },
        progress(runtime, input, replies) matches ProgressView::Waiting { binding, review, state }
            ==> state.next >= 0,
    decreases replies.len(),
{
    if replies.len() == 0 {
        law_next_question(runtime, input, review::start(input));
    } else {
        law_waits_only_for_the_bound(runtime, input, replies.drop_last());
        match progress(runtime, input, replies.drop_last()) {
            ProgressView::Waiting { binding, review, state } => {
                match replied(
                    runtime.bindings[binding],
                    input,
                    runtime.max_patch_count,
                    state,
                    replies.last(),
                ) {
                    Ok(next) => {
                        law_next_question(
                            runtime,
                            input,
                            StateView { next: binding + 1, ..next },
                        );
                    },
                    Err(_) => {},
                }
            },
            _ => {},
        }
    }
}

/// A review begins with the object as it is, and asks the first binding that is bound. It
/// ends at once with the object unchanged where each binding has a list that is not empty
/// and lacks what the operation has.
pub proof fn law_reviews_begin_unchanged(runtime: RuntimeView, input: InputView)
    ensures
        match progress(runtime, input, Seq::empty()) {
            ProgressView::Waiting { binding, review, state } => state.object == input.object
                && state.applied_patches.len() == 0 && state.warnings.len() == 0
                && state.audit_annotations.len() == 0 && forall|j: int|
                0 <= j < binding ==> !is_bound(#[trigger] runtime.bindings[j], input),
            ProgressView::Done(outcome) => outcome.object == input.object
                && outcome.applied_patches.len() == 0 && outcome.warnings.len() == 0
                && outcome.audit_annotations.len() == 0,
            ProgressView::Stopped(error) => true,
        },
        (forall|j: int| #![trigger runtime.bindings[j]]
            0 <= j < runtime.bindings.len() ==> {
                let plan = runtime.bindings[j];
                ||| plan.phases.len() > 0 && !plan.phases.contains(input.phase)
                ||| plan.resources.len() > 0 && !plan.resources.contains(input.resource)
                ||| plan.operations.len() > 0 && !plan.operations.contains(input.operation)
            }) ==> progress(runtime, input, Seq::empty()) is Done,
{
    law_next_question(runtime, input, review::start(input));
    if forall|j: int| #![trigger runtime.bindings[j]]
        0 <= j < runtime.bindings.len() ==> {
            let plan = runtime.bindings[j];
            ||| plan.phases.len() > 0 && !plan.phases.contains(input.phase)
            ||| plan.resources.len() > 0 && !plan.resources.contains(input.resource)
            ||| plan.operations.len() > 0 && !plan.operations.contains(input.operation)
        } {
        assert forall|j: int| 0 <= j < runtime.bindings.len() implies !is_bound(
            #[trigger] runtime.bindings[j],
            input,
        ) by {
            law_lists_bind(runtime.bindings[j], input);
        }
    }
}

/// An interceptor is asked only where the object, and the old object and the request where
/// there are any, are JSON objects.
pub proof fn law_questions_hold_objects(plan: PlanView, input: InputView, object: Seq<char>)
    ensures
        question(plan, input, object) is Ok <==> {
            &&& review::opens_object(object)
            &&& input.old_object matches Some(old) ==> review::opens_object(old)
            &&& input.request matches Some(request) ==> review::opens_object(request)
        },
        question(plan, input, object) matches Err(error) ==> (error matches ErrorView::Failed(
            status,
        ) && status.code == Code::Internal),
{
}

// ---------------------------------------------------------------------------
// What replies do
// ---------------------------------------------------------------------------

/// A denial stops the operation with the denier's name and reason, for the phase, resource
/// and operation that were asked about. Where the reason is blank, a reason is put in.
pub proof fn law_denials_are_told(
    runtime: RuntimeView,
    input: InputView,
    binding: int,
    state: StateView,
    decision: DecisionView,
)
    requires
        0 <= binding < runtime.bindings.len(),
        !decision.allowed,
    ensures
        resumed(runtime, input, binding, state, Ok(decision)) matches ProgressView::Stopped(
            ErrorView::Denied {
                interceptor,
                binding: id,
                phase,
                resource,
                operation,
                status_code,
                reason,
            },
        ) && interceptor == runtime.bindings[binding].interceptor_name && id
            == runtime.bindings[binding].binding_id && phase == input.phase && resource
            == input.resource && operation == input.operation && status_code == code_named(
            decision.status_code,
        ) && (text::trimmed(decision.reason).len() > 0 ==> reason == decision.reason) && (
        text::trimmed(decision.reason).len() == 0 ==> reason == "interceptor denied operation"@),
{
}

/// A call that failed stops the operation exactly where the binding fails closed, with the
/// failure as it is. Otherwise the operation goes on as if the binding had not been asked.
pub proof fn law_failures(
    plan: PlanView,
    input: InputView,
    max_patch_count: usize,
    state: StateView,
    failure: StatusView,
)
    ensures
        plan.failure_policy == FailurePolicy::FailClosed ==> replied(
            plan,
            input,
            max_patch_count,
            state,
            Err(failure),
        ) == Err::<StateView, ErrorView>(ErrorView::Failed(failure)),
        plan.failure_policy != FailurePolicy::FailClosed ==> replied(
            plan,
            input,
            max_patch_count,
            state,
            Err(failure),
        ) == Ok::<StateView, ErrorView>(state),
{
}

/// A reply that allows the operation and changes nothing leaves the object as it is, and
/// adds its warnings and annotations to those before.
pub proof fn law_plain_approvals(
    plan: PlanView,
    input: InputView,
    max_patch_count: usize,
    state: StateView,
    decision: DecisionView,
)
    requires
        decision.allowed,
        decision.patches.len() == 0,
    ensures
        replied(plan, input, max_patch_count, state, Ok(decision)) matches Ok(next) && next.object
            == state.object && next.applied_patches == state.applied_patches && next.warnings
            == state.warnings + decision.warnings && next.audit_annotations == ordered::put_all(
            state.audit_annotations,
            decision.audit_annotations,
        ),
{
}

/// Changes are applied exactly where the operation may be modified, there are no more of
/// them than the limit, and they can be applied: the object is then what they make of it,
/// and they are added to the applied ones. Otherwise a binding that fails closed stops the
/// operation, and any other leaves the object as it is.
pub proof fn law_changes_are_applied(
    plan: PlanView,
    input: InputView,
    max_patch_count: usize,
    state: StateView,
    decision: DecisionView,
)
    requires
        decision.allowed,
        decision.patches.len() > 0,
    ensures
        ({
            let accepted = input.modification_allowed && decision.patches.len() <= max_patch_count
                && patched(state.object, decision.patches) is Ok;
            match replied(plan, input, max_patch_count, state, Ok(decision)) {
                Ok(next) => {
                    &&& accepted ==> next.object == patched(state.object, decision.patches)->Ok_0
                        && next.applied_patches == state.applied_patches + decision.patches
                    &&& !accepted ==> plan.failure_policy != FailurePolicy::FailClosed
                        && next.object == state.object && next.applied_patches
                        == state.applied_patches
                    &&& next.warnings == state.warnings + decision.warnings
                    &&& next.audit_annotations == ordered::put_all(
                        state.audit_annotations,
                        decision.audit_annotations,
                    )
                },
                Err(error) => !accepted && plan.failure_policy == FailurePolicy::FailClosed && (
                error matches ErrorView::Failed(status) && (!input.modification_allowed
                    ==> status.code == Code::Internal) && (input.modification_allowed
                    && decision.patches.len() > max_patch_count ==> status.code
                    == Code::ResourceExhausted) && (input.modification_allowed
                    && decision.patches.len() <= max_patch_count ==> status.code
                    == Code::InvalidArgument)),
            }
        }),
{
}

/// A change is written as a JSON object with its operation and path, with its origin where
/// it has one, and with its value where it has one.
pub proof fn law_changes_are_written(patch: PatchView)
    ensures
        patch.value is None && patch.from.len() == 0 ==> review::change_text(patch) == Ok::<
            Seq<char>,
            Seq<char>,
        >(
            "{\"op\":"@ + review::json_quoted(patch.op) + ",\"path\":"@ + review::json_quoted(
                patch.path,
            ) + "}"@,
        ),
        patch.value is None && patch.from.len() > 0 ==> review::change_text(patch) == Ok::<
            Seq<char>,
            Seq<char>,
        >(
            "{\"op\":"@ + review::json_quoted(patch.op) + ",\"path\":"@ + review::json_quoted(
                patch.path,
            ) + (",\"from\":"@ + review::json_quoted(patch.from)) + "}"@,
        ),
        patch.value matches Some(value) ==> match review::json_rewritten(value) {
            Ok(written) => review::change_text(patch) matches Ok(text) && text::ends_with(
                text,
                ",\"value\":"@ + written + "}"@,
            ),
            Err(error) => review::change_text(patch) == Err::<Seq<char>, Seq<char>>(error),
        },
{
    let plain = "{\"op\":"@ + review::json_quoted(patch.op) + ",\"path\":"@ + review::json_quoted(
        patch.path,
    );
    assert(plain + Seq::<char>::empty() =~= plain);
    if let Some(value) = patch.value {
        if let Ok(written) = review::json_rewritten(value) {
            let text = review::change_text(patch)->Ok_0;
            let end = ",\"value\":"@ + written + "}"@;
            assert(text.skip(text.len() - end.len()) =~= end);
        }
    }
}

/// The code of a denial is the one that it names, whatever the case and the space around
/// the name. Any other name, and none, is a denial of permission.
pub proof fn law_denial_codes(value: Seq<char>)
    ensures
        ({
            let name = text::lower(text::trimmed(value));
            &&& code_named(value) == Code::Cancelled <==> name == "cancelled"@ || name
                == "canceled"@
            &&& code_named(value) == Code::Unknown <==> name == "unknown"@
            &&& code_named(value) == Code::InvalidArgument <==> name == "invalid_argument"@
            &&& code_named(value) == Code::DeadlineExceeded <==> name == "deadline_exceeded"@
            &&& code_named(value) == Code::NotFound <==> name == "not_found"@
            &&& code_named(value) == Code::AlreadyExists <==> name == "already_exists"@
            &&& code_named(value) == Code::ResourceExhausted <==> name == "resource_exhausted"@
            &&& code_named(value) == Code::FailedPrecondition <==> name == "failed_precondition"@
            &&& code_named(value) == Code::Aborted <==> name == "aborted"@
            &&& code_named(value) == Code::OutOfRange <==> name == "out_of_range"@
            &&& code_named(value) == Code::Unimplemented <==> name == "unimplemented"@
            &&& code_named(value) == Code::Internal <==> name == "internal"@
            &&& code_named(value) == Code::Unavailable <==> name == "unavailable"@
            &&& code_named(value) == Code::DataLoss <==> name == "data_loss"@
            &&& code_named(value) == Code::Unauthenticated <==> name == "unauthenticated"@
            &&& code_named(value) != Code::Success
        }),
{
    reveal_strlit("cancelled");
    assert("cancelled"@.len() == 9);
    reveal_strlit("canceled");
    assert("canceled"@.len() == 8);
    reveal_strlit("unknown");
    assert("unknown"@.len() == 7);
    reveal_strlit("invalid_argument");
    assert("invalid_argument"@.len() == 16);
    reveal_strlit("deadline_exceeded");
    assert("deadline_exceeded"@.len() == 17);
    reveal_strlit("not_found");
    assert("not_found"@.len() == 9);
    reveal_strlit("already_exists");
    assert("already_exists"@.len() == 14);
    reveal_strlit("resource_exhausted");
    assert("resource_exhausted"@.len() == 18);
    reveal_strlit("failed_precondition");
    assert("failed_precondition"@.len() == 19);
    reveal_strlit("aborted");
    assert("aborted"@.len() == 7);
    reveal_strlit("out_of_range");
    assert("out_of_range"@.len() == 12);
    reveal_strlit("unimplemented");
    assert("unimplemented"@.len() == 13);
    reveal_strlit("internal");
    assert("internal"@.len() == 8);
    reveal_strlit("unavailable");
    assert("unavailable"@.len() == 11);
    reveal_strlit("data_loss");
    assert("data_loss"@.len() == 9);
    reveal_strlit("unauthenticated");
    assert("unauthenticated"@.len() == 15);
    assert("cancelled"@[0] == 'c' && "not_found"@[0] == 'n' && "data_loss"@[0] == 'd');
    assert("canceled"@[0] == 'c' && "internal"@[0] == 'i');
    assert("unknown"@[0] == 'u' && "aborted"@[0] == 'a');
}

} // verus!
