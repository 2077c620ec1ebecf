//! Reviews of gateway operations: who asks, what is reviewed, and what is reported
//! of a review that stops an operation.

use crate::interceptors::config::{modification_phase, is_modification_phase};
use crate::interceptors::review::{
    apply_proto_patches, patched, progress, status_of, ContextView, ErrorView,
    InputView, InterceptorPrincipal, InterceptorRequestContext, InterceptorRuntime, JsonPatch,
    OutcomeView, PatchView, PrincipalView, ProgressView, ReviewError, ReviewInput, ReviewOutcome,
    ReviewProgress, RuntimeView,
};
use crate::l7_middleware::Severity;
use crate::outcome::shown;
use crate::status::{status, Code, Status, StatusView};
use crate::text;
use crate::text::{cat2, cat7};
use vstd::prelude::*;

verus! {

pub const RESOURCE_SANDBOX: &'static str = "sandbox";

pub const RESOURCE_PROVIDER: &'static str = "provider";

pub const RESOURCE_PROVIDER_PROFILE: &'static str = "provider_profile";

pub const RESOURCE_CONFIG: &'static str = "config";

pub const RESOURCE_DRIVER_SANDBOX: &'static str = "driver_sandbox";

pub const OP_CREATE: &'static str = "create";

pub const OP_UPDATE: &'static str = "update";

pub const OP_DELETE: &'static str = "delete";

pub const OP_IMPORT: &'static str = "import";

pub const OP_ATTACH_PROVIDER: &'static str = "attach_provider";

pub const OP_DETACH_PROVIDER: &'static str = "detach_provider";

pub const OP_MERGE: &'static str = "merge";

pub const OP_VALIDATE: &'static str = "validate";

/// Pairs of texts.
pub type TextMap = Seq<(Seq<char>, Seq<char>)>;

// ---------------------------------------------------------------------------
// Who asks
// ---------------------------------------------------------------------------

/// Who asks for an operation.
#[derive(Debug, Clone, PartialEq, Eq)]
pub enum Principal {
    User { subject: String, roles: Vec<String> },
    Sandbox { sandbox_id: String },
    Anonymous,
}

/// The content of who asks.
pub enum CallerView {
    User { subject: Seq<char>, roles: Seq<Seq<char>> },
    Sandbox { sandbox_id: Seq<char> },
    Anonymous,
}

impl DeepView for Principal {
    type V = CallerView;

    open spec fn deep_view(&self) -> CallerView {
        match self {
            Principal::User { subject, roles } => CallerView::User {
                subject: subject@,
                roles: roles.deep_view(),
            },
            Principal::Sandbox { sandbox_id } => CallerView::Sandbox { sandbox_id: sandbox_id@ },
            Principal::Anonymous => CallerView::Anonymous,
        }
    }
}

/// Who asks, as interceptors see it.
pub open spec fn principal_of(caller: Option<CallerView>) -> PrincipalView {
    match caller {
        Some(CallerView::User { subject, roles }) => PrincipalView {
            kind: "user"@,
            subject,
            groups: roles,
        },
        Some(CallerView::Sandbox { sandbox_id }) => PrincipalView {
            kind: "sandbox"@,
            subject: sandbox_id,
            groups: Seq::empty(),
        },
        _ => PrincipalView { kind: "anonymous"@, subject: Seq::empty(), groups: Seq::empty() },
    }
}

/// Who asks, as interceptors see it.
pub fn interceptor_principal(principal: Option<&Principal>) -> (r: InterceptorPrincipal)
    ensures
        r.deep_view() == principal_of(principal.deep_view()),
{
    let none: Vec<String> = Vec::new();
    proof {
        assert(none.deep_view() =~= Seq::empty());
    }
    match principal {
        Some(Principal::User { subject, roles }) => InterceptorPrincipal {
            kind: "user".to_owned(),
            subject: subject.clone(),
            groups: roles.clone(),
        },
        Some(Principal::Sandbox { sandbox_id }) => InterceptorPrincipal {
            kind: "sandbox".to_owned(),
            subject: sandbox_id.clone(),
            groups: none,
        },
        _ => {
            let subject = String::new();
            assert(subject@ =~= Seq::empty());
            InterceptorPrincipal { kind: "anonymous".to_owned(), subject, groups: none }
        },
    }
}

/// What is known of a request.
#[derive(Debug, Clone, PartialEq, Eq)]
pub struct InterceptorRequestInfo {
    pub principal: InterceptorPrincipal,
    pub request_id: String,
}

/// The content of what is known of a request.
pub struct InfoView {
    pub principal: PrincipalView,
    pub request_id: Seq<char>,
}

impl DeepView for InterceptorRequestInfo {
    type V = InfoView;

    open spec fn deep_view(&self) -> InfoView {
        InfoView { principal: self.principal.deep_view(), request_id: self.request_id@ }
    }
}

/// What is known of a request: who asks, and the identity that the request came
/// with, where that is not blank, or else a fresh one.
pub fn request_info(principal: Option<&Principal>, header: Option<&str>, fresh_id: &str) -> (r:
    InterceptorRequestInfo)
    ensures
        r.deep_view() == (InfoView {
            principal: principal_of(principal.deep_view()),
            request_id: match header.deep_view() {
                Some(value) => if text::trimmed(value).len() > 0 {
                    value
                } else {
                    fresh_id@
                },
                None => fresh_id@,
            },
        }),
{
    let request_id = match header {
        Some(value) => {
            if text::is_blank(value) {
                fresh_id.to_owned()
            } else {
                value.to_owned()
            }
        },
        None => fresh_id.to_owned(),
    };
    InterceptorRequestInfo { principal: interceptor_principal(principal), request_id }
}

// ---------------------------------------------------------------------------
// What is reviewed
// ---------------------------------------------------------------------------

/// An operation on an object. Objects are JSON texts.
#[derive(Debug, Clone, PartialEq, Eq)]
pub struct ReviewedOperation {
    pub phase: String,
    pub resource: String,
    pub operation: String,
    pub object: String,
    pub old_object: Option<String>,
    pub request: Option<String>,
    pub labels: Vec<(String, String)>,
    pub compute_driver: String,
}

/// The content of an operation.
#[verifier::ext_equal]
pub struct OperationView {
    pub phase: Seq<char>,
    pub resource: Seq<char>,
    pub operation: Seq<char>,
    pub object: Seq<char>,
    pub old_object: Option<Seq<char>>,
    pub request: Option<Seq<char>>,
    pub labels: TextMap,
    pub compute_driver: Seq<char>,
}

impl DeepView for ReviewedOperation {
    type V = OperationView;

    open spec fn deep_view(&self) -> OperationView {
        OperationView {
            phase: self.phase@,
            resource: self.resource@,
            operation: self.operation@,
            object: self.object@,
            old_object: self.old_object.deep_view(),
            request: self.request.deep_view(),
            labels: self.labels.deep_view(),
            compute_driver: self.compute_driver@,
        }
    }
}

/// What interceptors are asked about an operation. Only two phases let them change
/// the object.
pub open spec fn input_of(info: InfoView, operation: OperationView) -> InputView {
    InputView {
        phase: operation.phase,
        resource: operation.resource,
        operation: operation.operation,
        principal: info.principal,
        context: ContextView {
            request_id: info.request_id,
            gateway_replica_id: "openshell-gateway"@,
            compute_driver: operation.compute_driver,
            dry_run: false,
            labels: operation.labels,
        },
        object: operation.object,
        old_object: operation.old_object,
        request: operation.request,
        modification_allowed: modification_phase(operation.phase),
    }
}

/// What interceptors are asked about an operation.
pub fn review_input(info: InterceptorRequestInfo, operation: ReviewedOperation) -> (r: ReviewInput)
    ensures
        r.deep_view() == input_of(info.deep_view(), operation.deep_view()),
{
    let modification_allowed = is_modification_phase(operation.phase.as_str());
    ReviewInput {
        phase: operation.phase,
        resource: operation.resource,
        operation: operation.operation,
        principal: info.principal,
        context: InterceptorRequestContext {
            request_id: info.request_id,
            gateway_replica_id: "openshell-gateway".to_owned(),
            compute_driver: operation.compute_driver,
            dry_run: false,
            labels: operation.labels,
        },
        object: operation.object,
        old_object: operation.old_object,
        request: operation.request,
        modification_allowed,
    }
}

/// How the review of an operation begins: without interceptors, it ends with the
/// object as it is.
pub open spec fn review_begun(runtime: RuntimeView, input: InputView) -> ProgressView {
    if runtime.bindings.len() == 0 {
        ProgressView::Done(
            OutcomeView {
                object: input.object,
                applied_patches: Seq::empty(),
                warnings: Seq::empty(),
                audit_annotations: Seq::empty(),
            },
        )
    } else {
        progress(runtime, input, Seq::empty())
    }
}

/// Begins the review of an operation.
pub fn review_json(runtime: &InterceptorRuntime, input: &ReviewInput) -> (r: ReviewProgress)
    ensures
        r.deep_view() == review_begun(runtime.deep_view(), input.deep_view()),
{
    if runtime.is_empty() {
        let outcome = ReviewOutcome {
            object: input.object.clone(),
            applied_patches: Vec::new(),
            warnings: Vec::new(),
            audit_annotations: Vec::new(),
        };
        proof {
            assert(outcome.applied_patches.deep_view() =~= Seq::empty());
            assert(outcome.warnings.deep_view() =~= Seq::empty());
            assert(outcome.audit_annotations.deep_view() =~= Seq::empty());
        }
        return ReviewProgress::Done(outcome);
    }
    runtime.review(input)
}

// ---------------------------------------------------------------------------
// What is reported
// ---------------------------------------------------------------------------

/// What a finding reports of itself.
#[derive(Debug, Clone, Copy, PartialEq, Eq, Structural)]
pub enum Activity {
    Open,
    Other,
}

/// What was done with an operation.
#[derive(Debug, Clone, Copy, PartialEq, Eq, Structural)]
pub enum Action {
    Allowed,
    Denied,
}

/// What became of an operation.
#[derive(Debug, Clone, Copy, PartialEq, Eq, Structural)]
pub enum Disposition {
    Allowed,
    Blocked,
}

/// A security finding about an operation that interceptors stopped.
#[derive(Debug, Clone, PartialEq, Eq)]
pub struct InterceptorFinding {
    pub activity: Activity,
    pub action: Action,
    pub disposition: Disposition,
    pub severity: Severity,
    pub risk_level: Severity,
    pub uid: String,
    pub title: String,
    pub description: String,
    pub evidence: Vec<(String, String)>,
    pub message: String,
}

/// The content of a finding.
#[verifier::ext_equal]
pub struct FindingView {
    pub activity: Activity,
    pub action: Action,
    pub disposition: Disposition,
    pub severity: Severity,
    pub risk_level: Severity,
    pub uid: Seq<char>,
    pub title: Seq<char>,
    pub description: Seq<char>,
    pub evidence: TextMap,
    pub message: Seq<char>,
}

impl DeepView for InterceptorFinding {
    type V = FindingView;

    open spec fn deep_view(&self) -> FindingView {
        FindingView {
            activity: self.activity,
            action: self.action,
            disposition: self.disposition,
            severity: self.severity,
            risk_level: self.risk_level,
            uid: self.uid@,
            title: self.title@,
            description: self.description@,
            evidence: self.evidence.deep_view(),
            message: self.message@,
        }
    }
}

/// What happened to an operation in a phase.
pub open spec fn event_text(
    verb: Seq<char>,
    phase: Seq<char>,
    resource: Seq<char>,
    operation: Seq<char>,
    detail: Seq<char>,
) -> Seq<char> {
    "Gateway interceptor "@ + verb + " "@ + resource + "."@ + operation + " during "@ + phase
        + ": "@ + detail
}

/// The finding about a denial.
pub open spec fn denial_finding(
    interceptor: Seq<char>,
    binding: Seq<char>,
    phase: Seq<char>,
    resource: Seq<char>,
    operation: Seq<char>,
    reason: Seq<char>,
) -> FindingView {
    FindingView {
        activity: Activity::Open,
        action: Action::Denied,
        disposition: Disposition::Blocked,
        severity: Severity::High,
        risk_level: Severity::High,
        uid: "gateway_interceptor_denial"@,
        title: "Gateway interceptor denial"@,
        description: reason,
        evidence: seq![
            ("interceptor"@, interceptor),
            ("binding"@, binding),
            ("phase"@, phase),
            ("resource"@, resource),
            ("operation"@, operation),
        ],
        message: event_text("denied"@, phase, resource, operation, reason),
    }
}

/// The finding about a failure.
pub open spec fn failure_finding(
    phase: Seq<char>,
    resource: Seq<char>,
    operation: Seq<char>,
    code: Seq<char>,
    message: Seq<char>,
) -> FindingView {
    FindingView {
        activity: Activity::Open,
        action: Action::Denied,
        disposition: Disposition::Blocked,
        severity: Severity::High,
        risk_level: Severity::High,
        uid: "gateway_interceptor_failure"@,
        title: "Gateway interceptor failure"@,
        description: message,
        evidence: seq![
            ("phase"@, phase),
            ("resource"@, resource),
            ("operation"@, operation),
            ("code"@, code),
        ],
        message: event_text("failed"@, phase, resource, operation, message),
    }
}

fn pair(name: &str, value: &str) -> (r: (String, String))
    ensures
        r.deep_view() == (name@, value@),
{
    (name.to_owned(), value.to_owned())
}

fn describe_event(verb: &str, phase: &str, resource: &str, operation: &str, detail: &str) -> (r:
    String)
    ensures
        r@ == event_text(verb@, phase@, resource@, operation@, detail@),
{
    let start = cat7("Gateway interceptor ", verb, " ", resource, ".", operation, " during ");
    text::cat4(start.as_str(), phase, ": ", detail)
}

/// The finding about a denial.
pub fn emit_interceptor_denial(
    interceptor: &str,
    binding: &str,
    phase: &str,
    resource: &str,
    operation: &str,
    reason: &str,
) -> (r: InterceptorFinding)
    ensures
        r.deep_view() == denial_finding(
            interceptor@,
            binding@,
            phase@,
            resource@,
            operation@,
            reason@,
        ),
{
    let mut evidence: Vec<(String, String)> = Vec::new();
    evidence.push(pair("interceptor", interceptor));
    evidence.push(pair("binding", binding));
    evidence.push(pair("phase", phase));
    evidence.push(pair("resource", resource));
    evidence.push(pair("operation", operation));
    assert(evidence.deep_view() =~= seq![
        ("interceptor"@, interceptor@),
        ("binding"@, binding@),
        ("phase"@, phase@),
        ("resource"@, resource@),
        ("operation"@, operation@),
    ]);
    InterceptorFinding {
        activity: Activity::Open,
        action: Action::Denied,
        disposition: Disposition::Blocked,
        severity: Severity::High,
        risk_level: Severity::High,
        uid: "gateway_interceptor_denial".to_owned(),
        title: "Gateway interceptor denial".to_owned(),
        description: reason.to_owned(),
        evidence,
        message: describe_event("denied", phase, resource, operation, reason),
    }
}

/// The finding about a failure. `code` is how the status's code is shown.
pub fn emit_interceptor_failure(
    phase: &str,
    resource: &str,
    operation: &str,
    code: &str,
    message: &str,
) -> (r: InterceptorFinding)
    ensures
        r.deep_view() == failure_finding(phase@, resource@, operation@, code@, message@),
{
    let mut evidence: Vec<(String, String)> = Vec::new();
    evidence.push(pair("phase", phase));
    evidence.push(pair("resource", resource));
    evidence.push(pair("operation", operation));
    evidence.push(pair("code", code));
    assert(evidence.deep_view() =~= seq![
        ("phase"@, phase@),
        ("resource"@, resource@),
        ("operation"@, operation@),
        ("code"@, code@),
    ]);
    InterceptorFinding {
        activity: Activity::Open,
        action: Action::Denied,
        disposition: Disposition::Blocked,
        severity: Severity::High,
        risk_level: Severity::High,
        uid: "gateway_interceptor_failure".to_owned(),
        title: "Gateway interceptor failure".to_owned(),
        description: message.to_owned(),
        evidence,
        message: describe_event("failed", phase, resource, operation, message),
    }
}

/// The finding about a review error. A denial names its own phase, resource and
/// operation.
pub open spec fn finding_of(
    error: ErrorView,
    phase: Seq<char>,
    resource: Seq<char>,
    operation: Seq<char>,
    code: Seq<char>,
) -> FindingView {
    match error {
        ErrorView::Denied {
            interceptor,
            binding,
            phase,
            resource,
            operation,
            reason,
            ..
        } => denial_finding(interceptor, binding, phase, resource, operation, reason),
        ErrorView::Failed(status) => failure_finding(
            phase,
            resource,
            operation,
            code,
            status.message,
        ),
    }
}

/// What a review error is reported as, and answered with. `code` is how the code of
/// a failure's status is shown.
pub fn review_error_to_status(
    error: ReviewError,
    phase: &str,
    resource: &str,
    operation: &str,
    code: &str,
) -> (r: (InterceptorFinding, Status))
    ensures
        r.0.deep_view() == finding_of(error.deep_view(), phase@, resource@, operation@, code@),
        r.1.deep_view() == status_of(error.deep_view()),
{
    let finding = match &error {
        ReviewError::Denied {
            interceptor,
            binding,
            phase,
            resource,
            operation,
            reason,
            ..
        } => emit_interceptor_denial(
            interceptor.as_str(),
            binding.as_str(),
            phase.as_str(),
            resource.as_str(),
            operation.as_str(),
            reason.as_str(),
        ),
        ReviewError::Failed(status) => emit_interceptor_failure(
            phase,
            resource,
            operation,
            code,
            status.message(),
        ),
    };
    (finding, error.into_status())
}

// ---------------------------------------------------------------------------
// Patches of providers
// ---------------------------------------------------------------------------

/// A path is that of the credentials of a provider, or below it.
pub open spec fn is_credential_path(path: Seq<char>) -> bool {
    path == "/credentials"@ || text::starts_with(path, "/credentials/"@)
}

/// What is said of a patch of a provider.
pub open spec fn patch_problem(patch: PatchView) -> Option<StatusView> {
    if is_credential_path(patch.path) {
        Some(
            status(
                Code::PermissionDenied,
                "interceptor patches cannot modify provider credential values"@,
            ),
        )
    } else if is_credential_path(patch.from) {
        Some(
            status(
                Code::PermissionDenied,
                "interceptor patches cannot read provider credential values"@,
            ),
        )
    } else {
        None
    }
}

/// What is said of the first patch of a provider that is not allowed.
pub open spec fn first_patch_problem(patches: Seq<PatchView>) -> Option<StatusView>
    decreases patches.len(),
{
    if patches.len() == 0 {
        None
    } else {
        match patch_problem(patches[0]) {
            Some(problem) => Some(problem),
            None => first_patch_problem(patches.skip(1)),
        }
    }
}

fn path_is_credential(path: &str) -> (r: bool)
    ensures
        r == is_credential_path(path@),
{
    text::same(path, "/credentials") || text::has_prefix(path, "/credentials/")
}

/// Checks that patches of a provider leave its credentials alone.
pub fn provider_patch_targets_allowed(patches: &Vec<JsonPatch>) -> (r: Result<(), Status>)
    ensures
        shown(r) == (match first_patch_problem(patches.deep_view()) {
            Some(problem) => Err(problem),
            None => Ok(()),
        }),
{
    let ghost list = patches.deep_view();
    let mut i: usize = 0;
    proof {
        assert(list.skip(0) =~= list);
    }
    while i < patches.len()
        invariant
            i <= patches.len(),
            list == patches.deep_view(),
            first_patch_problem(list) == first_patch_problem(list.skip(i as int)),
        decreases patches.len() - i,
    {
        proof {
            assert(list.skip(i as int)[0] == patches@[i as int].deep_view());
            assert(list.skip(i as int).skip(1) =~= list.skip(i + 1));
        }
        if path_is_credential(patches[i].path.as_str()) {
            return Err(
                Status::new(
                    Code::PermissionDenied,
                    "interceptor patches cannot modify provider credential values".to_owned(),
                ),
            );
        }
        if path_is_credential(patches[i].from.as_str()) {
            return Err(
                Status::new(
                    Code::PermissionDenied,
                    "interceptor patches cannot read provider credential values".to_owned(),
                ),
            );
        }
        i += 1;
    }
    Ok(())
}

/// An object with patches applied, given what applying them gave.
pub open spec fn patched_object(patched: Result<Seq<char>, Seq<char>>) -> Result<
    Seq<char>,
    StatusView,
> {
    match patched {
        Ok(object) => Ok(object),
        Err(problem) => Err(
            status(Code::InvalidArgument, "apply interceptor patches failed: "@ + problem),
        ),
    }
}

/// An object with patches applied, given what applying them gave.
pub fn settle_patched_object(patched: Result<String, String>) -> (r: Result<String, Status>)
    ensures
        shown(r) == patched_object(shown(patched)),
{
    match patched {
        Ok(object) => Ok(object),
        Err(problem) => Err(
            Status::new(
                Code::InvalidArgument,
                cat2("apply interceptor patches failed: ", problem.as_str()),
            ),
        ),
    }
}

/// An object, which is a JSON text, with patches applied.
pub fn apply_patches_to_original(object: &str, patches: &Vec<JsonPatch>) -> (r: Result<
    String,
    Status,
>)
    ensures
        shown(r) == patched_object(patched(object@, patches.deep_view())),
{
    settle_patched_object(apply_proto_patches(object, patches))
}

// ---------------------------------------------------------------------------
// Laws
// ---------------------------------------------------------------------------

/// Patches that are allowed neither change nor read a credential of a provider.
pub proof fn law_allowed_patches_spare_credentials(patches: Seq<PatchView>, i: int)
    requires
        first_patch_problem(patches) is None,
        0 <= i < patches.len(),
    ensures
        !is_credential_path(patches[i].path),
        !is_credential_path(patches[i].from),
    decreases patches.len(),
{
    if i > 0 {
        law_allowed_patches_spare_credentials(patches.skip(1), i - 1);
        assert(patches.skip(1)[i - 1] == patches[i]);
    }
}

/// Without interceptors, an operation goes on with the object as it is.
pub proof fn law_no_interceptors_no_change(runtime: RuntimeView, input: InputView)
    requires
        runtime.bindings.len() == 0,
    ensures
        review_begun(runtime, input) matches ProgressView::Done(outcome) && outcome.object
            == input.object && outcome.applied_patches.len() == 0,
{
}

/// Who asks is told by kind: a user with the subject and the roles, a sandbox with its
/// identity, and nobody else with anything.
pub proof fn law_callers(caller: Option<CallerView>)
    ensures
        caller matches Some(CallerView::User { subject, roles }) ==> principal_of(caller).kind
            == "user"@ && principal_of(caller).subject == subject && principal_of(caller).groups
            == roles,
        caller matches Some(CallerView::Sandbox { sandbox_id }) ==> principal_of(caller).kind
            == "sandbox"@ && principal_of(caller).subject == sandbox_id && principal_of(
            caller,
        ).groups.len() == 0,
        caller is None || caller == Some(CallerView::Anonymous) ==> principal_of(caller).kind
            == "anonymous"@ && principal_of(caller).subject.len() == 0 && principal_of(
            caller,
        ).groups.len() == 0,
{
}

/// Interceptors are asked about the operation as it is, with who asks, and may change the
/// object before the request and while it is made, and at no other time.
pub proof fn law_asked_operations(info: InfoView, operation: OperationView)
    ensures
        ({
            let input = input_of(info, operation);
            &&& input.phase == operation.phase
            &&& input.resource == operation.resource
            &&& input.operation == operation.operation
            &&& input.principal == info.principal
            &&& input.context.request_id == info.request_id
            &&& input.context.gateway_replica_id == "openshell-gateway"@
            &&& input.context.compute_driver == operation.compute_driver
            &&& input.context.labels == operation.labels
            &&& !input.context.dry_run
            &&& input.object == operation.object
            &&& input.old_object == operation.old_object
            &&& input.request == operation.request
            &&& input.modification_allowed <==> operation.phase == "pre_request"@
                || operation.phase == "modify_object"@
        }),
{
}

/// A review error is always a finding of a blocked operation. A denial is told with what the
/// interceptor said of it, and a failure with the operation that was reviewed.
pub proof fn law_findings(
    error: ErrorView,
    phase: Seq<char>,
    resource: Seq<char>,
    operation: Seq<char>,
    code: Seq<char>,
)
    ensures
        ({
            let finding = finding_of(error, phase, resource, operation, code);
            &&& finding.action == Action::Denied
            &&& finding.disposition == Disposition::Blocked
            &&& finding.severity == Severity::High
            &&& match error {
                ErrorView::Denied {
                    interceptor,
                    binding,
                    phase,
                    resource,
                    operation,
                    reason,
                    ..
                } => finding.uid == "gateway_interceptor_denial"@ && finding.description == reason
                    && finding.evidence == seq![
                    ("interceptor"@, interceptor),
                    ("binding"@, binding),
                    ("phase"@, phase),
                    ("resource"@, resource),
                    ("operation"@, operation),
                ] && text::ends_with(finding.message, ": "@ + reason),
                ErrorView::Failed(status) => finding.uid == "gateway_interceptor_failure"@
                    && finding.description == status.message && finding.evidence == seq![
                    ("phase"@, phase),
                    ("resource"@, resource),
                    ("operation"@, operation),
                    ("code"@, code),
                ] && text::ends_with(finding.message, ": "@ + status.message),
            }
        }),
{
    let message = finding_of(error, phase, resource, operation, code).message;
    let detail = match error {
        ErrorView::Denied { reason, .. } => reason,
        ErrorView::Failed(status) => status.message,
    };
    assert(message.skip(message.len() - (": "@ + detail).len()) =~= ": "@ + detail);
}

/// Patches of a provider are allowed exactly where none of them changes or reads its
/// credentials, or anything below them. What is not allowed is denied.
pub proof fn law_allowed_patches(patches: Seq<PatchView>)
    ensures
        first_patch_problem(patches) is None <==> (forall|i: int|
            0 <= i < patches.len() ==> (#[trigger] patches[i]).path != "/credentials"@
                && !text::starts_with(patches[i].path, "/credentials/"@) && patches[i].from
                != "/credentials"@ && !text::starts_with(patches[i].from, "/credentials/"@)),
        first_patch_problem(patches) matches Some(problem) ==> problem.code
            == Code::PermissionDenied,
    decreases patches.len(),
{
    if patches.len() > 0 {
        let rest = patches.skip(1);
        law_allowed_patches(rest);
        assert forall|i: int| 1 <= i < patches.len() implies rest[i - 1]
            == #[trigger] patches[i] by {}
        if first_patch_problem(patches) is None {
            assert forall|i: int| 0 <= i < patches.len() implies (#[trigger] patches[i]).path
                != "/credentials"@ && !text::starts_with(patches[i].path, "/credentials/"@)
                && patches[i].from != "/credentials"@ && !text::starts_with(
                patches[i].from,
                "/credentials/"@,
            ) by {
                if i > 0 {
                    assert(rest[i - 1] == patches[i]);
                }
            }
        } else if patch_problem(patches[0]) is None {
            let k = choose|k: int|
                0 <= k < rest.len() && !((#[trigger] rest[k]).path != "/credentials"@
                    && !text::starts_with(rest[k].path, "/credentials/"@) && rest[k].from
                    != "/credentials"@ && !text::starts_with(rest[k].from, "/credentials/"@));
            assert(patches[k + 1] == rest[k]);
        }
    }
}

/// A patched object is used as it is, and an object that could not be patched is refused.
pub proof fn law_patched_objects(patched: Result<Seq<char>, Seq<char>>)
    ensures
        patched matches Ok(object) ==> patched_object(patched) == Ok::<Seq<char>, StatusView>(
            object,
        ),
        patched matches Err(problem) ==> (patched_object(patched) matches Err(error) && error.code
            == Code::InvalidArgument && text::ends_with(error.message, problem)),
{
    if let Err(problem) = patched {
        text::laws::law_ends("apply interceptor patches failed: "@, problem, problem);
    }
}

} // verus!
