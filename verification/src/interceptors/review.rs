//! The review of an operation by the interceptors that are bound to it.
//!
//! The calls to interceptors are made outside: a review says which call comes
//! next, and goes on with the reply. Objects are JSON texts.

use crate::digest;
use crate::interceptors::config::{FailurePolicy, TextMap, API_VERSION, DEFAULT_MAX_PATCH_COUNT};
use crate::interceptors::planning::{in_order, sort_bindings, PlanView, RuntimeBinding};
use crate::ordered;
use crate::outcome::shown;
use crate::status::{status, Code, Status, StatusView};
use crate::text;
use crate::text::{cat2, cat3, cat4, cat5};
use vstd::prelude::*;

verus! {

// ---------------------------------------------------------------------------
// What is reviewed
// ---------------------------------------------------------------------------

/// Who asks for an operation.
#[derive(Debug, Clone, PartialEq, Eq)]
pub struct InterceptorPrincipal {
    pub kind: String,
    pub subject: String,
    pub groups: Vec<String>,
}

/// The content of a principal.
#[verifier::ext_equal]
pub struct PrincipalView {
    pub kind: Seq<char>,
    pub subject: Seq<char>,
    pub groups: Seq<Seq<char>>,
}

impl DeepView for InterceptorPrincipal {
    type V = PrincipalView;

    open spec fn deep_view(&self) -> PrincipalView {
        PrincipalView {
            kind: self.kind@,
            subject: self.subject@,
            groups: self.groups.deep_view(),
        }
    }
}

/// What an operation is asked for in.
#[derive(Debug, Clone, PartialEq, Eq)]
pub struct InterceptorRequestContext {
    pub request_id: String,
    pub gateway_replica_id: String,
    pub compute_driver: String,
    pub dry_run: bool,
    pub labels: Vec<(String, String)>,
}

/// The content of a request's context.
#[verifier::ext_equal]
pub struct ContextView {
    pub request_id: Seq<char>,
    pub gateway_replica_id: Seq<char>,
    pub compute_driver: Seq<char>,
    pub dry_run: bool,
    pub labels: TextMap,
}

impl DeepView for InterceptorRequestContext {
    type V = ContextView;

    open spec fn deep_view(&self) -> ContextView {
        ContextView {
            request_id: self.request_id@,
            gateway_replica_id: self.gateway_replica_id@,
            compute_driver: self.compute_driver@,
            dry_run: self.dry_run,
            labels: self.labels.deep_view(),
        }
    }
}

/// An operation that is to be reviewed.
#[derive(Debug, Clone, PartialEq, Eq)]
pub struct ReviewInput {
    pub phase: String,
    pub resource: String,
    pub operation: String,
    pub principal: InterceptorPrincipal,
    pub context: InterceptorRequestContext,
    pub object: String,
    pub old_object: Option<String>,
    pub request: Option<String>,
    pub modification_allowed: bool,
}

/// The content of an operation.
#[verifier::ext_equal]
pub struct InputView {
    pub phase: Seq<char>,
    pub resource: Seq<char>,
    pub operation: Seq<char>,
    pub principal: PrincipalView,
    pub context: ContextView,
    pub object: Seq<char>,
    pub old_object: Option<Seq<char>>,
    pub request: Option<Seq<char>>,
    pub modification_allowed: bool,
}

impl DeepView for ReviewInput {
    type V = InputView;

    open spec fn deep_view(&self) -> InputView {
        InputView {
            phase: self.phase@,
            resource: self.resource@,
            operation: self.operation@,
            principal: self.principal.deep_view(),
            context: self.context.deep_view(),
            object: self.object@,
            old_object: self.old_object.deep_view(),
            request: self.request.deep_view(),
            modification_allowed: self.modification_allowed,
        }
    }
}

/// One change to an object. The value is a JSON text.
#[derive(Debug, Clone, PartialEq, Eq)]
pub struct JsonPatch {
    pub op: String,
    pub path: String,
    pub from: String,
    pub value: Option<String>,
}

/// The content of a change.
#[verifier::ext_equal]
pub struct PatchView {
    pub op: Seq<char>,
    pub path: Seq<char>,
    pub from: Seq<char>,
    pub value: Option<Seq<char>>,
}

impl DeepView for JsonPatch {
    type V = PatchView;

    open spec fn deep_view(&self) -> PatchView {
        PatchView {
            op: self.op@,
            path: self.path@,
            from: self.from@,
            value: self.value.deep_view(),
        }
    }
}

/// What an interceptor decides.
#[derive(Debug, Clone, PartialEq, Eq)]
pub struct InterceptorDecision {
    pub allowed: bool,
    pub reason: String,
    pub status_code: String,
    pub warnings: Vec<String>,
    pub audit_annotations: Vec<(String, String)>,
    pub patches: Vec<JsonPatch>,
}

/// The content of a decision.
#[verifier::ext_equal]
pub struct DecisionView {
    pub allowed: bool,
    pub reason: Seq<char>,
    pub status_code: Seq<char>,
    pub warnings: Seq<Seq<char>>,
    pub audit_annotations: TextMap,
    pub patches: Seq<PatchView>,
}

impl DeepView for InterceptorDecision {
    type V = DecisionView;

    open spec fn deep_view(&self) -> DecisionView {
        DecisionView {
            allowed: self.allowed,
            reason: self.reason@,
            status_code: self.status_code@,
            warnings: self.warnings.deep_view(),
            audit_annotations: self.audit_annotations.deep_view(),
            patches: self.patches.deep_view(),
        }
    }
}

/// What a review came to.
#[derive(Debug, Clone, PartialEq, Eq)]
pub struct ReviewOutcome {
    pub object: String,
    pub applied_patches: Vec<JsonPatch>,
    pub warnings: Vec<String>,
    pub audit_annotations: Vec<(String, String)>,
}

/// The content of an outcome.
#[verifier::ext_equal]
pub struct OutcomeView {
    pub object: Seq<char>,
    pub applied_patches: Seq<PatchView>,
    pub warnings: Seq<Seq<char>>,
    pub audit_annotations: TextMap,
}

impl DeepView for ReviewOutcome {
    type V = OutcomeView;

    open spec fn deep_view(&self) -> OutcomeView {
        OutcomeView {
            object: self.object@,
            applied_patches: self.applied_patches.deep_view(),
            warnings: self.warnings.deep_view(),
            audit_annotations: self.audit_annotations.deep_view(),
        }
    }
}

/// Why an operation does not go on.
#[derive(Debug, Clone, PartialEq, Eq)]
pub enum ReviewError {
    Denied {
        interceptor: String,
        binding: String,
        phase: String,
        resource: String,
        operation: String,
        status_code: Code,
        reason: String,
    },
    Failed(Status),
}

/// The content of a review error.
pub enum ErrorView {
    Denied {
        interceptor: Seq<char>,
        binding: Seq<char>,
        phase: Seq<char>,
        resource: Seq<char>,
        operation: Seq<char>,
        status_code: Code,
        reason: Seq<char>,
    },
    Failed(StatusView),
}

impl DeepView for ReviewError {
    type V = ErrorView;

    open spec fn deep_view(&self) -> ErrorView {
        match self {
            ReviewError::Denied {
                interceptor,
                binding,
                phase,
                resource,
                operation,
                status_code,
                reason,
            } => ErrorView::Denied {
                interceptor: interceptor@,
                binding: binding@,
                phase: phase@,
                resource: resource@,
                operation: operation@,
                status_code: *status_code,
                reason: reason@,
            },
            ReviewError::Failed(status) => ErrorView::Failed(status.deep_view()),
        }
    }
}

/// The status that a review error is answered with.
pub open spec fn status_of(error: ErrorView) -> StatusView {
    match error {
        ErrorView::Denied { status_code, reason, .. } => status(status_code, reason),
        ErrorView::Failed(status) => status,
    }
}

impl ReviewError {
    /// The status that the error is answered with.
    pub fn into_status(self) -> (r: Status)
        ensures
            r.deep_view() == status_of(self.deep_view()),
    {
        match self {
            ReviewError::Denied { status_code, reason, .. } => Status::new(status_code, reason),
            ReviewError::Failed(status) => status,
        }
    }
}

/// The code that a text names, up to case and the space around it. Any other text
/// stands for a denial.
pub open spec fn code_named(value: Seq<char>) -> Code {
    let name = text::lower(text::trimmed(value));
    if name == "cancelled"@ || name == "canceled"@ {
        Code::Cancelled
    } else if name == "unknown"@ {
        Code::Unknown
    } else if name == "invalid_argument"@ {
        Code::InvalidArgument
    } else if name == "deadline_exceeded"@ {
        Code::DeadlineExceeded
    } else if name == "not_found"@ {
        Code::NotFound
    } else if name == "already_exists"@ {
        Code::AlreadyExists
    } else if name == "resource_exhausted"@ {
        Code::ResourceExhausted
    } else if name == "failed_precondition"@ {
        Code::FailedPrecondition
    } else if name == "aborted"@ {
        Code::Aborted
    } else if name == "out_of_range"@ {
        Code::OutOfRange
    } else if name == "unimplemented"@ {
        Code::Unimplemented
    } else if name == "internal"@ {
        Code::Internal
    } else if name == "unavailable"@ {
        Code::Unavailable
    } else if name == "data_loss"@ {
        Code::DataLoss
    } else if name == "unauthenticated"@ {
        Code::Unauthenticated
    } else {
        Code::PermissionDenied
    }
}

/// The code that a text names.
pub fn status_code(value: &str) -> (r: Code)
    ensures
        r == code_named(value@),
{
    let lowered = text::to_lower(text::trim(value));
    let name = lowered.as_str();
    if text::same(name, "cancelled") || text::same(name, "canceled") {
        Code::Cancelled
    } else if text::same(name, "unknown") {
        Code::Unknown
    } else if text::same(name, "invalid_argument") {
        Code::InvalidArgument
    } else if text::same(name, "deadline_exceeded") {
        Code::DeadlineExceeded
    } else if text::same(name, "not_found") {
        Code::NotFound
    } else if text::same(name, "already_exists") {
        Code::AlreadyExists
    } else if text::same(name, "resource_exhausted") {
        Code::ResourceExhausted
    } else if text::same(name, "failed_precondition") {
        Code::FailedPrecondition
    } else if text::same(name, "aborted") {
        Code::Aborted
    } else if text::same(name, "out_of_range") {
        Code::OutOfRange
    } else if text::same(name, "unimplemented") {
        Code::Unimplemented
    } else if text::same(name, "internal") {
        Code::Internal
    } else if text::same(name, "unavailable") {
        Code::Unavailable
    } else if text::same(name, "data_loss") {
        Code::DataLoss
    } else if text::same(name, "unauthenticated") {
        Code::Unauthenticated
    } else {
        Code::PermissionDenied
    }
}

// ---------------------------------------------------------------------------
// Matching
// ---------------------------------------------------------------------------

/// An empty list admits every text, any other one its own.
pub open spec fn admits(list: Seq<Seq<char>>, value: Seq<char>) -> bool {
    list.len() == 0 || list.contains(value)
}

/// An empty list admits every principal, any other one those with a group of it.
pub open spec fn admits_groups(list: Seq<Seq<char>>, groups: Seq<Seq<char>>) -> bool {
    list.len() == 0 || exists|i: int|
        0 <= i < list.len() && groups.contains(#[trigger] list[i])
}

/// The labels of a request hold every selected one.
pub open spec fn admits_labels(selected: TextMap, labels: TextMap) -> bool {
    forall|i: int|
        0 <= i < selected.len() ==> ordered::lookup(labels, (#[trigger] selected[i]).0) == Some(
            selected[i].1,
        )
}

/// A binding is bound to an operation.
pub open spec fn is_bound(plan: PlanView, input: InputView) -> bool {
    &&& admits(plan.phases, input.phase)
    &&& admits(plan.resources, input.resource)
    &&& admits(plan.operations, input.operation)
    &&& admits(plan.selector.principal_kinds, input.principal.kind)
    &&& admits_groups(plan.selector.principal_groups, input.principal.groups)
    &&& admits(plan.selector.compute_drivers, input.context.compute_driver)
    &&& admits_labels(plan.selector.labels, input.context.labels)
}

/// An empty list admits every text, any other one its own.
pub fn matches_string(selector: &Vec<String>, value: &str) -> (r: bool)
    ensures
        r == admits(selector.deep_view(), value@),
{
    selector.len() == 0 || text::list_contains(selector, value)
}

/// An empty list admits every principal, any other one those with a group of it.
pub fn matches_groups(selector: &Vec<String>, groups: &Vec<String>) -> (r: bool)
    ensures
        r == admits_groups(selector.deep_view(), groups.deep_view()),
{
    if selector.len() == 0 {
        return true;
    }
    let ghost list = selector.deep_view();
    let mut i: usize = 0;
    while i < selector.len()
        invariant
            i <= selector.len(),
            list == selector.deep_view(),
            forall|j: int| 0 <= j < i ==> !groups.deep_view().contains(#[trigger] list[j]),
        decreases selector.len() - i,
    {
        assert(list[i as int] == selector@[i as int]@);
        if text::list_contains(groups, selector[i].as_str()) {
            assert(groups.deep_view().contains(list[i as int]));
            return true;
        }
        i += 1;
    }
    false
}

/// The labels of a request hold every selected one.
pub fn matches_labels(selector: &Vec<(String, String)>, labels: &Vec<(String, String)>) -> (r: bool)
    ensures
        r == admits_labels(selector.deep_view(), labels.deep_view()),
{
    let ghost list = selector.deep_view();
    let mut i: usize = 0;
    while i < selector.len()
        invariant
            i <= selector.len(),
            list == selector.deep_view(),
            forall|j: int|
                0 <= j < i ==> ordered::lookup(labels.deep_view(), (#[trigger] list[j]).0) == Some(
                    list[j].1,
                ),
        decreases selector.len() - i,
    {
        assert(list[i as int] == (selector@[i as int].0@, selector@[i as int].1@));
        let held = match ordered::get(labels, selector[i].0.as_str()) {
            Some(actual) => text::same(actual.as_str(), selector[i].1.as_str()),
            None => false,
        };
        if !held {
            assert(ordered::lookup(labels.deep_view(), list[i as int].0) != Some(
                list[i as int].1,
            ));
            return false;
        }
        i += 1;
    }
    true
}

impl RuntimeBinding {
    /// Tells whether the binding is bound to an operation.
    pub fn matches(&self, input: &ReviewInput) -> (r: bool)
        ensures
            r == is_bound(self.deep_view(), input.deep_view()),
    {
        matches_string(&self.phases, input.phase.as_str()) && matches_string(
            &self.resources,
            input.resource.as_str(),
        ) && matches_string(&self.operations, input.operation.as_str()) && matches_string(
            &self.selector.principal_kinds,
            input.principal.kind.as_str(),
        ) && matches_groups(&self.selector.principal_groups, &input.principal.groups)
            && matches_string(
            &self.selector.compute_drivers,
            input.context.compute_driver.as_str(),
        ) && matches_labels(&self.selector.labels, &input.context.labels)
    }
}

// ---------------------------------------------------------------------------
// Patches
// ---------------------------------------------------------------------------

/// A character in a JSON string.
pub open spec fn escaped(c: char) -> Seq<char> {
    if c == '"' {
        "\\\""@
    } else if c == '\\' {
        "\\\\"@
    } else if c == '\u{8}' {
        "\\b"@
    } else if c == '\t' {
        "\\t"@
    } else if c == '\n' {
        "\\n"@
    } else if c == '\u{c}' {
        "\\f"@
    } else if c == '\r' {
        "\\r"@
    } else if ' ' > c {
        "\\u00"@ + seq![digest::hex_digit(c as int / 16), digest::hex_digit(c as int % 16)]
    } else {
        seq![c]
    }
}

/// The characters of a text in a JSON string.
pub open spec fn escapes(text: Seq<char>) -> Seq<char>
    decreases text.len(),
{
    if text.len() == 0 {
        Seq::empty()
    } else {
        escapes(text.drop_last()) + escaped(text.last())
    }
}

/// The JSON string of a text.
pub open spec fn json_quoted(text: Seq<char>) -> Seq<char> {
    "\""@ + escapes(text) + "\""@
}

fn escape(out: &mut String, c: char)
    ensures
        final(out)@ == old(out)@ + escaped(c),
{
    if c == '"' {
        out.append("\\\"");
    } else if c == '\\' {
        out.append("\\\\");
    } else if c == '\u{8}' {
        out.append("\\b");
    } else if c == '\t' {
        out.append("\\t");
    } else if c == '\n' {
        out.append("\\n");
    } else if c == '\u{c}' {
        out.append("\\f");
    } else if c == '\r' {
        out.append("\\r");
    } else if ' ' > c {
        let ghost before = out@;
        let code: u8 = c as u8;
        out.append("\\u00");
        out.push(hex_digit(code / 16));
        out.push(hex_digit(code % 16));
        assert(out@ =~= before + escaped(c));
    } else {
        let ghost before = out@;
        out.push(c);
        assert(out@ =~= before + seq![c]);
    }
}

fn hex_digit(n: u8) -> (r: char)
    requires
        n < 16,
    ensures
        r == digest::hex_digit(n as int),
{
    if n < 10 {
        ('0' as u8 + n) as char
    } else {
        ('a' as u8 + (n - 10)) as char
    }
}

fn quote(text: &str) -> (r: String)
    ensures
        r@ == json_quoted(text@),
{
    let chars = text::chars_of(text);
    let mut out = "\"".to_owned();
    let mut i: usize = 0;
    assert(out@ =~= "\""@ + escapes(text@.take(0)));
    while i < chars.len()
        invariant
            i <= chars.len(),
            chars@ == text@,
            out@ == "\""@ + escapes(text@.take(i as int)),
        decreases chars.len() - i,
    {
        escape(&mut out, chars[i]);
        proof {
            let next = text@.take(i + 1);
            assert(next.drop_last() =~= text@.take(i as int));
            assert(next.last() == chars@[i as int]);
            assert(out@ =~= "\""@ + escapes(next));
        }
        i += 1;
    }
    out.append("\"");
    assert(text@.take(i as int) =~= text@);
    out
}

/// What `serde_json` writes for the one value that it reads from a JSON text, or what
/// it says of a text that is no JSON value.
pub uninterp spec fn json_rewritten(text: Seq<char>) -> Result<Seq<char>, Seq<char>>;

/// What `json_patch::patch_unsafe` makes of a document and some changes, all of them
/// JSON texts: the changed document, or what is said of a document or of changes that
/// cannot be read, and of changes that cannot be applied.
pub uninterp spec fn json_patched(document: Seq<char>, changes: Seq<Seq<char>>) -> Result<
    Seq<char>,
    Seq<char>,
>;

/// Where changes could be applied to a document, they come to the same after earlier
/// changes that made the document of another one as all of them at once do on that
/// one.
pub open spec fn carries_on(
    document: Seq<char>,
    changes: Seq<Seq<char>>,
    result: Result<Seq<char>, Seq<char>>,
) -> bool {
    result is Ok ==> forall|origin: Seq<char>, earlier: Seq<Seq<char>>| #[trigger]
        json_patched(origin, earlier) == Ok::<Seq<char>, Seq<char>>(document) ==> json_patched(
            origin,
            earlier + changes,
        ) == result
}

/// `serde_json::from_str` and `Value::to_string`: the one JSON value that a text
/// holds, written anew. The result depends on the text alone.
#[verifier::external_body]
fn rewrite(text: &str) -> (r: Result<String, String>)
    ensures
        shown(r) == json_rewritten(text@),
{
    match serde_json::from_str::<serde_json::Value>(text) {
        Ok(value) => Ok(value.to_string()),
        Err(error) => Err(error.to_string()),
    }
}

/// `json_patch::patch_unsafe` on a document of its own, with `serde_json` to read the
/// texts and to write the result: the changes are read first, and then applied in
/// turn. The result depends on the texts alone. A document that is written is read
/// back as it was, so that changes after earlier changes come to the same as all of
/// them at once.
#[verifier::external_body]
fn patch_document(document: &str, changes: &Vec<String>) -> (r: Result<String, String>)
    ensures
        shown(r) == json_patched(document@, changes.deep_view()),
        carries_on(document@, changes.deep_view(), shown(r)),
{
    let said = |error: serde_json::Error| error.to_string();
    let mut value: serde_json::Value = serde_json::from_str(document).map_err(said)?;
    let read = |text: &String| serde_json::from_str(text).and_then(serde_json::from_value);
    let list: Result<Vec<json_patch::PatchOperation>, _> = changes.iter().map(read).collect();
    json_patch::patch_unsafe(&mut value, &list.map_err(said)?).map_err(|error| error.to_string())?;
    Ok(value.to_string())
}

/// The JSON text of a change, or what is said of its value where that is no JSON
/// value.
pub open spec fn change_text(patch: PatchView) -> Result<Seq<char>, Seq<char>> {
    let head = "{\"op\":"@ + json_quoted(patch.op) + ",\"path\":"@ + json_quoted(patch.path) + (
    if patch.from.len() > 0 {
        ",\"from\":"@ + json_quoted(patch.from)
    } else {
        Seq::empty()
    });
    match patch.value {
        None => Ok(head + "}"@),
        Some(value) => match json_rewritten(value) {
            Ok(written) => Ok(head + ",\"value\":"@ + written + "}"@),
            Err(error) => Err(error),
        },
    }
}

/// The JSON texts of changes, or what is said of the first value that is none.
pub open spec fn change_texts(patches: Seq<PatchView>) -> Result<Seq<Seq<char>>, Seq<char>>
    decreases patches.len(),
{
    if patches.len() == 0 {
        Ok(Seq::empty())
    } else {
        match change_texts(patches.drop_last()) {
            Err(error) => Err(error),
            Ok(before) => match change_text(patches.last()) {
                Err(error) => Err(error),
                Ok(text) => Ok(before.push(text)),
            },
        }
    }
}

/// An object with changes applied, or why they could not be applied.
pub open spec fn patched(object: Seq<char>, patches: Seq<PatchView>) -> Result<
    Seq<char>,
    Seq<char>,
> {
    match change_texts(patches) {
        Err(error) => Err(error),
        Ok(changes) => json_patched(object, changes),
    }
}

/// The object is what the changes make of another one: that one, where there are no
/// changes.
pub open spec fn replays(
    origin: Seq<char>,
    patches: Seq<PatchView>,
    object: Seq<char>,
) -> bool {
    if patches.len() == 0 {
        object == origin
    } else {
        patched(origin, patches) == Ok::<Seq<char>, Seq<char>>(object)
    }
}

proof fn lemma_change_failed(patches: Seq<PatchView>, n: int)
    requires
        0 <= n <= patches.len(),
        change_texts(patches.take(n)) is Err,
    ensures
        change_texts(patches) == change_texts(patches.take(n)),
    decreases patches.len() - n,
{
    if n < patches.len() {
        assert(patches.take(n + 1).drop_last() =~= patches.take(n));
        lemma_change_failed(patches, n + 1);
    } else {
        assert(patches.take(n) =~= patches);
    }
}

proof fn lemma_changes_joined(left: Seq<PatchView>, right: Seq<PatchView>)
    requires
        change_texts(left) is Ok,
        change_texts(right) is Ok,
    ensures
        change_texts(left + right) == Ok::<Seq<Seq<char>>, Seq<char>>(
            change_texts(left)->Ok_0 + change_texts(right)->Ok_0,
        ),
    decreases right.len(),
{
    let texts = change_texts(left)->Ok_0;
    if right.len() == 0 {
        assert(left + right =~= left);
        assert(texts + Seq::empty() =~= texts);
    } else {
        assert((left + right).drop_last() =~= left + right.drop_last());
        assert((left + right).last() == right.last());
        lemma_changes_joined(left, right.drop_last());
        let before = change_texts(right.drop_last())->Ok_0;
        let last = change_text(right.last())->Ok_0;
        assert((texts + before).push(last) =~= texts + before.push(last));
    }
}

fn write_change(patch: &JsonPatch) -> (r: Result<String, String>)
    ensures
        shown(r) == change_text(patch.deep_view()),
{
    let from = if patch.from.as_str().is_empty() {
        String::new()
    } else {
        cat2(",\"from\":", quote(patch.from.as_str()).as_str())
    };
    proof {
        if patch.from@.len() == 0 {
            assert(from@ =~= Seq::empty());
        }
    }
    let head = cat5(
        "{\"op\":",
        quote(patch.op.as_str()).as_str(),
        ",\"path\":",
        quote(patch.path.as_str()).as_str(),
        from.as_str(),
    );
    match &patch.value {
        None => Ok(cat2(head.as_str(), "}")),
        Some(value) => match rewrite(value.as_str()) {
            Ok(written) => Ok(cat4(head.as_str(), ",\"value\":", written.as_str(), "}")),
            Err(error) => Err(error),
        },
    }
}

fn write_changes(patches: &Vec<JsonPatch>) -> (r: Result<Vec<String>, String>)
    ensures
        shown(r) == change_texts(patches.deep_view()),
{
    let ghost list = patches.deep_view();
    let mut texts: Vec<String> = Vec::new();
    let mut i: usize = 0;
    assert(texts.deep_view() =~= Seq::empty());
    while i < patches.len()
        invariant
            i <= patches.len(),
            list == patches.deep_view(),
            change_texts(list.take(i as int)) == Ok::<Seq<Seq<char>>, Seq<char>>(
                texts.deep_view(),
            ),
        decreases patches.len() - i,
    {
        let ghost before = texts.deep_view();
        proof {
            let next = list.take(i + 1);
            assert(next.drop_last() =~= list.take(i as int));
            assert(next.last() == patches@[i as int].deep_view());
        }
        match write_change(&patches[i]) {
            Ok(text) => {
                let ghost seen = text@;
                texts.push(text);
                assert(texts.deep_view() =~= before.push(seen));
            },
            Err(error) => {
                proof {
                    lemma_change_failed(list, i + 1);
                }
                return Err(error);
            },
        }
        i += 1;
    }
    assert(list.take(i as int) =~= list);
    Ok(texts)
}

/// Applies changes to an object: the changed object, or why they could not be
/// applied. Where the object is what earlier changes made of another one, the result
/// is what the earlier and these changes make of that one.
pub fn apply_proto_patches(object: &str, patches: &Vec<JsonPatch>) -> (r: Result<String, String>)
    ensures
        shown(r) == patched(object@, patches.deep_view()),
        r matches Ok(done) ==> patches@.len() > 0 ==> forall|
            origin: Seq<char>,
            earlier: Seq<PatchView>,
        | #[trigger]
            replays(origin, earlier, object@) ==> replays(
                origin,
                earlier + patches.deep_view(),
                done@,
            ),
{
    let changes = match write_changes(patches) {
        Ok(changes) => changes,
        Err(error) => {
            return Err(error);
        },
    };
    let r = patch_document(object, &changes);
    proof {
        let list = patches.deep_view();
        if r is Ok && patches@.len() > 0 {
            let done = r->Ok_0@;
            assert forall|origin: Seq<char>, earlier: Seq<PatchView>| #[trigger]
                replays(origin, earlier, object@) implies replays(origin, earlier + list, done) by {
                if earlier.len() == 0 {
                    assert(earlier + list =~= list);
                } else {
                    let before = change_texts(earlier)->Ok_0;
                    assert(json_patched(origin, before) == Ok::<Seq<char>, Seq<char>>(object@));
                    lemma_changes_joined(earlier, list);
                }
            }
        }
    }
    r
}

// ---------------------------------------------------------------------------
// Payloads
// ---------------------------------------------------------------------------

/// A JSON text of an object: the first character that is no white space opens
/// one.
pub open spec fn opens_object(text: Seq<char>) -> bool
    decreases text.len(),
{
    if text.len() == 0 {
        false
    } else if text[0] == ' ' || text[0] == '\t' || text[0] == '\n' || text[0] == '\r' {
        opens_object(text.skip(1))
    } else {
        text[0] == '{'
    }
}

/// What an interceptor is asked.
#[derive(Debug, Clone, PartialEq, Eq)]
pub struct InterceptorReview {
    pub api_version: String,
    pub interceptor_name: String,
    pub binding_id: String,
    pub phase: String,
    pub resource: String,
    pub operation: String,
    pub principal: InterceptorPrincipal,
    pub context: InterceptorRequestContext,
    pub object: String,
    pub old_object: Option<String>,
    pub request: Option<String>,
}

/// The content of a question to an interceptor.
#[verifier::ext_equal]
pub struct ReviewView {
    pub api_version: Seq<char>,
    pub interceptor_name: Seq<char>,
    pub binding_id: Seq<char>,
    pub phase: Seq<char>,
    pub resource: Seq<char>,
    pub operation: Seq<char>,
    pub principal: PrincipalView,
    pub context: ContextView,
    pub object: Seq<char>,
    pub old_object: Option<Seq<char>>,
    pub request: Option<Seq<char>>,
}

impl DeepView for InterceptorReview {
    type V = ReviewView;

    open spec fn deep_view(&self) -> ReviewView {
        ReviewView {
            api_version: self.api_version@,
            interceptor_name: self.interceptor_name@,
            binding_id: self.binding_id@,
            phase: self.phase@,
            resource: self.resource@,
            operation: self.operation@,
            principal: self.principal.deep_view(),
            context: self.context.deep_view(),
            object: self.object@,
            old_object: self.old_object.deep_view(),
            request: self.request.deep_view(),
        }
    }
}

/// The error where a payload is no JSON object.
pub open spec fn payload_error(name: Seq<char>) -> ErrorView {
    ErrorView::Failed(
        status(
            Code::Internal,
            "build interceptor "@ + name
                + " payload failed: protobuf Struct payload must be a JSON object"@,
        ),
    )
}

/// What an interceptor is asked about an object.
pub open spec fn question(plan: PlanView, input: InputView, object: Seq<char>) -> Result<
    ReviewView,
    ErrorView,
> {
    if !opens_object(object) {
        Err(payload_error("object"@))
    } else if input.old_object is Some && !opens_object(input.old_object->0) {
        Err(payload_error("old_object"@))
    } else if input.request is Some && !opens_object(input.request->0) {
        Err(payload_error("request"@))
    } else {
        Ok(
            ReviewView {
                api_version: API_VERSION@,
                interceptor_name: plan.interceptor_name,
                binding_id: plan.binding_id,
                phase: input.phase,
                resource: input.resource,
                operation: input.operation,
                principal: input.principal,
                context: input.context,
                object,
                old_object: input.old_object,
                request: input.request,
            },
        )
    }
}

fn is_object_text(text: &str) -> (r: bool)
    ensures
        r == opens_object(text@),
{
    let chars = text::chars_of(text);
    let ghost s = text@;
    let mut i: usize = 0;
    proof {
        assert(s.skip(0) =~= s);
    }
    while i < chars.len()
        invariant
            i <= chars.len(),
            chars@ == s,
            s == text@,
            opens_object(s) == opens_object(s.skip(i as int)),
        decreases chars.len() - i,
    {
        let c = chars[i];
        proof {
            assert(s.skip(i as int)[0] == c);
            assert(s.skip(i as int).skip(1) =~= s.skip(i + 1));
        }
        if !(c == ' ' || c == '\t' || c == '\n' || c == '\r') {
            return c == '{';
        }
        i += 1;
    }
    false
}

fn payload_failure(name: &str) -> (r: ReviewError)
    ensures
        r.deep_view() == payload_error(name@),
{
    ReviewError::Failed(
        Status::new(
            Code::Internal,
            cat3(
                "build interceptor ",
                name,
                " payload failed: protobuf Struct payload must be a JSON object",
            ),
        ),
    )
}

fn copy_pairs(pairs: &Vec<(String, String)>) -> (r: Vec<(String, String)>)
    ensures
        r.deep_view() == pairs.deep_view(),
{
    let mut copies: Vec<(String, String)> = Vec::new();
    let mut i: usize = 0;
    while i < pairs.len()
        invariant
            i <= pairs.len(),
            copies.len() == i,
            forall|j: int|
                0 <= j < i ==> #[trigger] copies.deep_view()[j] == pairs@[j].deep_view(),
        decreases pairs.len() - i,
    {
        let ghost before = copies.deep_view();
        copies.push((pairs[i].0.clone(), pairs[i].1.clone()));
        proof {
            assert forall|j: int| 0 <= j < i + 1 implies #[trigger] copies.deep_view()[j]
                == pairs@[j].deep_view() by {
                if j < i {
                    assert(copies.deep_view()[j] == before[j]);
                }
            }
        }
        i += 1;
    }
    assert(copies.deep_view() =~= pairs.deep_view());
    copies
}

fn ask(binding: &RuntimeBinding, input: &ReviewInput, object: &str) -> (r: Result<
    InterceptorReview,
    ReviewError,
>)
    ensures
        shown(r) == question(binding.deep_view(), input.deep_view(), object@),
{
    if !is_object_text(object) {
        return Err(payload_failure("object"));
    }
    if let Some(old_object) = &input.old_object {
        if !is_object_text(old_object.as_str()) {
            return Err(payload_failure("old_object"));
        }
    }
    if let Some(request) = &input.request {
        if !is_object_text(request.as_str()) {
            return Err(payload_failure("request"));
        }
    }
    Ok(
        InterceptorReview {
            api_version: API_VERSION.to_owned(),
            interceptor_name: binding.interceptor_name.clone(),
            binding_id: binding.binding_id.clone(),
            phase: input.phase.clone(),
            resource: input.resource.clone(),
            operation: input.operation.clone(),
            principal: InterceptorPrincipal {
                kind: input.principal.kind.clone(),
                subject: input.principal.subject.clone(),
                groups: input.principal.groups.clone(),
            },
            context: InterceptorRequestContext {
                request_id: input.context.request_id.clone(),
                gateway_replica_id: input.context.gateway_replica_id.clone(),
                compute_driver: input.context.compute_driver.clone(),
                dry_run: input.context.dry_run,
                labels: copy_pairs(&input.context.labels),
            },
            object: object.to_owned(),
            old_object: match &input.old_object {
                Some(old_object) => Some(old_object.clone()),
                None => None,
            },
            request: match &input.request {
                Some(request) => Some(request.clone()),
                None => None,
            },
        },
    )
}

// ---------------------------------------------------------------------------
// Replies
// ---------------------------------------------------------------------------

/// What came of a call to an interceptor.
#[derive(Debug, Clone, PartialEq, Eq)]
pub enum CallOutcome {
    Answered(InterceptorDecision),
    Refused(Status),
    TimedOut,
}

/// The reply that a call counts as.
pub fn review_reply(call: CallOutcome) -> (r: Result<InterceptorDecision, Status>)
    ensures
        match call {
            CallOutcome::Answered(decision) => r == Ok::<InterceptorDecision, Status>(decision),
            CallOutcome::Refused(refusal) => r matches Err(error) && error.deep_view() == status(
                refusal.code,
                "interceptor review failed: "@ + refusal.message@,
            ),
            CallOutcome::TimedOut => r matches Err(error) && error.deep_view() == status(
                Code::DeadlineExceeded,
                "interceptor review deadline exceeded"@,
            ),
        },
{
    match call {
        CallOutcome::Answered(decision) => Ok(decision),
        CallOutcome::Refused(refusal) => Err(
            Status::new(
                refusal.code,
                cat2("interceptor review failed: ", refusal.message.as_str()),
            ),
        ),
        CallOutcome::TimedOut => Err(
            Status::new(
                Code::DeadlineExceeded,
                "interceptor review deadline exceeded".to_owned(),
            ),
        ),
    }
}

/// A review that is under way: the next binding to look at, and what the bindings
/// so far did.
#[derive(Debug, Clone, PartialEq, Eq)]
pub struct ReviewState {
    pub next: usize,
    pub object: String,
    pub applied_patches: Vec<JsonPatch>,
    pub warnings: Vec<String>,
    pub audit_annotations: Vec<(String, String)>,
}

/// The content of a review that is under way.
#[verifier::ext_equal]
pub struct StateView {
    pub next: int,
    pub object: Seq<char>,
    pub applied_patches: Seq<PatchView>,
    pub warnings: Seq<Seq<char>>,
    pub audit_annotations: TextMap,
}

impl DeepView for ReviewState {
    type V = StateView;

    open spec fn deep_view(&self) -> StateView {
        StateView {
            next: self.next as int,
            object: self.object@,
            applied_patches: self.applied_patches.deep_view(),
            warnings: self.warnings.deep_view(),
            audit_annotations: self.audit_annotations.deep_view(),
        }
    }
}

/// A review before its first binding.
pub open spec fn start(input: InputView) -> StateView {
    StateView {
        next: 0,
        object: input.object,
        applied_patches: Seq::empty(),
        warnings: Seq::empty(),
        audit_annotations: Seq::empty(),
    }
}

/// What a review came to.
pub open spec fn outcome_of(state: StateView) -> OutcomeView {
    OutcomeView {
        object: state.object,
        applied_patches: state.applied_patches,
        warnings: state.warnings,
        audit_annotations: state.audit_annotations,
    }
}

/// The effect of a failure: it stops the operation where the binding fails
/// closed, and is passed over otherwise.
pub open spec fn failed(plan: PlanView, state: StateView, failure: StatusView) -> Result<
    StateView,
    ErrorView,
> {
    match plan.failure_policy {
        FailurePolicy::FailClosed => Err(ErrorView::Failed(failure)),
        _ => Ok(state),
    }
}

/// A binding's name at the beginning of a message.
pub open spec fn label_of(plan: PlanView) -> Seq<char> {
    "interceptor '"@ + plan.interceptor_name + "' binding '"@ + plan.binding_id + "'"@
}

/// The denial of an operation.
pub open spec fn denied(plan: PlanView, input: InputView, decision: DecisionView) -> ErrorView {
    ErrorView::Denied {
        interceptor: plan.interceptor_name,
        binding: plan.binding_id,
        phase: input.phase,
        resource: input.resource,
        operation: input.operation,
        status_code: code_named(decision.status_code),
        reason: if text::trimmed(decision.reason).len() == 0 {
            "interceptor denied operation"@
        } else {
            decision.reason
        },
    }
}

/// The state with a decision's warnings and annotations.
pub open spec fn noted(state: StateView, decision: DecisionView) -> StateView {
    StateView {
        warnings: state.warnings + decision.warnings,
        audit_annotations: ordered::put_all(state.audit_annotations, decision.audit_annotations),
        ..state
    }
}

/// Why changes are refused before they are looked at.
pub open spec fn patches_refused(
    plan: PlanView,
    input: InputView,
    count: nat,
    max_patch_count: usize,
) -> Option<StatusView> {
    if !input.modification_allowed {
        Some(
            status(
                Code::Internal,
                label_of(plan) + " returned patches during non-modification phase '"@ + input.phase
                    + "'"@,
            ),
        )
    } else if count > max_patch_count {
        Some(
            status(
                Code::ResourceExhausted,
                label_of(plan) + " returned "@ + text::decimal(count) + " patches; maximum is "@
                    + text::decimal(max_patch_count as nat),
            ),
        )
    } else {
        None
    }
}

/// The state after an attempt to apply changes.
pub open spec fn patches_settled(
    plan: PlanView,
    state: StateView,
    patches: Seq<PatchView>,
    attempt: Result<Seq<char>, Seq<char>>,
) -> Result<StateView, ErrorView> {
    match attempt {
        Ok(object) => Ok(
            StateView {
                object,
                applied_patches: state.applied_patches + patches,
                ..state
            },
        ),
        Err(error) => failed(
            plan,
            state,
            status(
                Code::InvalidArgument,
                label_of(plan) + " returned invalid patches: "@ + error,
            ),
        ),
    }
}

/// The state after a binding's reply.
pub open spec fn replied(
    plan: PlanView,
    input: InputView,
    max_patch_count: usize,
    state: StateView,
    reply: Result<DecisionView, StatusView>,
) -> Result<StateView, ErrorView> {
    match reply {
        Err(failure) => failed(plan, state, failure),
        Ok(decision) => if !decision.allowed {
            Err(denied(plan, input, decision))
        } else {
            let after = noted(state, decision);
            if decision.patches.len() == 0 {
                Ok(after)
            } else {
                match patches_refused(plan, input, decision.patches.len(), max_patch_count) {
                    Some(refusal) => failed(plan, after, refusal),
                    None => patches_settled(
                        plan,
                        after,
                        decision.patches,
                        patched(state.object, decision.patches),
                    ),
                }
            }
        },
    }
}

fn label(binding: &RuntimeBinding) -> (r: String)
    ensures
        r@ == label_of(binding.deep_view()),
{
    cat5(
        "interceptor '",
        binding.interceptor_name.as_str(),
        "' binding '",
        binding.binding_id.as_str(),
        "'",
    )
}

/// The effect of a binding's failure.
pub fn handle_interceptor_failure(
    binding: &RuntimeBinding,
    state: ReviewState,
    failure: Status,
) -> (r: Result<ReviewState, ReviewError>)
    ensures
        shown(r) == failed(binding.deep_view(), state.deep_view(), failure.deep_view()),
{
    match binding.failure_policy {
        FailurePolicy::FailClosed => Err(ReviewError::Failed(failure)),
        FailurePolicy::FailOpen => Ok(state),
        FailurePolicy::Ignore => Ok(state),
    }
}

/// The state after an attempt to apply a binding's changes.
pub fn settle_patches(
    binding: &RuntimeBinding,
    state: ReviewState,
    patches: Vec<JsonPatch>,
    attempt: Result<String, String>,
) -> (r: Result<ReviewState, ReviewError>)
    ensures
        shown(r) == patches_settled(
            binding.deep_view(),
            state.deep_view(),
            patches.deep_view(),
            shown(attempt),
        ),
{
    match attempt {
        Ok(object) => {
            let ghost before = state.deep_view();
            let ghost list = patches.deep_view();
            let mut state = state;
            let mut patches = patches;
            state.applied_patches.append(&mut patches);
            state.object = object;
            assert(state.applied_patches.deep_view() =~= before.applied_patches + list);
            Ok(state)
        },
        Err(error) => {
            let name = label(binding);
            let failure = Status::new(
                Code::InvalidArgument,
                cat3(name.as_str(), " returned invalid patches: ", error.as_str()),
            );
            handle_interceptor_failure(binding, state, failure)
        },
    }
}

fn refuse_patches(
    binding: &RuntimeBinding,
    input: &ReviewInput,
    count: usize,
    max_patch_count: usize,
) -> (r: Option<Status>)
    ensures
        r.deep_view() == patches_refused(
            binding.deep_view(),
            input.deep_view(),
            count as nat,
            max_patch_count,
        ),
{
    if !input.modification_allowed {
        let name = label(binding);
        return Some(
            Status::new(
                Code::Internal,
                cat4(
                    name.as_str(),
                    " returned patches during non-modification phase '",
                    input.phase.as_str(),
                    "'",
                ),
            ),
        );
    }
    if count > max_patch_count {
        let name = label(binding);
        let number = text::decimal_of(count as u64);
        let limit = text::decimal_of(max_patch_count as u64);
        return Some(
            Status::new(
                Code::ResourceExhausted,
                cat5(
                    name.as_str(),
                    " returned ",
                    number.as_str(),
                    " patches; maximum is ",
                    limit.as_str(),
                ),
            ),
        );
    }
    None
}

fn deny(binding: &RuntimeBinding, input: &ReviewInput, decision: InterceptorDecision) -> (r:
    ReviewError)
    ensures
        r.deep_view() == denied(binding.deep_view(), input.deep_view(), decision.deep_view()),
{
    let reason = if text::is_blank(decision.reason.as_str()) {
        "interceptor denied operation".to_owned()
    } else {
        decision.reason
    };
    ReviewError::Denied {
        interceptor: binding.interceptor_name.clone(),
        binding: binding.binding_id.clone(),
        phase: input.phase.clone(),
        resource: input.resource.clone(),
        operation: input.operation.clone(),
        status_code: status_code(decision.status_code.as_str()),
        reason,
    }
}

fn take_reply(
    binding: &RuntimeBinding,
    input: &ReviewInput,
    max_patch_count: usize,
    state: ReviewState,
    reply: Result<InterceptorDecision, Status>,
) -> (r: Result<ReviewState, ReviewError>)
    ensures
        shown(r) == replied(
            binding.deep_view(),
            input.deep_view(),
            max_patch_count,
            state.deep_view(),
            shown(reply),
        ),
        r matches Ok(next) ==> state_replays(input.deep_view(), state.deep_view())
            ==> state_replays(input.deep_view(), next.deep_view()),
{
    let decision = match reply {
        Ok(decision) => decision,
        Err(failure) => {
            return handle_interceptor_failure(binding, state, failure);
        },
    };
    if !decision.allowed {
        return Err(deny(binding, input, decision));
    }
    let ghost before = state.deep_view();
    let ghost made = decision.deep_view();
    let mut state = state;
    let mut warnings = decision.warnings;
    state.warnings.append(&mut warnings);
    ordered::insert_all(&mut state.audit_annotations, &decision.audit_annotations);
    proof {
        assert(state.warnings.deep_view() =~= before.warnings + made.warnings);
        assert(state.deep_view() =~= noted(before, made));
    }
    let patches = decision.patches;
    assert(patches.deep_view() == made.patches);
    if patches.len() == 0 {
        return Ok(state);
    }
    if let Some(refusal) = refuse_patches(binding, input, patches.len(), max_patch_count) {
        return handle_interceptor_failure(binding, state, refusal);
    }
    let attempt = apply_proto_patches(state.object.as_str(), &patches);
    proof {
        if state_replays(input.deep_view(), before) {
            assert(replays(input.object@, before.applied_patches, state.object@));
        }
    }
    settle_patches(binding, state, patches, attempt)
}

// ---------------------------------------------------------------------------
// The runtime
// ---------------------------------------------------------------------------

/// The interceptors of a gateway: the services that can be called, and their
/// bindings in the order in which they are asked.
#[derive(Debug, Clone, PartialEq, Eq)]
pub struct InterceptorRuntime {
    pub services: Vec<String>,
    pub bindings: Vec<RuntimeBinding>,
    pub max_patch_count: usize,
}

/// The content of a runtime.
#[verifier::ext_equal]
pub struct RuntimeView {
    pub services: Seq<Seq<char>>,
    pub bindings: Seq<PlanView>,
    pub max_patch_count: usize,
}

impl DeepView for InterceptorRuntime {
    type V = RuntimeView;

    open spec fn deep_view(&self) -> RuntimeView {
        RuntimeView {
            services: self.services.deep_view(),
            bindings: self.bindings.deep_view(),
            max_patch_count: self.max_patch_count,
        }
    }
}

/// Where a review stands: it waits for the reply of a binding, or it is done.
#[derive(Debug, Clone, PartialEq, Eq)]
pub enum ReviewProgress {
    Waiting { binding: usize, review: InterceptorReview, state: ReviewState },
    Done(ReviewOutcome),
    Stopped(ReviewError),
}

/// The content of a review's progress.
#[verifier::ext_equal]
pub enum ProgressView {
    Waiting { binding: int, review: ReviewView, state: StateView },
    Done(OutcomeView),
    Stopped(ErrorView),
}

impl DeepView for ReviewProgress {
    type V = ProgressView;

    open spec fn deep_view(&self) -> ProgressView {
        match self {
            ReviewProgress::Waiting { binding, review, state } => ProgressView::Waiting {
                binding: *binding as int,
                review: review.deep_view(),
                state: state.deep_view(),
            },
            ReviewProgress::Done(outcome) => ProgressView::Done(outcome.deep_view()),
            ReviewProgress::Stopped(error) => ProgressView::Stopped(error.deep_view()),
        }
    }
}

/// The first binding from a place on that is bound to an operation.
pub open spec fn next_bound(bindings: Seq<PlanView>, input: InputView, from: int) -> Option<int>
    decreases bindings.len() - from,
{
    if from < 0 || from >= bindings.len() {
        None
    } else if is_bound(bindings[from], input) {
        Some(from)
    } else {
        next_bound(bindings, input, from + 1)
    }
}

/// The error where the service of a binding cannot be called.
pub open spec fn missing_service(plan: PlanView) -> ErrorView {
    ErrorView::Failed(
        status(
            Code::Internal,
            "interceptor '"@ + plan.interceptor_name + "' runtime is missing"@,
        ),
    )
}

/// Where a review stands that asked all bindings before its next one.
pub open spec fn settled(runtime: RuntimeView, input: InputView, state: StateView) -> ProgressView {
    match next_bound(runtime.bindings, input, state.next) {
        None => ProgressView::Done(outcome_of(state)),
        Some(i) => {
            let plan = runtime.bindings[i];
            if !runtime.services.contains(plan.interceptor_name) {
                ProgressView::Stopped(missing_service(plan))
            } else {
                match question(plan, input, state.object) {
                    Err(error) => ProgressView::Stopped(error),
                    Ok(review) => ProgressView::Waiting { binding: i, review, state },
                }
            }
        },
    }
}

/// Where a review stands after the reply that it waited for.
pub open spec fn resumed(
    runtime: RuntimeView,
    input: InputView,
    binding: int,
    state: StateView,
    reply: Result<DecisionView, StatusView>,
) -> ProgressView {
    match replied(runtime.bindings[binding], input, runtime.max_patch_count, state, reply) {
        Err(error) => ProgressView::Stopped(error),
        Ok(next) => settled(runtime, input, StateView { next: binding + 1, ..next }),
    }
}

/// Where a review stands after some replies.
pub open spec fn progress(
    runtime: RuntimeView,
    input: InputView,
    replies: Seq<Result<DecisionView, StatusView>>,
) -> ProgressView
    decreases replies.len(),
{
    if replies.len() == 0 {
        settled(runtime, input, start(input))
    } else {
        match progress(runtime, input, replies.drop_last()) {
            ProgressView::Waiting { binding, review, state } => resumed(
                runtime,
                input,
                binding,
                state,
                replies.last(),
            ),
            other => other,
        }
    }
}

/// The applied changes of a review make its object of the object that was to be
/// reviewed.
pub open spec fn state_replays(input: InputView, state: StateView) -> bool {
    replays(input.object, state.applied_patches, state.object)
}

/// Wherever a review stands, its applied changes make its object of the object that
/// was to be reviewed.
pub open spec fn progress_replays(input: InputView, progress: ProgressView) -> bool {
    match progress {
        ProgressView::Waiting { binding, review, state } => state_replays(input, state),
        ProgressView::Done(outcome) => replays(
            input.object,
            outcome.applied_patches,
            outcome.object,
        ),
        ProgressView::Stopped(error) => true,
    }
}

impl InterceptorRuntime {
    /// A runtime without interceptors.
    pub fn empty() -> (r: InterceptorRuntime)
        ensures
            r.deep_view() == (RuntimeView {
                services: Seq::empty(),
                bindings: Seq::empty(),
                max_patch_count: DEFAULT_MAX_PATCH_COUNT,
            }),
    {
        let r = InterceptorRuntime {
            services: Vec::new(),
            bindings: Vec::new(),
            max_patch_count: DEFAULT_MAX_PATCH_COUNT,
        };
        assert(r.services.deep_view() =~= Seq::empty());
        assert(r.bindings.deep_view() =~= Seq::empty());
        r
    }

    /// Tells whether no binding is planned.
    pub fn is_empty(&self) -> (r: bool)
        ensures
            r == (self.deep_view().bindings.len() == 0),
    {
        self.bindings.len() == 0
    }

    /// The runtime of services and the plans of their bindings.
    pub fn from_plans(services: Vec<String>, plans: Vec<RuntimeBinding>) -> (r: InterceptorRuntime)
        ensures
            r.deep_view() == (RuntimeView {
                services: services.deep_view(),
                bindings: in_order(plans.deep_view()),
                max_patch_count: DEFAULT_MAX_PATCH_COUNT,
            }),
    {
        InterceptorRuntime {
            services,
            bindings: sort_bindings(plans),
            max_patch_count: DEFAULT_MAX_PATCH_COUNT,
        }
    }

    fn find_bound(&self, input: &ReviewInput, from: usize) -> (r: Option<usize>)
        ensures
            match r {
                Some(i) => i < self.bindings.len() && next_bound(
                    self.deep_view().bindings,
                    input.deep_view(),
                    from as int,
                ) == Some(i as int),
                None => next_bound(
                    self.deep_view().bindings,
                    input.deep_view(),
                    from as int,
                ) is None,
            },
    {
        let ghost list = self.deep_view().bindings;
        let ghost request = input.deep_view();
        let mut i: usize = from;
        while i < self.bindings.len()
            invariant
                list == self.deep_view().bindings,
                request == input.deep_view(),
                next_bound(list, request, from as int) == next_bound(list, request, i as int),
            decreases self.bindings.len() - i,
        {
            assert(list[i as int] == self.bindings@[i as int].deep_view());
            if self.bindings[i].matches(input) {
                return Some(i);
            }
            i += 1;
        }
        None
    }

    fn settle(&self, input: &ReviewInput, state: ReviewState) -> (r: ReviewProgress)
        ensures
            r.deep_view() == settled(self.deep_view(), input.deep_view(), state.deep_view()),
    {
        let i: usize = match self.find_bound(input, state.next) {
            Some(i) => i,
            None => {
                return ReviewProgress::Done(
                    ReviewOutcome {
                        object: state.object,
                        applied_patches: state.applied_patches,
                        warnings: state.warnings,
                        audit_annotations: state.audit_annotations,
                    },
                );
            },
        };
        let binding = &self.bindings[i];
        assert(self.deep_view().bindings[i as int] == binding.deep_view());
        if !text::list_contains(&self.services, binding.interceptor_name.as_str()) {
            return ReviewProgress::Stopped(
                ReviewError::Failed(
                    Status::new(
                        Code::Internal,
                        cat3(
                            "interceptor '",
                            binding.interceptor_name.as_str(),
                            "' runtime is missing",
                        ),
                    ),
                ),
            );
        }
        match ask(binding, input, state.object.as_str()) {
            Ok(review) => ReviewProgress::Waiting { binding: i, review, state },
            Err(error) => ReviewProgress::Stopped(error),
        }
    }

    /// Begins the review of an operation.
    pub fn review(&self, input: &ReviewInput) -> (r: ReviewProgress)
        ensures
            r.deep_view() == progress(self.deep_view(), input.deep_view(), Seq::empty()),
            progress_replays(input.deep_view(), r.deep_view()),
    {
        let state = ReviewState {
            next: 0,
            object: input.object.clone(),
            applied_patches: Vec::new(),
            warnings: Vec::new(),
            audit_annotations: Vec::new(),
        };
        proof {
            let expected = start(input.deep_view());
            assert(state.applied_patches.deep_view() =~= expected.applied_patches);
            assert(state.warnings.deep_view() =~= expected.warnings);
            assert(state.audit_annotations.deep_view() =~= expected.audit_annotations);
        }
        self.settle(input, state)
    }

    /// Goes on with a review that waited for the reply of a binding. That replaying
    /// the applied changes gives the reviewed object stays true: the changes of a
    /// binding that failed, or whose changes were refused or could not be applied,
    /// count for neither.
    pub fn resume(
        &self,
        input: &ReviewInput,
        binding: usize,
        state: ReviewState,
        reply: Result<InterceptorDecision, Status>,
    ) -> (r: ReviewProgress)
        requires
            binding < self.bindings.len(),
        ensures
            r.deep_view() == resumed(
                self.deep_view(),
                input.deep_view(),
                binding as int,
                state.deep_view(),
                shown(reply),
            ),
            state_replays(input.deep_view(), state.deep_view()) ==> progress_replays(
                input.deep_view(),
                r.deep_view(),
            ),
    {
        let plan = &self.bindings[binding];
        assert(self.deep_view().bindings[binding as int] == plan.deep_view());
        match take_reply(plan, input, self.max_patch_count, state, reply) {
            Err(error) => ReviewProgress::Stopped(error),
            Ok(next) => {
                let mut next = next;
                next.next = binding + 1;
                self.settle(input, next)
            },
        }
    }
}

// ---------------------------------------------------------------------------
// Laws
// ---------------------------------------------------------------------------

/// A review that nobody is bound to leaves the object as it is, without a call.
pub proof fn law_unbound_operation_passes(runtime: RuntimeView, input: InputView)
    requires
        forall|i: int| 0 <= i < runtime.bindings.len() ==> !is_bound(#[trigger] runtime.bindings[i], input),
    ensures
        progress(runtime, input, Seq::empty()) == ProgressView::Done(outcome_of(start(input))),
{
    lemma_none_bound(runtime.bindings, input, 0);
}

proof fn lemma_none_bound(bindings: Seq<PlanView>, input: InputView, from: int)
    requires
        0 <= from,
        forall|i: int| 0 <= i < bindings.len() ==> !is_bound(#[trigger] bindings[i], input),
    ensures
        next_bound(bindings, input, from) is None,
    decreases bindings.len() - from,
{
    if from < bindings.len() {
        assert(!is_bound(bindings[from], input));
        lemma_none_bound(bindings, input, from + 1);
    }
}

/// Only bindings that are bound to the operation are asked, each at most once and
/// in order: a review waits for a later binding after every reply.
pub proof fn law_bindings_are_asked_in_order(
    runtime: RuntimeView,
    input: InputView,
    binding: int,
    state: StateView,
    reply: Result<DecisionView, StatusView>,
)
    requires
        0 <= binding < runtime.bindings.len(),
    ensures
        resumed(runtime, input, binding, state, reply) matches ProgressView::Waiting {
            binding: next,
            ..
        } ==> binding < next < runtime.bindings.len() && is_bound(runtime.bindings[next], input),
{
    lemma_next_bound(runtime.bindings, input, binding + 1);
}

proof fn lemma_next_bound(bindings: Seq<PlanView>, input: InputView, from: int)
    requires
        0 <= from,
    ensures
        next_bound(bindings, input, from) matches Some(i) ==> from <= i < bindings.len()
            && is_bound(bindings[i], input),
    decreases bindings.len() - from,
{
    if from < bindings.len() {
        lemma_next_bound(bindings, input, from + 1);
    }
}

/// A denial stops the review, whatever the failure policy.
pub proof fn law_denial_stops(
    runtime: RuntimeView,
    input: InputView,
    binding: int,
    state: StateView,
    decision: DecisionView,
)
    requires
        0 <= binding < runtime.bindings.len(),
        !decision.allowed,
    ensures
        resumed(runtime, input, binding, state, Ok(decision)) == ProgressView::Stopped(
            denied(runtime.bindings[binding], input, decision),
        ),
{
}

/// Where modification is not allowed, no reply changes the object.
pub proof fn law_object_changes_only_where_allowed(
    plan: PlanView,
    input: InputView,
    max_patch_count: usize,
    state: StateView,
    reply: Result<DecisionView, StatusView>,
)
    requires
        !input.modification_allowed,
    ensures
        replied(plan, input, max_patch_count, state, reply) matches Ok(next) ==> next.object
            == state.object && next.applied_patches == state.applied_patches,
{
}

/// A reply adds no more patches than the limit, and a failure that is passed over
/// leaves the object as it is.
pub proof fn law_patches_are_bounded(
    plan: PlanView,
    input: InputView,
    max_patch_count: usize,
    state: StateView,
    reply: Result<DecisionView, StatusView>,
)
    ensures
        replied(plan, input, max_patch_count, state, reply) matches Ok(next) ==> {
            &&& next.applied_patches.len() <= state.applied_patches.len() + max_patch_count
            &&& reply is Err ==> next == state
        },
{
}

} // verus!
