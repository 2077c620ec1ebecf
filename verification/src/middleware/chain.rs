//! Running a middleware chain.

use crate::middleware::builtins;
use crate::middleware::builtins::MiddlewareManifest;
use crate::middleware::{
    build_evaluation, evaluation_of, mutation_problem, name_is_appendable, safe_reason, safe_text,
    validate_header_mutations, value_is_safe, ChainEntry, Decision, EntryView, EvaluationView,
    Finding, FindingView, HttpRequestEvaluation, HttpRequestInput, HttpRequestResult, InputView,
    OnError, ResultView, TextMap,
};
use crate::ordered;
use crate::outcome::shown;
use crate::text;
use crate::text::cat2;
use vstd::prelude::*;

verus! {

/// A finding with the name of the entry that reported it.
#[derive(Debug, Clone, PartialEq, Eq)]
pub struct NamespacedFinding {
    pub middleware: String,
    pub finding: Finding,
}

/// The content of a finding with its origin.
pub struct NamespacedView {
    pub middleware: Seq<char>,
    pub finding: FindingView,
}

impl DeepView for NamespacedFinding {
    type V = NamespacedView;

    open spec fn deep_view(&self) -> NamespacedView {
        NamespacedView { middleware: self.middleware@, finding: self.finding.deep_view() }
    }
}

/// The record of one entry's turn.
#[derive(Debug, Clone, PartialEq, Eq)]
pub struct MiddlewareInvocation {
    pub name: String,
    pub implementation: String,
    pub decision: Decision,
    pub transformed: bool,
    /// The middleware could not be evaluated and its error policy was applied.
    /// The decision is then the policy's, not one that the middleware returned.
    pub failed: bool,
}

/// The content of a record.
pub struct InvocationView {
    pub name: Seq<char>,
    pub implementation: Seq<char>,
    pub decision: Decision,
    pub transformed: bool,
    pub failed: bool,
}

impl DeepView for MiddlewareInvocation {
    type V = InvocationView;

    open spec fn deep_view(&self) -> InvocationView {
        InvocationView {
            name: self.name@,
            implementation: self.implementation@,
            decision: self.decision,
            transformed: self.transformed,
            failed: self.failed,
        }
    }
}

/// What a chain came to.
#[derive(Debug, Clone)]
pub struct ChainOutcome {
    pub allowed: bool,
    pub reason: String,
    pub body: Vec<u8>,
    pub added_headers: Vec<(String, String)>,
    pub findings: Vec<NamespacedFinding>,
    pub metadata: Vec<(String, Vec<(String, String)>)>,
    pub applied: Vec<MiddlewareInvocation>,
}

/// The content of an outcome.
#[verifier::ext_equal]
pub struct OutcomeView {
    pub allowed: bool,
    pub reason: Seq<char>,
    pub body: Seq<u8>,
    pub added_headers: TextMap,
    pub findings: Seq<NamespacedView>,
    pub metadata: Seq<(Seq<char>, TextMap)>,
    pub applied: Seq<InvocationView>,
}

impl DeepView for ChainOutcome {
    type V = OutcomeView;

    open spec fn deep_view(&self) -> OutcomeView {
        OutcomeView {
            allowed: self.allowed,
            reason: self.reason@,
            body: self.body@,
            added_headers: self.added_headers.deep_view(),
            findings: self.findings.deep_view(),
            metadata: self.metadata.deep_view(),
            applied: self.applied.deep_view(),
        }
    }
}

/// A request on its way through a chain, with what the entries so far did.
#[derive(Debug)]
pub struct ChainState {
    pub headers: Vec<(String, String)>,
    pub body: Vec<u8>,
    pub added_headers: Vec<(String, String)>,
    pub findings: Vec<NamespacedFinding>,
    pub metadata: Vec<(String, Vec<(String, String)>)>,
    pub applied: Vec<MiddlewareInvocation>,
}

/// The content of a chain's state.
#[verifier::ext_equal]
pub struct StateView {
    pub headers: TextMap,
    pub body: Seq<u8>,
    pub added_headers: TextMap,
    pub findings: Seq<NamespacedView>,
    pub metadata: Seq<(Seq<char>, TextMap)>,
    pub applied: Seq<InvocationView>,
}

impl DeepView for ChainState {
    type V = StateView;

    open spec fn deep_view(&self) -> StateView {
        StateView {
            headers: self.headers.deep_view(),
            body: self.body@,
            added_headers: self.added_headers.deep_view(),
            findings: self.findings.deep_view(),
            metadata: self.metadata.deep_view(),
            applied: self.applied.deep_view(),
        }
    }
}

/// What follows from one entry's turn.
#[derive(Debug)]
pub enum ChainStep {
    Continue(ChainState),
    Stop(ChainOutcome),
}

/// The content of a step.
#[verifier::ext_equal]
pub enum StepView {
    Continue(StateView),
    Stop(OutcomeView),
}

impl DeepView for ChainStep {
    type V = StepView;

    open spec fn deep_view(&self) -> StepView {
        match self {
            ChainStep::Continue(state) => StepView::Continue(state.deep_view()),
            ChainStep::Stop(outcome) => StepView::Stop(outcome.deep_view()),
        }
    }
}

/// What a middleware service answers: a result, or the text of an error.
pub type ReplyView = Result<ResultView, Seq<char>>;

/// A chain before its first entry.
pub open spec fn start(input: InputView) -> StateView {
    StateView {
        headers: input.headers,
        body: input.body,
        added_headers: Seq::empty(),
        findings: Seq::empty(),
        metadata: Seq::empty(),
        applied: Seq::empty(),
    }
}

/// The outcome with a state's content.
pub open spec fn outcome_with(state: StateView, allowed: bool, reason: Seq<char>) -> OutcomeView {
    OutcomeView {
        allowed,
        reason,
        body: state.body,
        added_headers: state.added_headers,
        findings: state.findings,
        metadata: state.metadata,
        applied: state.applied,
    }
}

/// The outcome of a chain that no entry stopped.
pub open spec fn finished(state: StateView) -> OutcomeView {
    outcome_with(state, true, Seq::empty())
}

/// The record of an entry's turn.
pub open spec fn record(
    entry: EntryView,
    decision: Decision,
    transformed: bool,
    failed: bool,
) -> InvocationView {
    InvocationView {
        name: entry.name,
        implementation: entry.implementation,
        decision,
        transformed,
        failed,
    }
}

/// The step of an entry that failed. An entry that fails open is passed over,
/// and the request stays as it is. One that fails closed denies the request.
pub open spec fn failed_step(state: StateView, entry: EntryView, reason: Seq<char>) -> StepView {
    match entry.on_error {
        OnError::FailOpen => StepView::Continue(
            StateView {
                applied: state.applied.push(record(entry, Decision::Allow, false, true)),
                ..state
            },
        ),
        OnError::FailClosed => StepView::Stop(
            outcome_with(
                StateView {
                    applied: state.applied.push(record(entry, Decision::Deny, false, true)),
                    ..state
                },
                false,
                "middleware_failed: "@ + reason,
            ),
        ),
    }
}

/// Headers with their names in lower case.
pub open spec fn lowered(headers: TextMap) -> TextMap {
    Seq::new(headers.len(), |i: int| (text::lower(headers[i].0), headers[i].1))
}

/// Findings with the name of the entry that reported them.
pub open spec fn namespaced(name: Seq<char>, findings: Seq<FindingView>) -> Seq<NamespacedView> {
    Seq::new(
        findings.len(),
        |i: int| NamespacedView { middleware: name, finding: findings[i] },
    )
}

/// The state after an entry's result was applied.
pub open spec fn applied_result(
    state: StateView,
    entry: EntryView,
    result: ResultView,
) -> StateView {
    StateView {
        headers: ordered::put_all(state.headers, lowered(result.add_headers)),
        body: if result.has_body {
            result.body
        } else {
            state.body
        },
        added_headers: ordered::put_all(state.added_headers, lowered(result.add_headers)),
        findings: state.findings + namespaced(entry.name, result.findings),
        metadata: if result.metadata.len() > 0 {
            ordered::put(
                state.metadata,
                entry.name,
                ordered::put_all(TextMap::empty(), result.metadata),
            )
        } else {
            state.metadata
        },
        applied: state.applied.push(record(entry, result.decision, result.has_body, false)),
    }
}

/// The step of an entry. An error, a missing decision and unsafe headers are
/// failures of the entry, and nothing of such an answer is applied.
pub open spec fn step(state: StateView, entry: EntryView, reply: ReplyView) -> StepView {
    match reply {
        Err(error) => failed_step(state, entry, safe_text(error)),
        Ok(result) => if result.decision == Decision::Unspecified {
            failed_step(state, entry, "invalid_response_decision"@)
        } else if mutation_problem(
            state.headers,
            result.add_headers,
            result.add_headers.len(),
        ) is Some {
            failed_step(state, entry, "unsafe_response_headers"@)
        } else {
            let after = applied_result(state, entry, result);
            if result.decision == Decision::Deny {
                StepView::Stop(outcome_with(after, false, safe_text(result.reason)))
            } else {
                StepView::Continue(after)
            }
        },
    }
}

/// Where a chain stands after some replies.
pub open spec fn after(
    entries: Seq<EntryView>,
    input: InputView,
    replies: Seq<ReplyView>,
) -> StepView
    decreases replies.len(),
{
    if replies.len() == 0 {
        StepView::Continue(start(input))
    } else {
        match after(entries, input, replies.drop_last()) {
            StepView::Stop(outcome) => StepView::Stop(outcome),
            StepView::Continue(state) => step(
                state,
                entries[replies.len() - 1],
                replies.last(),
            ),
        }
    }
}

/// The replies end a chain, and this is what it comes to.
pub open spec fn comes_to(
    entries: Seq<EntryView>,
    input: InputView,
    replies: Seq<ReplyView>,
    outcome: OutcomeView,
) -> bool {
    &&& replies.len() <= entries.len()
    &&& match after(entries, input, replies) {
        StepView::Stop(stopped) => outcome == stopped,
        StepView::Continue(state) => replies.len() == entries.len() && outcome == finished(state),
    }
}

/// A service that evaluates requests for the entries of a chain.
pub trait SupervisorMiddleware {
    /// The service may give this reply to this evaluation.
    spec fn answers(&self, evaluation: EvaluationView, reply: ReplyView) -> bool;

    /// What the service offers.
    fn describe(&self) -> MiddlewareManifest;

    /// Evaluates a request, or says why it could not.
    fn evaluate_http_request(&self, evaluation: &HttpRequestEvaluation) -> (r: Result<
        HttpRequestResult,
        String,
    >)
        ensures
            self.answers(evaluation.deep_view(), shown(r)),
    ;
}

/// Every reply is one that the service may give to the evaluation that the entry
/// is asked for, and no entry is asked after the chain stopped.
pub open spec fn answered<S: SupervisorMiddleware>(
    service: S,
    entries: Seq<EntryView>,
    input: InputView,
    replies: Seq<ReplyView>,
) -> bool
    decreases replies.len(),
{
    replies.len() == 0 || {
        &&& answered(service, entries, input, replies.drop_last())
        &&& match after(entries, input, replies.drop_last()) {
            StepView::Stop(outcome) => false,
            StepView::Continue(state) => service.answers(
                evaluation_of(
                    entries[replies.len() - 1],
                    input,
                    state.headers,
                    state.body,
                ),
                replies.last(),
            ),
        }
    }
}

impl ChainState {
    /// A chain before its first entry.
    pub fn new(input: &HttpRequestInput) -> (r: ChainState)
        ensures
            r.deep_view() == start(input.deep_view()),
    {
        let body = input.body.clone();
        let mut headers: Vec<(String, String)> = Vec::new();
        let mut i: usize = 0;
        while i < input.headers.len()
            invariant
                i <= input.headers.len(),
                headers.len() == i,
                forall|j: int|
                    0 <= j < i ==> #[trigger] headers.deep_view()[j]
                        == input.headers@[j].deep_view(),
            decreases input.headers.len() - i,
        {
            let ghost before = headers.deep_view();
            headers.push((input.headers[i].0.clone(), input.headers[i].1.clone()));
            proof {
                assert forall|j: int| 0 <= j < i + 1 implies #[trigger] headers.deep_view()[j]
                    == input.headers@[j].deep_view() by {
                    if j < i {
                        assert(headers.deep_view()[j] == before[j]);
                    }
                }
            }
            i += 1;
        }
        let r = ChainState {
            headers,
            body,
            added_headers: Vec::new(),
            findings: Vec::new(),
            metadata: Vec::new(),
            applied: Vec::new(),
        };
        proof {
            let expected = start(input.deep_view());
            assert(r.headers.deep_view() =~= expected.headers);
            assert(r.body@ =~= expected.body);
            assert(r.added_headers.deep_view() =~= expected.added_headers);
            assert(r.findings.deep_view() =~= expected.findings);
            assert(r.metadata.deep_view() =~= expected.metadata);
            assert(r.applied.deep_view() =~= expected.applied);
        }
        r
    }

    fn into_outcome(self, allowed: bool, reason: String) -> (r: ChainOutcome)
        ensures
            r.deep_view() == outcome_with(self.deep_view(), allowed, reason@),
    {
        ChainOutcome {
            allowed,
            reason,
            body: self.body,
            added_headers: self.added_headers,
            findings: self.findings,
            metadata: self.metadata,
            applied: self.applied,
        }
    }

    /// The outcome of a chain that no entry stopped.
    pub fn finish(self) -> (r: ChainOutcome)
        ensures
            r.deep_view() == finished(self.deep_view()),
    {
        let reason = String::new();
        assert(reason@ =~= Seq::empty());
        self.into_outcome(true, reason)
    }

    fn push_record(
        &mut self,
        entry: &ChainEntry,
        decision: Decision,
        transformed: bool,
        failed: bool,
    )
        ensures
            final(self).deep_view() == (StateView {
                applied: old(self).deep_view().applied.push(
                    record(entry.deep_view(), decision, transformed, failed),
                ),
                ..old(self).deep_view()
            }),
    {
        let ghost before = self.applied.deep_view();
        self.applied.push(
            MiddlewareInvocation {
                name: entry.name.clone(),
                implementation: entry.implementation.clone(),
                decision,
                transformed,
                failed,
            },
        );
        proof {
            assert(self.applied.deep_view() =~= before.push(
                record(entry.deep_view(), decision, transformed, failed),
            ));
        }
    }

    /// Applies an entry's error policy, and records the failure.
    fn apply_on_error(self, entry: &ChainEntry, reason: &str) -> (r: ChainStep)
        ensures
            r.deep_view() == failed_step(self.deep_view(), entry.deep_view(), reason@),
    {
        let mut state = self;
        match entry.on_error {
            OnError::FailOpen => {
                state.push_record(entry, Decision::Allow, false, true);
                ChainStep::Continue(state)
            },
            OnError::FailClosed => {
                state.push_record(entry, Decision::Deny, false, true);
                ChainStep::Stop(state.into_outcome(false, cat2("middleware_failed: ", reason)))
            },
        }
    }

    /// The evaluation that an entry is to be asked for now.
    pub fn evaluation(&self, entry: &ChainEntry, input: &HttpRequestInput) -> (r:
        HttpRequestEvaluation)
        ensures
            r.deep_view() == evaluation_of(
                entry.deep_view(),
                input.deep_view(),
                self.deep_view().headers,
                self.deep_view().body,
            ),
    {
        build_evaluation(entry, input, &self.headers, &self.body)
    }

    /// The step of an entry, from the service's reply to its evaluation.
    pub fn advance(self, entry: &ChainEntry, reply: Result<HttpRequestResult, String>) -> (r:
        ChainStep)
        ensures
            r.deep_view() == step(self.deep_view(), entry.deep_view(), shown(reply)),
    {
        let result = match reply {
            Ok(result) => result,
            Err(error) => {
                let reason = safe_reason(error.as_str());
                return self.apply_on_error(entry, reason.as_str());
            },
        };
        if result.decision == Decision::Unspecified {
            return self.apply_on_error(entry, "invalid_response_decision");
        }
        if validate_header_mutations(&self.headers, &result.add_headers).is_err() {
            return self.apply_on_error(entry, "unsafe_response_headers");
        }
        let ghost before = self.deep_view();
        let ghost shown_entry = entry.deep_view();
        let ghost shown_result = result.deep_view();
        let mut state = self;
        let names = lower_names(&result.add_headers);
        ordered::insert_all(&mut state.headers, &names);
        ordered::insert_all(&mut state.added_headers, &names);
        let transformed = result.has_body;
        if result.has_body {
            state.body = result.body;
        }
        append_findings(&mut state.findings, entry.name.as_str(), result.findings);
        if result.metadata.len() > 0 {
            let mut bucket: Vec<(String, String)> = Vec::new();
            proof {
                assert(bucket.deep_view() =~= TextMap::empty());
            }
            ordered::insert_all(&mut bucket, &result.metadata);
            ordered::insert(&mut state.metadata, entry.name.clone(), bucket);
        }
        state.push_record(entry, result.decision, transformed, false);
        proof {
            assert(state.deep_view() =~= applied_result(before, shown_entry, shown_result));
        }
        if result.decision == Decision::Deny {
            let reason = safe_reason(result.reason.as_str());
            return ChainStep::Stop(state.into_outcome(false, reason));
        }
        ChainStep::Continue(state)
    }
}

fn lower_names(headers: &Vec<(String, String)>) -> (r: Vec<(String, String)>)
    ensures
        r.deep_view() == lowered(headers.deep_view()),
{
    let ghost list = headers.deep_view();
    let mut out: Vec<(String, String)> = Vec::new();
    let mut i: usize = 0;
    while i < headers.len()
        invariant
            i <= headers.len(),
            out.len() == i,
            list == headers.deep_view(),
            forall|j: int| 0 <= j < i ==> #[trigger] out.deep_view()[j] == lowered(list)[j],
        decreases headers.len() - i,
    {
        let ghost before = out.deep_view();
        assert(list[i as int] == headers@[i as int].deep_view());
        out.push((text::to_lower(headers[i].0.as_str()), headers[i].1.clone()));
        proof {
            assert forall|j: int| 0 <= j < i + 1 implies #[trigger] out.deep_view()[j] == lowered(
                list,
            )[j] by {
                if j < i {
                    assert(out.deep_view()[j] == before[j]);
                }
            }
        }
        i += 1;
    }
    assert(out.deep_view() =~= lowered(list));
    out
}

fn copy_finding(finding: &Finding) -> (r: Finding)
    ensures
        r.deep_view() == finding.deep_view(),
{
    Finding {
        finding_type: finding.finding_type.clone(),
        label: finding.label.clone(),
        count: finding.count,
        confidence: finding.confidence.clone(),
        severity: finding.severity.clone(),
    }
}

fn append_findings(findings: &mut Vec<NamespacedFinding>, name: &str, found: Vec<Finding>)
    ensures
        final(findings).deep_view() == old(findings).deep_view() + namespaced(
            name@,
            found.deep_view(),
        ),
{
    let ghost before = findings.deep_view();
    let ghost list = found.deep_view();
    let mut i: usize = 0;
    proof {
        assert(before + namespaced(name@, list).take(0) =~= before);
    }
    while i < found.len()
        invariant
            i <= found.len(),
            list == found.deep_view(),
            findings.deep_view() == before + namespaced(name@, list).take(i as int),
        decreases found.len() - i,
    {
        let ghost so_far = findings.deep_view();
        assert(list[i as int] == found@[i as int].deep_view());
        findings.push(
            NamespacedFinding { middleware: name.to_owned(), finding: copy_finding(&found[i]) },
        );
        proof {
            assert(findings.deep_view() =~= so_far.push(namespaced(name@, list)[i as int]));
            assert(so_far.push(namespaced(name@, list)[i as int]) =~= before + namespaced(
                name@,
                list,
            ).take(i + 1));
        }
        i += 1;
    }
    assert(namespaced(name@, list).take(i as int) =~= namespaced(name@, list));
}

/// The service of the middlewares that are built into the supervisor.
#[derive(Debug, Clone, Copy, PartialEq, Eq)]
pub struct InProcessMiddlewareService;

impl SupervisorMiddleware for InProcessMiddlewareService {
    open spec fn answers(&self, evaluation: EvaluationView, reply: ReplyView) -> bool {
        reply == builtins::evaluated(evaluation)
    }

    fn describe(&self) -> (r: MiddlewareManifest)
        ensures
            r.api_version@ == crate::middleware::API_VERSION@,
            r.bindings.deep_view() == builtins::builtin_bindings(),
    {
        builtins::manifest()
    }

    fn evaluate_http_request(&self, evaluation: &HttpRequestEvaluation) -> (r: Result<
        HttpRequestResult,
        String,
    >) {
        builtins::evaluate_http_request(evaluation)
    }
}

/// Runs chains with a service.
#[derive(Debug, Clone)]
pub struct ChainRunner<S> {
    service: S,
}

impl Default for ChainRunner<InProcessMiddlewareService> {
    /// A runner with the built-in middlewares.
    fn default() -> (r: ChainRunner<InProcessMiddlewareService>)
        ensures
            r.service() == InProcessMiddlewareService,
    {
        ChainRunner { service: InProcessMiddlewareService }
    }
}

impl<S> ChainRunner<S> {
    /// The service that the runner asks.
    pub closed spec fn service(&self) -> S {
        self.service
    }

    /// A runner with a service.
    pub fn new(service: S) -> (r: ChainRunner<S>)
        ensures
            r.service() == service,
    {
        ChainRunner { service }
    }
}

impl<S: SupervisorMiddleware> ChainRunner<S> {
    /// Runs a chain on a request: each entry is asked in turn, until one stops
    /// the chain.
    pub fn evaluate(&self, entries: &Vec<ChainEntry>, input: HttpRequestInput) -> (r: ChainOutcome)
        ensures
            exists|replies: Seq<ReplyView>|
                #[trigger] answered(
                    self.service(),
                    entries.deep_view(),
                    input.deep_view(),
                    replies,
                ) && comes_to(entries.deep_view(), input.deep_view(), replies, r.deep_view()),
    {
        let ghost list = entries.deep_view();
        let ghost request = input.deep_view();
        let mut state = ChainState::new(&input);
        let ghost mut replies: Seq<ReplyView> = Seq::empty();
        let mut i: usize = 0;
        while i < entries.len()
            invariant
                i <= entries.len(),
                list == entries.deep_view(),
                request == input.deep_view(),
                replies.len() == i,
                answered(self.service(), list, request, replies),
                after(list, request, replies) == StepView::Continue(state.deep_view()),
            decreases entries.len() - i,
        {
            let entry = &entries[i];
            assert(list[i as int] == entry.deep_view());
            let evaluation = state.evaluation(entry, &input);
            let reply = self.service.evaluate_http_request(&evaluation);
            proof {
                let more = replies.push(shown(reply));
                assert(more.drop_last() =~= replies);
                assert(more.last() == shown(reply));
                assert(answered(self.service(), list, request, more));
                replies = more;
            }
            match state.advance(entry, reply) {
                ChainStep::Stop(outcome) => {
                    assert(comes_to(list, request, replies, outcome.deep_view()));
                    return outcome;
                },
                ChainStep::Continue(next) => {
                    state = next;
                },
            }
            i += 1;
        }
        let outcome = state.finish();
        assert(comes_to(list, request, replies, outcome.deep_view()));
        outcome
    }
}

// ---------------------------------------------------------------------------
// Laws
// ---------------------------------------------------------------------------

/// An entry that fails open leaves the request, the headers and the findings as
/// they were.
pub proof fn law_fail_open_changes_nothing(state: StateView, entry: EntryView, reason: Seq<char>)
    requires
        entry.on_error == OnError::FailOpen,
    ensures
        failed_step(state, entry, reason) matches StepView::Continue(next) && next.headers
            == state.headers && next.body == state.body && next.added_headers
            == state.added_headers && next.findings == state.findings && next.metadata
            == state.metadata,
{
}

/// A chain is allowed exactly where no entry stopped it, and a chain that is
/// stopped ends with the record of the entry that denied the request.
pub proof fn law_only_a_denial_stops(
    entries: Seq<EntryView>,
    input: InputView,
    replies: Seq<ReplyView>,
)
    requires
        replies.len() <= entries.len(),
    ensures
        after(entries, input, replies) matches StepView::Stop(outcome) ==> !outcome.allowed
            && outcome.applied.len() > 0 && outcome.applied.last().decision == Decision::Deny,
    decreases replies.len(),
{
    if replies.len() > 0 {
        law_only_a_denial_stops(entries, input, replies.drop_last());
    }
}

/// Every header of a map may be appended by a middleware.
pub open spec fn all_appendable(headers: TextMap) -> bool {
    forall|i: int|
        0 <= i < headers.len() ==> name_is_appendable((#[trigger] headers[i]).0) && value_is_safe(
            headers[i].1,
        )
}

/// Whatever the services reply, every header that a chain adds has a name that a
/// middleware may append and a value without control characters.
pub proof fn law_added_headers_are_safe(
    entries: Seq<EntryView>,
    input: InputView,
    replies: Seq<ReplyView>,
)
    requires
        replies.len() <= entries.len(),
    ensures
        match after(entries, input, replies) {
            StepView::Continue(state) => all_appendable(state.added_headers),
            StepView::Stop(outcome) => all_appendable(outcome.added_headers),
        },
    decreases replies.len(),
{
    if replies.len() > 0 {
        let before = replies.drop_last();
        law_added_headers_are_safe(entries, input, before);
        match after(entries, input, before) {
            StepView::Continue(state) => {
                match replies.last() {
                    Ok(result) => {
                        if mutation_problem(
                            state.headers,
                            result.add_headers,
                            result.add_headers.len(),
                        ) is None {
                            let more = lowered(result.add_headers);
                            assert forall|i: int| 0 <= i < more.len() implies name_is_appendable(
                                (#[trigger] more[i]).0,
                            ) && value_is_safe(more[i].1) by {
                                lemma_mutation_is_safe(
                                    state.headers,
                                    result.add_headers,
                                    result.add_headers.len(),
                                    i,
                                );
                            }
                            lemma_put_all_appendable(state.added_headers, more);
                        }
                    },
                    Err(_) => {},
                }
            },
            StepView::Stop(_) => {},
        }
    }
}

proof fn lemma_mutation_is_safe(existing: TextMap, mutations: TextMap, n: nat, i: int)
    requires
        0 <= i < n <= mutations.len(),
        mutation_problem(existing, mutations, n) is None,
    ensures
        name_is_appendable(text::lower(mutations[i].0)),
        value_is_safe(mutations[i].1),
        ordered::lookup(existing, text::lower(mutations[i].0)) is None,
    decreases n,
{
    if i < n - 1 {
        lemma_mutation_is_safe(existing, mutations, (n - 1) as nat, i);
    }
}

proof fn lemma_put_appendable(map: TextMap, key: Seq<char>, value: Seq<char>)
    requires
        all_appendable(map),
        name_is_appendable(key),
        value_is_safe(value),
    ensures
        all_appendable(ordered::put(map, key, value)),
    decreases map.len(),
{
    let out = ordered::put(map, key, value);
    if map.len() > 0 {
        let rest = map.skip(1);
        assert(all_appendable(rest)) by {
            assert forall|i: int| 0 <= i < rest.len() implies name_is_appendable(
                (#[trigger] rest[i]).0,
            ) && value_is_safe(rest[i].1) by {
                assert(rest[i] == map[i + 1]);
            }
        }
        lemma_put_appendable(rest, key, value);
        assert(name_is_appendable(map[0].0) && value_is_safe(map[0].1));
        if key == map[0].0 {
            assert forall|i: int| 0 <= i < out.len() implies name_is_appendable(
                (#[trigger] out[i]).0,
            ) && value_is_safe(out[i].1) by {
                if i > 0 {
                    assert(out[i] == rest[i - 1]);
                }
            }
        } else if text::less(key, map[0].0) {
            assert forall|i: int| 0 <= i < out.len() implies name_is_appendable(
                (#[trigger] out[i]).0,
            ) && value_is_safe(out[i].1) by {
                if i > 0 {
                    assert(out[i] == map[i - 1]);
                }
            }
        } else {
            let tail = ordered::put(rest, key, value);
            assert forall|i: int| 0 <= i < out.len() implies name_is_appendable(
                (#[trigger] out[i]).0,
            ) && value_is_safe(out[i].1) by {
                if i > 0 {
                    assert(out[i] == tail[i - 1]);
                } else {
                    assert(out[i] == map[0]);
                }
            }
        }
    }
}

proof fn lemma_put_all_appendable(map: TextMap, entries: TextMap)
    requires
        all_appendable(map),
        all_appendable(entries),
    ensures
        all_appendable(ordered::put_all(map, entries)),
    decreases entries.len(),
{
    if entries.len() > 0 {
        let before = entries.drop_last();
        assert forall|i: int| 0 <= i < before.len() implies name_is_appendable(
            (#[trigger] before[i]).0,
        ) && value_is_safe(before[i].1) by {
            assert(before[i] == entries[i]);
        }
        lemma_put_all_appendable(map, before);
        assert(entries.last() == entries[entries.len() - 1]);
        lemma_put_appendable(
            ordered::put_all(map, before),
            entries.last().0,
            entries.last().1,
        );
    }
}

/// Whatever the services reply, no entry rewrites a header of the request.
pub proof fn law_request_headers_are_kept(
    entries: Seq<EntryView>,
    input: InputView,
    replies: Seq<ReplyView>,
    name: Seq<char>,
)
    requires
        replies.len() <= entries.len(),
        ordered::is_map(input.headers),
        ordered::lookup(input.headers, name) is Some,
    ensures
        after(entries, input, replies) matches StepView::Continue(state) ==> ordered::is_map(
            state.headers,
        ) && ordered::lookup(state.headers, name) == ordered::lookup(input.headers, name),
    decreases replies.len(),
{
    if replies.len() > 0 {
        let before = replies.drop_last();
        law_request_headers_are_kept(entries, input, before, name);
        match after(entries, input, before) {
            StepView::Continue(state) => {
                match replies.last() {
                    Ok(result) => {
                        if mutation_problem(
                            state.headers,
                            result.add_headers,
                            result.add_headers.len(),
                        ) is None {
                            let more = lowered(result.add_headers);
                            assert forall|i: int| 0 <= i < more.len() implies (#[trigger] more[i]).0
                                != name by {
                                lemma_mutation_is_safe(
                                    state.headers,
                                    result.add_headers,
                                    result.add_headers.len(),
                                    i,
                                );
                            }
                            lemma_put_all_keeps(state.headers, more, name);
                        }
                    },
                    Err(_) => {},
                }
            },
            StepView::Stop(_) => {},
        }
    }
}

proof fn lemma_put_all_keeps(map: TextMap, entries: TextMap, name: Seq<char>)
    requires
        ordered::is_map(map),
        forall|i: int| 0 <= i < entries.len() ==> (#[trigger] entries[i]).0 != name,
    ensures
        ordered::is_map(ordered::put_all(map, entries)),
        ordered::lookup(ordered::put_all(map, entries), name) == ordered::lookup(map, name),
    decreases entries.len(),
{
    if entries.len() > 0 {
        let before = entries.drop_last();
        assert forall|i: int| 0 <= i < before.len() implies (#[trigger] before[i]).0 != name by {
            assert(before[i] == entries[i]);
        }
        lemma_put_all_keeps(map, before, name);
        assert(entries.last() == entries[entries.len() - 1]);
        let so_far = ordered::put_all(map, before);
        ordered::law_put_map(so_far, entries.last().0, entries.last().1);
        ordered::law_put_lookup(so_far, entries.last().0, entries.last().1, name);
    }
}

} // verus!
