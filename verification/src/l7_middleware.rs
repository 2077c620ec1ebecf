//! Applying the middleware chain to a request that the supervisor relays.

pub mod laws;

use crate::digest;
use crate::middleware::chain::{
    ChainOutcome, InvocationView, MiddlewareInvocation, NamespacedFinding, NamespacedView,
    OutcomeView,
};
use crate::middleware::{Decision, HttpRequestInput, InputView, OnError, TextMap};
use crate::ordered;
use crate::outcome::shown;
use crate::text;
use crate::text::{cat3, cat4, cat6};
use vstd::prelude::*;
use vstd::utf8::{decode_utf8, valid_utf8};

verus! {

// ---------------------------------------------------------------------------
// Plans and results
// ---------------------------------------------------------------------------

/// What becomes of a request.
#[derive(Debug)]
pub enum MiddlewareApplyResult<R> {
    Allowed(R),
    Denied(String),
}

/// An entry of a chain once its binding was looked up. The limit of an entry that
/// did not resolve says nothing.
#[derive(Debug, Clone, Copy, PartialEq, Eq)]
pub struct DescribedChainEntry {
    pub resolved: bool,
    pub max_body_bytes: usize,
    pub on_error: OnError,
}

/// The least limit of the entries that resolved.
pub open spec fn body_limit(chain: Seq<DescribedChainEntry>) -> Option<usize>
    decreases chain.len(),
{
    if chain.len() == 0 {
        None
    } else {
        let before = body_limit(chain.drop_last());
        let entry = chain.last();
        if !entry.resolved {
            before
        } else {
            match before {
                Some(limit) if limit <= entry.max_body_bytes => Some(limit),
                _ => Some(entry.max_body_bytes),
            }
        }
    }
}

/// The least body limit across the entries that resolved to a registered binding.
/// Entries that did not resolve are handled by their error policy without looking
/// at the body, so they do not count. There is no limit where none resolved: the
/// body need not be buffered then.
pub fn middleware_chain_body_limit(chain: &[DescribedChainEntry]) -> (r: Option<usize>)
    ensures
        r == body_limit(chain@),
{
    let mut limit: Option<usize> = None;
    let mut i: usize = 0;
    proof {
        assert(chain@.take(0) =~= Seq::empty());
    }
    while i < chain.len()
        invariant
            i <= chain@.len(),
            limit == body_limit(chain@.take(i as int)),
        decreases chain@.len() - i,
    {
        proof {
            assert(chain@.take(i + 1).drop_last() =~= chain@.take(i as int));
            assert(chain@.take(i + 1).last() == chain@[i as int]);
        }
        if chain[i].resolved {
            limit = match limit {
                Some(least) => if least <= chain[i].max_body_bytes {
                    Some(least)
                } else {
                    Some(chain[i].max_body_bytes)
                },
                None => Some(chain[i].max_body_bytes),
            };
        }
        i += 1;
    }
    proof {
        assert(chain@.take(i as int) =~= chain@);
    }
    limit
}

/// The limit is one of a resolved entry, and none of them is lower. There is one
/// exactly where an entry resolved.
pub proof fn law_body_limit_is_least(chain: Seq<DescribedChainEntry>, i: int)
    requires
        0 <= i < chain.len(),
        chain[i].resolved,
    ensures
        body_limit(chain) matches Some(limit) && limit <= chain[i].max_body_bytes && (exists|k: int|
            0 <= k < chain.len() && (#[trigger] chain[k]).resolved && chain[k].max_body_bytes
                == limit),
    decreases chain.len(),
{
    let before = chain.drop_last();
    let last = chain.len() - 1;
    assert(chain.last() == chain[last]);
    if i < last {
        assert(before[i] == chain[i]);
        law_body_limit_is_least(before, i);
        let limit = body_limit(before)->0;
        let k = choose|k: int|
            0 <= k < before.len() && (#[trigger] before[k]).resolved && before[k].max_body_bytes
                == limit;
        assert(chain[k] == before[k]);
    } else if body_limit(before) is Some {
        lemma_limit_comes_from_entry(before);
        let limit = body_limit(before)->0;
        let k = choose|k: int|
            0 <= k < before.len() && (#[trigger] before[k]).resolved && before[k].max_body_bytes
                == limit;
        assert(chain[k] == before[k]);
    }
}

proof fn lemma_limit_comes_from_entry(chain: Seq<DescribedChainEntry>)
    requires
        body_limit(chain) is Some,
    ensures
        exists|k: int|
            0 <= k < chain.len() && (#[trigger] chain[k]).resolved && chain[k].max_body_bytes
                == body_limit(chain)->0,
    decreases chain.len(),
{
    let before = chain.drop_last();
    let last = chain.len() - 1;
    assert(chain.last() == chain[last]);
    if body_limit(chain) == body_limit(before) {
        lemma_limit_comes_from_entry(before);
        let k = choose|k: int|
            0 <= k < before.len() && (#[trigger] before[k]).resolved && before[k].max_body_bytes
                == body_limit(before)->0;
        assert(chain[k] == before[k]);
    }
}

/// How a request is taken through a chain.
#[derive(Debug, Clone, Copy, PartialEq, Eq, Structural)]
pub enum ChainPlan {
    /// There is no chain: the request is forwarded as it is.
    Forward,
    /// No entry looks at the body: the chain runs without it, and the original
    /// request is forwarded where the chain allows it.
    EvaluateWithoutBody,
    /// The body is buffered, up to this many bytes.
    Buffer(usize),
}

/// How a request is taken through a chain.
pub open spec fn plan_of(chain: Seq<DescribedChainEntry>) -> ChainPlan {
    if chain.len() == 0 {
        ChainPlan::Forward
    } else {
        match body_limit(chain) {
            None => ChainPlan::EvaluateWithoutBody,
            Some(limit) => ChainPlan::Buffer(limit),
        }
    }
}

/// How a request is taken through a chain.
pub fn plan_chain(chain: &[DescribedChainEntry]) -> (r: ChainPlan)
    ensures
        r == plan_of(chain@),
{
    if chain.len() == 0 {
        return ChainPlan::Forward;
    }
    match middleware_chain_body_limit(chain) {
        None => ChainPlan::EvaluateWithoutBody,
        Some(limit) => ChainPlan::Buffer(limit),
    }
}

/// What becomes of a request after its chain: what is to be forwarded, where the
/// outcome allows it.
pub fn apply_outcome<R>(outcome: &ChainOutcome, forwarded: R) -> (r: MiddlewareApplyResult<R>)
    ensures
        match r {
            MiddlewareApplyResult::Allowed(request) => outcome.allowed && request == forwarded,
            MiddlewareApplyResult::Denied(reason) => !outcome.allowed && reason@
                == outcome.reason@,
        },
{
    if outcome.allowed {
        MiddlewareApplyResult::Allowed(forwarded)
    } else {
        MiddlewareApplyResult::Denied(outcome.reason.clone())
    }
}

// ---------------------------------------------------------------------------
// Reading a request
// ---------------------------------------------------------------------------

/// Where a request comes from and goes to.
#[derive(Debug, Clone, PartialEq, Eq)]
pub struct L7EvalContext {
    pub host: String,
    pub port: u16,
    pub policy_name: String,
    pub binary_path: String,
    pub ancestors: Vec<String>,
    pub cmdline_paths: Vec<String>,
}

/// The method and the target of a request.
#[derive(Debug, Clone, PartialEq, Eq)]
pub struct L7Request {
    pub action: String,
    pub target: String,
}

/// The input of a chain for a request.
pub open spec fn input_of(
    request_id: Seq<char>,
    sandbox_id: Seq<char>,
    scheme: Seq<char>,
    request: L7Request,
    context: L7EvalContext,
    headers: TextMap,
    query: Seq<char>,
    body: Seq<u8>,
) -> InputView {
    InputView {
        request_id,
        sandbox_id,
        scheme,
        host: context.host@,
        port: context.port,
        method: request.action@,
        path: request.target@,
        query,
        headers,
        body,
    }
}

/// The input of a chain for a request. The identity of the request is chosen by
/// the caller.
pub fn middleware_request_input(
    request_id: &str,
    sandbox_id: &str,
    scheme: &str,
    request: &L7Request,
    context: &L7EvalContext,
    headers: Vec<(String, String)>,
    query: String,
    body: Vec<u8>,
) -> (r: HttpRequestInput)
    ensures
        r.deep_view() == input_of(
            request_id@,
            sandbox_id@,
            scheme@,
            *request,
            *context,
            headers.deep_view(),
            query@,
            body@,
        ),
{
    HttpRequestInput {
        request_id: request_id.to_owned(),
        sandbox_id: sandbox_id.to_owned(),
        scheme: scheme.to_owned(),
        host: context.host.clone(),
        port: context.port,
        method: request.action.clone(),
        path: request.target.clone(),
        query,
        headers,
        body,
    }
}

/// The target of a request: the second word of its first line.
pub open spec fn target_of(headers: Seq<char>) -> Option<Seq<char>> {
    let lines = text::lines(headers);
    if lines.len() > 0 && text::words(lines[0]).len() > 1 {
        Some(text::words(lines[0])[1])
    } else {
        None
    }
}

/// The query of a request, as it was sent: what follows the first question mark
/// of its target.
pub open spec fn raw_query(headers: Seq<u8>) -> Result<Seq<char>, Seq<char>> {
    if !valid_utf8(headers) {
        Err("HTTP headers contain invalid UTF-8"@)
    } else {
        match target_of(decode_utf8(headers)) {
            None => Err("HTTP request line is missing a target"@),
            Some(target) => match text::split_once(target, '?') {
                Some((_, query)) => Ok(query),
                None => Ok(Seq::empty()),
            },
        }
    }
}

fn header_text(headers: &Vec<u8>) -> (r: Option<String>)
    ensures
        r is Some <==> valid_utf8(headers@),
        r matches Some(content) ==> content@ == decode_utf8(headers@),
{
    match digest::utf8_text(headers) {
        Some(content) => {
            proof {
                vstd::utf8::encode_utf8_decode_utf8(content@);
            }
            Some(content)
        },
        None => None,
    }
}

/// The query of a request, as it was sent.
pub fn raw_query_from_request_headers(headers: &Vec<u8>) -> (r: Result<String, String>)
    ensures
        shown(r) == raw_query(headers@),
{
    let content = match header_text(headers) {
        Some(content) => content,
        None => {
            return Err("HTTP headers contain invalid UTF-8".to_owned());
        },
    };
    let lines = text::lines_of(content.as_str());
    let ghost all = text::lines(content@);
    if lines.len() == 0 {
        return Err("HTTP request line is missing a target".to_owned());
    }
    assert(all[0] == lines@[0]@);
    let words = text::words_of(lines[0].as_str());
    if words.len() < 2 {
        return Err("HTTP request line is missing a target".to_owned());
    }
    assert(text::words(all[0])[1] == words@[1]@);
    match text::cut(words[1].as_str(), '?') {
        Some((_, query)) => Ok(query.to_owned()),
        None => {
            let empty = String::new();
            assert(empty@ =~= Seq::empty());
            Ok(empty)
        },
    }
}

/// A header that a middleware must not see: one that carries a credential or
/// frames the message.
pub open spec fn is_withheld(name: Seq<char>) -> bool {
    ||| name.len() == 0
    ||| name == "authorization"@
    ||| name == "cookie"@
    ||| name == "host"@
    ||| name == "content-length"@
    ||| name == "transfer-encoding"@
    ||| text::starts_with(name, "x-amz-"@)
    ||| text::starts_with(name, "x-openshell-credential"@)
}

/// The headers with the one of a line added, if a middleware may see it.
pub open spec fn with_line(headers: TextMap, line: Seq<char>) -> TextMap {
    match text::split_once(line, ':') {
        None => headers,
        Some((name, value)) => {
            let lower = text::lower(text::trimmed(name));
            if is_withheld(lower) {
                headers
            } else {
                ordered::put(headers, lower, text::trimmed(value))
            }
        },
    }
}

/// The headers of the lines after the first, up to the `n`th.
pub open spec fn headers_until(lines: Seq<Seq<char>>, n: nat) -> TextMap
    decreases n,
{
    if n <= 1 || n > lines.len() {
        Seq::empty()
    } else {
        with_line(headers_until(lines, (n - 1) as nat), lines[n - 1])
    }
}

/// The headers that a middleware may see.
pub open spec fn safe_headers(headers: Seq<u8>) -> Result<TextMap, Seq<char>> {
    if !valid_utf8(headers) {
        Err("HTTP headers contain invalid UTF-8"@)
    } else {
        let lines = text::lines(decode_utf8(headers));
        Ok(headers_until(lines, lines.len()))
    }
}

fn withheld(name: &str) -> (r: bool)
    ensures
        r == is_withheld(name@),
{
    name.is_empty() || text::same(name, "authorization") || text::same(name, "cookie")
        || text::same(name, "host") || text::same(name, "content-length") || text::same(
        name,
        "transfer-encoding",
    ) || text::has_prefix(name, "x-amz-") || text::has_prefix(name, "x-openshell-credential")
}

fn add_line(headers: &mut Vec<(String, String)>, line: &str)
    ensures
        final(headers).deep_view() == with_line(old(headers).deep_view(), line@),
{
    if let Some((name, value)) = text::cut(line, ':') {
        let lower = text::to_lower(text::trim(name));
        if !withheld(lower.as_str()) {
            ordered::insert(headers, lower, text::trim(value).to_owned());
        }
    }
}

/// The headers that a middleware may see.
pub fn safe_middleware_headers(headers: &Vec<u8>) -> (r: Result<Vec<(String, String)>, String>)
    ensures
        shown(r) == safe_headers(headers@),
{
    let content = match header_text(headers) {
        Some(content) => content,
        None => {
            return Err("HTTP headers contain invalid UTF-8".to_owned());
        },
    };
    let lines = text::lines_of(content.as_str());
    let ghost all = text::lines(content@);
    let mut out: Vec<(String, String)> = Vec::new();
    proof {
        assert(out.deep_view() =~= TextMap::empty());
    }
    if lines.len() == 0 {
        return Ok(out);
    }
    let mut i: usize = 1;
    while i < lines.len()
        invariant
            1 <= i <= lines.len(),
            lines.deep_view() == all,
            out.deep_view() == headers_until(all, i as nat),
        decreases lines.len() - i,
    {
        assert(all[i as int] == lines@[i as int]@);
        add_line(&mut out, lines[i].as_str());
        i += 1;
    }
    Ok(out)
}

/// No header that a middleware must not see is handed to one.
pub proof fn law_withheld_headers_are_not_seen(lines: Seq<Seq<char>>, n: nat, i: int)
    requires
        0 <= i < headers_until(lines, n).len(),
    ensures
        !is_withheld(headers_until(lines, n)[i].0),
    decreases n,
{
    let before = headers_until(lines, (n - 1) as nat);
    assert forall|k: int| 0 <= k < before.len() implies !is_withheld((#[trigger] before[k]).0) by {
        law_withheld_headers_are_not_seen(lines, (n - 1) as nat, k);
    }
    match text::split_once(lines[n - 1], ':') {
        None => {},
        Some((name, value)) => {
            let lower = text::lower(text::trimmed(name));
            if !is_withheld(lower) {
                lemma_put_origin(before, lower, text::trimmed(value), i);
            }
        },
    }
}

/// Every entry of a map with a key set is the new one or an old one.
proof fn lemma_put_origin(map: TextMap, key: Seq<char>, value: Seq<char>, i: int)
    requires
        0 <= i < ordered::put(map, key, value).len(),
    ensures
        ordered::put(map, key, value)[i].0 == key || (exists|k: int|
            0 <= k < map.len() && #[trigger] map[k] == ordered::put(map, key, value)[i]),
    decreases map.len(),
{
    let out = ordered::put(map, key, value);
    if map.len() > 0 {
        if key == map[0].0 {
            if i > 0 {
                assert(out[i] == map[i]);
            }
        } else if text::less(key, map[0].0) {
            if i > 0 {
                assert(out[i] == map[i - 1]);
            }
        } else if i == 0 {
            assert(out[0] == map[0]);
        } else {
            let rest = map.skip(1);
            assert(out[i] == ordered::put(rest, key, value)[i - 1]);
            lemma_put_origin(rest, key, value, i - 1);
            if out[i].0 != key {
                let k = choose|k: int| 0 <= k < rest.len() && #[trigger] rest[k] == out[i];
                assert(map[k + 1] == out[i]);
            }
        }
    }
}

/// The network side of a request, as policy rules see it.
#[derive(Debug, Clone, PartialEq, Eq)]
pub struct NetworkInput {
    pub host: String,
    pub port: u16,
    pub binary_path: String,
    pub binary_sha256: String,
    pub ancestors: Vec<String>,
    pub cmdline_paths: Vec<String>,
}

/// The network side of a request, as policy rules see it.
pub fn middleware_network_input(context: &L7EvalContext) -> (r: NetworkInput)
    ensures
        r.host@ == context.host@,
        r.port == context.port,
        r.binary_path@ == context.binary_path@,
        r.binary_sha256@ == Seq::<char>::empty(),
        r.ancestors.deep_view() == context.ancestors.deep_view(),
        r.cmdline_paths.deep_view() == context.cmdline_paths.deep_view(),
{
    NetworkInput {
        host: context.host.clone(),
        port: context.port,
        binary_path: context.binary_path.clone(),
        binary_sha256: String::new(),
        ancestors: context.ancestors.clone(),
        cmdline_paths: context.cmdline_paths.clone(),
    }
}

// ---------------------------------------------------------------------------
// Events
// ---------------------------------------------------------------------------

/// How grave an event is.
#[derive(Debug, Clone, Copy, PartialEq, Eq, Structural)]
pub enum Severity {
    Informational,
    Low,
    Medium,
    High,
}

/// A value that an event carries beside its schema.
#[derive(Debug, Clone, PartialEq, Eq)]
pub enum Extra {
    Flag(bool),
    Count(u32),
    Text(String),
}

/// The content of such a value.
pub enum ExtraView {
    Flag(bool),
    Count(u32),
    Text(Seq<char>),
}

impl DeepView for Extra {
    type V = ExtraView;

    open spec fn deep_view(&self) -> ExtraView {
        match self {
            Extra::Flag(value) => ExtraView::Flag(*value),
            Extra::Count(value) => ExtraView::Count(*value),
            Extra::Text(value) => ExtraView::Text(value@),
        }
    }
}

/// An event that describes what a chain did. An allowed activity is one that was
/// not blocked.
#[derive(Debug, Clone, PartialEq, Eq)]
pub enum MiddlewareEvent {
    HttpActivity {
        allowed: bool,
        severity: Severity,
        method: String,
        scheme: String,
        host: String,
        path: String,
        port: u16,
        rule: String,
        rule_type: String,
        failure_detail: Option<String>,
        unmapped: Vec<(String, Extra)>,
        message: String,
    },
    DetectionFinding {
        severity: Severity,
        uid: String,
        title: String,
        evidence: Vec<(String, String)>,
        unmapped: Vec<(String, Extra)>,
        message: String,
    },
}

/// The content of an event.
#[verifier::ext_equal]
pub enum EventView {
    HttpActivity {
        allowed: bool,
        severity: Severity,
        method: Seq<char>,
        scheme: Seq<char>,
        host: Seq<char>,
        path: Seq<char>,
        port: u16,
        rule: Seq<char>,
        rule_type: Seq<char>,
        failure_detail: Option<Seq<char>>,
        unmapped: Seq<(Seq<char>, ExtraView)>,
        message: Seq<char>,
    },
    DetectionFinding {
        severity: Severity,
        uid: Seq<char>,
        title: Seq<char>,
        evidence: Seq<(Seq<char>, Seq<char>)>,
        unmapped: Seq<(Seq<char>, ExtraView)>,
        message: Seq<char>,
    },
}

impl DeepView for MiddlewareEvent {
    type V = EventView;

    open spec fn deep_view(&self) -> EventView {
        match self {
            MiddlewareEvent::HttpActivity {
                allowed,
                severity,
                method,
                scheme,
                host,
                path,
                port,
                rule,
                rule_type,
                failure_detail,
                unmapped,
                message,
            } => EventView::HttpActivity {
                allowed: *allowed,
                severity: *severity,
                method: method@,
                scheme: scheme@,
                host: host@,
                path: path@,
                port: *port,
                rule: rule@,
                rule_type: rule_type@,
                failure_detail: failure_detail.deep_view(),
                unmapped: unmapped.deep_view(),
                message: message@,
            },
            MiddlewareEvent::DetectionFinding {
                severity,
                uid,
                title,
                evidence,
                unmapped,
                message,
            } => EventView::DetectionFinding {
                severity: *severity,
                uid: uid@,
                title: title@,
                evidence: evidence.deep_view(),
                unmapped: unmapped.deep_view(),
                message: message@,
            },
        }
    }
}

/// The name of a decision's variant.
pub open spec fn variant_of(decision: Decision) -> Seq<char> {
    match decision {
        Decision::Unspecified => "Unspecified"@,
        Decision::Allow => "Allow"@,
        Decision::Deny => "Deny"@,
    }
}

/// The event for one entry's turn.
pub open spec fn activity_of(
    context: L7EvalContext,
    request: L7Request,
    reason: Seq<char>,
    invocation: InvocationView,
) -> EventView {
    let allowed = invocation.decision == Decision::Allow;
    EventView::HttpActivity {
        allowed,
        severity: if allowed {
            Severity::Informational
        } else {
            Severity::Medium
        },
        method: request.action@,
        scheme: "http"@,
        host: context.host@,
        path: request.target@,
        port: context.port,
        rule: context.policy_name@,
        rule_type: "middleware"@,
        failure_detail: if !allowed && reason.len() > 0 {
            Some(reason)
        } else {
            None
        },
        unmapped: seq![
            ("transformed"@, ExtraView::Flag(invocation.transformed)),
            ("failed"@, ExtraView::Flag(invocation.failed)),
        ],
        message: "MIDDLEWARE "@ + invocation.name + " "@ + invocation.implementation + " decision="@
            + variant_of(invocation.decision),
    }
}

/// The event for an entry that failed and was passed over. Operators must be able
/// to alert on it, though the request proceeded.
pub open spec fn bypass_of(invocation: InvocationView) -> EventView {
    EventView::DetectionFinding {
        severity: Severity::Medium,
        uid: "openshell.middleware.failure"@,
        title: "Supervisor middleware failed open"@,
        evidence: seq![
            ("middleware"@, invocation.name),
            ("implementation"@, invocation.implementation),
        ],
        unmapped: seq![
            ("middleware"@, ExtraView::Text(invocation.name)),
            ("implementation"@, ExtraView::Text(invocation.implementation)),
        ],
        message: "Middleware "@ + invocation.name + " failed and was bypassed (fail_open)"@,
    }
}

/// The events for one entry's turn.
pub open spec fn turn_events(
    context: L7EvalContext,
    request: L7Request,
    reason: Seq<char>,
    invocation: InvocationView,
) -> Seq<EventView> {
    let activity = activity_of(context, request, reason, invocation);
    if invocation.failed && invocation.decision == Decision::Allow {
        seq![activity, bypass_of(invocation)]
    } else {
        seq![activity]
    }
}

/// The events for the turns of entries, in order.
pub open spec fn all_turn_events(
    context: L7EvalContext,
    request: L7Request,
    reason: Seq<char>,
    applied: Seq<InvocationView>,
) -> Seq<EventView>
    decreases applied.len(),
{
    if applied.len() == 0 {
        Seq::empty()
    } else {
        all_turn_events(context, request, reason, applied.drop_last()) + turn_events(
            context,
            request,
            reason,
            applied.last(),
        )
    }
}

/// The event for a chain that a failed entry closed.
pub open spec fn closed_event() -> EventView {
    EventView::DetectionFinding {
        severity: Severity::High,
        uid: "openshell.middleware.failure"@,
        title: "Supervisor middleware failure"@,
        evidence: Seq::empty(),
        unmapped: Seq::empty(),
        message: "Required supervisor middleware failed closed"@,
    }
}

/// The event for a finding.
pub open spec fn finding_event(finding: NamespacedView) -> EventView {
    let count = text::decimal(finding.finding.count as nat);
    EventView::DetectionFinding {
        severity: if finding.finding.severity == "high"@ {
            Severity::High
        } else if finding.finding.severity == "low"@ {
            Severity::Low
        } else {
            Severity::Medium
        },
        uid: finding.finding.finding_type,
        title: finding.finding.label,
        evidence: seq![("middleware"@, finding.middleware), ("count"@, count)],
        unmapped: seq![
            ("middleware"@, ExtraView::Text(finding.middleware)),
            ("count"@, ExtraView::Count(finding.finding.count)),
        ],
        message: "Middleware finding "@ + finding.finding.finding_type + " count="@ + count,
    }
}

/// The outcome is the failure of an entry that fails closed.
pub open spec fn failed_closed(outcome: OutcomeView) -> bool {
    !outcome.allowed && text::starts_with(outcome.reason, "middleware_failed:"@)
}

/// The events that describe what a chain did, in the order in which they are
/// emitted: each entry's turn, the failure that closed the chain, the findings.
pub open spec fn events_of(
    context: L7EvalContext,
    request: L7Request,
    outcome: OutcomeView,
) -> Seq<EventView> {
    all_turn_events(context, request, outcome.reason, outcome.applied) + (if failed_closed(
        outcome,
    ) {
        seq![closed_event()]
    } else {
        Seq::empty()
    }) + Seq::new(outcome.findings.len(), |i: int| finding_event(outcome.findings[i]))
}

fn variant_name(decision: Decision) -> (r: &'static str)
    ensures
        r@ == variant_of(decision),
{
    match decision {
        Decision::Unspecified => "Unspecified",
        Decision::Allow => "Allow",
        Decision::Deny => "Deny",
    }
}

fn activity(
    context: &L7EvalContext,
    request: &L7Request,
    reason: &str,
    invocation: &MiddlewareInvocation,
) -> (r: MiddlewareEvent)
    ensures
        r.deep_view() == activity_of(*context, *request, reason@, invocation.deep_view()),
{
    let allowed = invocation.decision == Decision::Allow;
    let mut unmapped: Vec<(String, Extra)> = Vec::new();
    unmapped.push(("transformed".to_owned(), Extra::Flag(invocation.transformed)));
    unmapped.push(("failed".to_owned(), Extra::Flag(invocation.failed)));
    let failure_detail = if !allowed && !reason.is_empty() {
        Some(reason.to_owned())
    } else {
        None
    };
    proof {
        assert(unmapped.deep_view() =~= seq![
            ("transformed"@, ExtraView::Flag(invocation.transformed)),
            ("failed"@, ExtraView::Flag(invocation.failed)),
        ]);
    }
    MiddlewareEvent::HttpActivity {
        allowed,
        severity: if allowed {
            Severity::Informational
        } else {
            Severity::Medium
        },
        method: request.action.clone(),
        scheme: "http".to_owned(),
        host: context.host.clone(),
        path: request.target.clone(),
        port: context.port,
        rule: context.policy_name.clone(),
        rule_type: "middleware".to_owned(),
        failure_detail,
        unmapped,
        message: cat6(
            "MIDDLEWARE ",
            invocation.name.as_str(),
            " ",
            invocation.implementation.as_str(),
            " decision=",
            variant_name(invocation.decision),
        ),
    }
}

fn bypass(invocation: &MiddlewareInvocation) -> (r: MiddlewareEvent)
    ensures
        r.deep_view() == bypass_of(invocation.deep_view()),
{
    let mut evidence: Vec<(String, String)> = Vec::new();
    evidence.push(("middleware".to_owned(), invocation.name.clone()));
    evidence.push(("implementation".to_owned(), invocation.implementation.clone()));
    let mut unmapped: Vec<(String, Extra)> = Vec::new();
    unmapped.push(("middleware".to_owned(), Extra::Text(invocation.name.clone())));
    unmapped.push(("implementation".to_owned(), Extra::Text(invocation.implementation.clone())));
    proof {
        assert(evidence.deep_view() =~= seq![
            ("middleware"@, invocation.name@),
            ("implementation"@, invocation.implementation@),
        ]);
        assert(unmapped.deep_view() =~= seq![
            ("middleware"@, ExtraView::Text(invocation.name@)),
            ("implementation"@, ExtraView::Text(invocation.implementation@)),
        ]);
    }
    MiddlewareEvent::DetectionFinding {
        severity: Severity::Medium,
        uid: "openshell.middleware.failure".to_owned(),
        title: "Supervisor middleware failed open".to_owned(),
        evidence,
        unmapped,
        message: cat3(
            "Middleware ",
            invocation.name.as_str(),
            " failed and was bypassed (fail_open)",
        ),
    }
}

fn finding(found: &NamespacedFinding) -> (r: MiddlewareEvent)
    ensures
        r.deep_view() == finding_event(found.deep_view()),
{
    let count = text::decimal_of(found.finding.count as u64);
    let severity = if text::same(found.finding.severity.as_str(), "high") {
        Severity::High
    } else if text::same(found.finding.severity.as_str(), "low") {
        Severity::Low
    } else {
        Severity::Medium
    };
    let message = cat4(
        "Middleware finding ",
        found.finding.finding_type.as_str(),
        " count=",
        count.as_str(),
    );
    let mut evidence: Vec<(String, String)> = Vec::new();
    evidence.push(("middleware".to_owned(), found.middleware.clone()));
    evidence.push(("count".to_owned(), count));
    let mut unmapped: Vec<(String, Extra)> = Vec::new();
    unmapped.push(("middleware".to_owned(), Extra::Text(found.middleware.clone())));
    unmapped.push(("count".to_owned(), Extra::Count(found.finding.count)));
    proof {
        let shown_finding = found.deep_view();
        assert(evidence.deep_view() =~= seq![
            ("middleware"@, shown_finding.middleware),
            ("count"@, text::decimal(shown_finding.finding.count as nat)),
        ]);
        assert(unmapped.deep_view() =~= seq![
            ("middleware"@, ExtraView::Text(shown_finding.middleware)),
            ("count"@, ExtraView::Count(shown_finding.finding.count)),
        ]);
    }
    MiddlewareEvent::DetectionFinding {
        severity,
        uid: found.finding.finding_type.clone(),
        title: found.finding.label.clone(),
        evidence,
        unmapped,
        message,
    }
}

/// The events that describe what a chain did, in the order in which they are
/// emitted.
pub fn middleware_events(
    context: &L7EvalContext,
    request: &L7Request,
    outcome: &ChainOutcome,
) -> (r: Vec<MiddlewareEvent>)
    ensures
        r.deep_view() == events_of(*context, *request, outcome.deep_view()),
{
    let ghost seen = outcome.deep_view();
    let ghost applied = seen.applied;
    let mut events: Vec<MiddlewareEvent> = Vec::new();
    let mut i: usize = 0;
    proof {
        assert(applied.take(0) =~= Seq::empty());
        assert(events.deep_view() =~= Seq::<EventView>::empty());
    }
    while i < outcome.applied.len()
        invariant
            i <= outcome.applied.len(),
            seen == outcome.deep_view(),
            applied == seen.applied,
            events.deep_view() == all_turn_events(
                *context,
                *request,
                seen.reason,
                applied.take(i as int),
            ),
        decreases outcome.applied.len() - i,
    {
        let invocation = &outcome.applied[i];
        let ghost before = events.deep_view();
        proof {
            assert(applied.take(i + 1).drop_last() =~= applied.take(i as int));
            assert(applied.take(i + 1).last() == invocation.deep_view());
        }
        events.push(activity(context, request, outcome.reason.as_str(), invocation));
        if invocation.failed && invocation.decision == Decision::Allow {
            events.push(bypass(invocation));
        }
        proof {
            assert(events.deep_view() =~= before + turn_events(
                *context,
                *request,
                seen.reason,
                invocation.deep_view(),
            ));
        }
        i += 1;
    }
    let ghost turns = events.deep_view();
    proof {
        assert(applied.take(i as int) =~= applied);
    }
    if !outcome.allowed && text::has_prefix(outcome.reason.as_str(), "middleware_failed:") {
        events.push(
            MiddlewareEvent::DetectionFinding {
                severity: Severity::High,
                uid: "openshell.middleware.failure".to_owned(),
                title: "Supervisor middleware failure".to_owned(),
                evidence: Vec::new(),
                unmapped: Vec::new(),
                message: "Required supervisor middleware failed closed".to_owned(),
            },
        );
        proof {
            let last = events@.last().deep_view();
            assert(last->evidence =~= Seq::empty());
            assert(last->DetectionFinding_unmapped =~= Seq::empty());
            assert(last == closed_event());
            assert(events.deep_view() =~= turns + seq![closed_event()]);
        }
    } else {
        proof {
            assert(events.deep_view() =~= turns + Seq::empty());
        }
    }
    let ghost head = events.deep_view();
    let ghost tail = Seq::new(seen.findings.len(), |k: int| finding_event(seen.findings[k]));
    let mut k: usize = 0;
    proof {
        assert(head + tail.take(0) =~= head);
    }
    while k < outcome.findings.len()
        invariant
            k <= outcome.findings.len(),
            seen == outcome.deep_view(),
            tail == Seq::new(seen.findings.len(), |k: int| finding_event(seen.findings[k])),
            events.deep_view() == head + tail.take(k as int),
        decreases outcome.findings.len() - k,
    {
        let ghost before = events.deep_view();
        proof {
            assert(seen.findings[k as int] == outcome.findings@[k as int].deep_view());
        }
        events.push(finding(&outcome.findings[k]));
        proof {
            assert(events.deep_view() =~= before.push(tail[k as int]));
            assert(before.push(tail[k as int]) =~= head + tail.take(k + 1));
        }
        k += 1;
    }
    proof {
        assert(tail.take(k as int) =~= tail);
    }
    events
}

/// The event for a body that was too long to be looked at.
pub open spec fn body_unavailable(context: L7EvalContext, denied: bool) -> EventView {
    EventView::DetectionFinding {
        severity: if denied {
            Severity::High
        } else {
            Severity::Medium
        },
        uid: "openshell.middleware.body_unavailable"@,
        title: "Supervisor middleware could not inspect request body"@,
        evidence: seq![
            ("policy"@, context.policy_name@),
            ("host"@, context.host@),
            ("disposition"@, if denied { "denied"@ } else { "fail_open"@ }),
        ],
        unmapped: Seq::empty(),
        message: if denied {
            "Request body exceeded middleware inspection cap; denied"@
        } else {
            "Request body exceeded middleware inspection cap; passed through (fail_open)"@
        },
    }
}

fn body_unavailable_event(context: &L7EvalContext, denied: bool) -> (r: MiddlewareEvent)
    ensures
        r.deep_view() == body_unavailable(*context, denied),
{
    let disposition = if denied {
        "denied"
    } else {
        "fail_open"
    };
    let mut evidence: Vec<(String, String)> = Vec::new();
    evidence.push(("policy".to_owned(), context.policy_name.clone()));
    evidence.push(("host".to_owned(), context.host.clone()));
    evidence.push(("disposition".to_owned(), disposition.to_owned()));
    let unmapped: Vec<(String, Extra)> = Vec::new();
    proof {
        let expected = body_unavailable(*context, denied);
        assert(evidence.deep_view() =~= expected->evidence);
        assert(unmapped.deep_view() =~= expected->DetectionFinding_unmapped);
    }
    MiddlewareEvent::DetectionFinding {
        severity: if denied {
            Severity::High
        } else {
            Severity::Medium
        },
        uid: "openshell.middleware.body_unavailable".to_owned(),
        title: "Supervisor middleware could not inspect request body".to_owned(),
        evidence,
        unmapped,
        message: if denied {
            "Request body exceeded middleware inspection cap; denied".to_owned()
        } else {
            "Request body exceeded middleware inspection cap; passed through (fail_open)".to_owned()
        },
    }
}

/// A request whose body could not be buffered passes only where no byte of it was
/// consumed and every entry fails open.
pub open spec fn passes_unbuffered(chain: Seq<DescribedChainEntry>, recoverable: bool) -> bool {
    recoverable && forall|i: int|
        0 <= i < chain.len() ==> (#[trigger] chain[i]).on_error == OnError::FailOpen
}

/// Applies the chain's error policy to a request whose body is too long to be
/// buffered: what becomes of it, and the event that says so.
pub fn resolve_unbuffered_body<R>(
    context: &L7EvalContext,
    request: R,
    chain: &[DescribedChainEntry],
    recoverable: bool,
) -> (r: (MiddlewareApplyResult<R>, MiddlewareEvent))
    ensures
        r.1.deep_view() == body_unavailable(*context, !passes_unbuffered(chain@, recoverable)),
        match r.0 {
            MiddlewareApplyResult::Allowed(passed) => passes_unbuffered(chain@, recoverable)
                && passed == request,
            MiddlewareApplyResult::Denied(reason) => !passes_unbuffered(chain@, recoverable)
                && reason@ == "middleware_failed: request_body_over_capacity"@,
        },
{
    let mut all_fail_open = true;
    let mut i: usize = 0;
    while i < chain.len() && all_fail_open
        invariant
            i <= chain@.len(),
            all_fail_open ==> forall|j: int|
                0 <= j < i ==> (#[trigger] chain@[j]).on_error == OnError::FailOpen,
            !all_fail_open ==> exists|j: int|
                0 <= j < chain@.len() && (#[trigger] chain@[j]).on_error != OnError::FailOpen,
        decreases chain@.len() - i,
    {
        if chain[i].on_error != OnError::FailOpen {
            all_fail_open = false;
            assert(chain@[i as int].on_error != OnError::FailOpen);
        }
        i += 1;
    }
    if recoverable && all_fail_open {
        return (
            MiddlewareApplyResult::Allowed(request),
            body_unavailable_event(context, false),
        );
    }
    (
        MiddlewareApplyResult::Denied(
            "middleware_failed: request_body_over_capacity".to_owned(),
        ),
        body_unavailable_event(context, true),
    )
}

} // verus!
