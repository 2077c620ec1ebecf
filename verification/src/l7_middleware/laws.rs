//! What a relayed request is taken through, what middleware see of it and what is told of it.

use crate::l7_middleware::{
    all_turn_events, body_limit, body_unavailable, events_of, finding_event, headers_until,
    input_of, is_withheld, passes_unbuffered, plan_of, raw_query, target_of, turn_events, ChainPlan,
    DescribedChainEntry, EventView, ExtraView, L7EvalContext, L7Request, Severity,
};
use crate::middleware::chain::{InvocationView, NamespacedView, OutcomeView};
use crate::middleware::{Decision, OnError, TextMap};
use crate::ordered;
use crate::text;
use vstd::prelude::*;
use vstd::utf8::{decode_utf8, valid_utf8};

verus! {

// ---------------------------------------------------------------------------
// Plans
// ---------------------------------------------------------------------------

/// A request is forwarded as it is exactly where there is no chain. Its body is buffered
/// exactly where an entry resolved, and never beyond the limit of one that did.
pub proof fn law_plans(chain: Seq<DescribedChainEntry>)
    ensures
        plan_of(chain) == ChainPlan::Forward <==> chain.len() == 0,
        plan_of(chain) is Buffer <==> exists|i: int|
            0 <= i < chain.len() && (#[trigger] chain[i]).resolved,
        plan_of(chain) matches ChainPlan::Buffer(limit) ==> forall|i: int|
            0 <= i < chain.len() && (#[trigger] chain[i]).resolved ==> limit
                <= chain[i].max_body_bytes,
        plan_of(chain) matches ChainPlan::Buffer(limit) ==> exists|i: int|
            0 <= i < chain.len() && (#[trigger] chain[i]).resolved && limit
                == chain[i].max_body_bytes,
    decreases chain.len(),
{
    if chain.len() > 0 {
        let before = chain.drop_last();
        law_plans(before);
        let last = chain.len() - 1;
        assert(chain[last] == chain.last());
        assert forall|i: int| 0 <= i < last implies before[i] == #[trigger] chain[i] by {}
        if body_limit(before) is Some {
            assert(before.len() > 0);
            let limit = body_limit(before)->0;
            assert(plan_of(before) == ChainPlan::Buffer(limit));
            let i = choose|i: int|
                0 <= i < before.len() && (#[trigger] before[i]).resolved && limit
                    == before[i].max_body_bytes;
            assert(chain[i] == before[i]);
        } else {
            assert(!(plan_of(before) is Buffer));
            assert forall|i: int| 0 <= i < last implies !(#[trigger] chain[i]).resolved by {
                assert(!before[i].resolved);
            }
        }
    }
}

/// A request whose body was too long passes only where nothing of it was lost and no entry
/// fails closed.
pub proof fn law_long_bodies(
    chain: Seq<DescribedChainEntry>,
    recoverable: bool,
    context: L7EvalContext,
    denied: bool,
)
    ensures
        !recoverable ==> !passes_unbuffered(chain, recoverable),
        forall|i: int|
            0 <= i < chain.len() && (#[trigger] chain[i]).on_error == OnError::FailClosed
                ==> !passes_unbuffered(chain, recoverable),
        recoverable && (forall|i: int|
            0 <= i < chain.len() ==> (#[trigger] chain[i]).on_error == OnError::FailOpen)
            ==> passes_unbuffered(chain, recoverable),
        body_unavailable(context, denied) matches EventView::DetectionFinding {
            severity,
            uid,
            evidence,
            ..
        } && severity == (if denied {
            Severity::High
        } else {
            Severity::Medium
        }) && uid == "openshell.middleware.body_unavailable"@ && evidence == seq![
            ("policy"@, context.policy_name@),
            ("host"@, context.host@),
            (
                "disposition"@,
                if denied {
                    "denied"@
                } else {
                    "fail_open"@
                },
            ),
        ],
{
}

// ---------------------------------------------------------------------------
// What middleware see
// ---------------------------------------------------------------------------

/// A chain sees the request as it was sent: its method, target, query, headers and body, and
/// where it goes.
pub proof fn law_inputs(
    request_id: Seq<char>,
    sandbox_id: Seq<char>,
    scheme: Seq<char>,
    request: L7Request,
    context: L7EvalContext,
    headers: TextMap,
    query: Seq<char>,
    body: Seq<u8>,
)
    ensures
        ({
            let input = input_of(
                request_id,
                sandbox_id,
                scheme,
                request,
                context,
                headers,
                query,
                body,
            );
            &&& input.request_id == request_id
            &&& input.sandbox_id == sandbox_id
            &&& input.scheme == scheme
            &&& input.host == context.host@
            &&& input.port == context.port
            &&& input.method == request.action@
            &&& input.path == request.target@
            &&& input.query == query
            &&& input.headers == headers
            &&& input.body == body
        }),
{
}

/// The query is what follows the first question mark of the target, and empty where the
/// target has none.
pub proof fn law_queries(headers: Seq<u8>)
    ensures
        raw_query(headers) is Err <==> !valid_utf8(headers) || target_of(decode_utf8(headers))
            is None,
        raw_query(headers) matches Ok(query) ==> match target_of(decode_utf8(headers)) {
            Some(target) => if target.contains('?') {
                exists|path: Seq<char>|
                    !path.contains('?') && target == #[trigger] path.push('?') + query
            } else {
                query.len() == 0
            },
            None => false,
        },
{
    if let Some(target) = target_of(decode_utf8(headers)) {
        text::laws::law_split_once(target, '?');
    }
}

/// The target is the second word of the first line.
pub proof fn law_targets(method: Seq<char>, target: Seq<char>, version: Seq<char>)
    requires
        method.len() > 0,
        target.len() > 0,
        forall|i: int| 0 <= i < method.len() ==> !text::is_space(#[trigger] method[i]),
        forall|i: int| 0 <= i < target.len() ==> !text::is_space(#[trigger] target[i]),
        !version.contains('\n'),
    ensures
        target_of(method.push(' ') + (target.push(' ') + version)) == Some(target),
{
    let line = method.push(' ') + (target.push(' ') + version);
    assert forall|i: int| 0 <= i < line.len() implies line[i] != '\n' by {
        if i < method.len() {
            assert(line[i] == method[i]);
        } else if method.len() < i < method.len() + 1 + target.len() {
            assert(line[i] == target[i - method.len() - 1]);
        } else if i > method.len() + 1 + target.len() {
            let k = i - method.len() - target.len() - 2;
            assert(line[i] == version[k]);
            assert(version.contains(version[k]));
        }
    }
    text::laws::law_lines(Seq::empty(), line);
    text::laws::law_words_are_parted(method, ' ', target.push(' ') + version);
    text::laws::law_words_are_parted(target, ' ', version);
    text::laws::law_one_word(method);
    text::laws::law_one_word(target);
    assert(text::words(line)[1] == target);
}

/// Which headers are kept from middleware.
pub proof fn law_withheld_names(name: Seq<char>)
    ensures
        is_withheld("authorization"@),
        is_withheld("cookie"@),
        is_withheld("host"@),
        is_withheld("content-length"@),
        is_withheld("transfer-encoding"@),
        is_withheld("x-amz-"@ + name),
        is_withheld("x-openshell-credential"@ + name),
        is_withheld(name) ==> name.len() == 0 || name == "authorization"@ || name == "cookie"@
            || name == "host"@ || name == "content-length"@ || name == "transfer-encoding"@
            || text::starts_with(name, "x-amz-"@) || text::starts_with(
            name,
            "x-openshell-credential"@,
        ),
{
    text::laws::law_ends("x-amz-"@, name, name);
    text::laws::law_ends("x-openshell-credential"@, name, name);
}


/// Middleware see the last value that a header has after the first line, whatever the case
/// in which its name is written.
pub proof fn law_last_header_is_seen(
    lines: Seq<Seq<char>>,
    n: nat,
    k: int,
    name: Seq<char>,
    written: Seq<char>,
    value: Seq<char>,
)
    requires
        1 <= k < n <= lines.len(),
        !written.contains(':'),
        lines[k] == written.push(':') + value,
        text::lower(text::trimmed(written)) == name,
        !is_withheld(name),
        forall|j: int, other: Seq<char>, rest: Seq<char>|
            k < j < n && !other.contains(':') && #[trigger] lines[j] == #[trigger] (other.push(
                ':',
            ) + rest) ==> text::lower(text::trimmed(other)) != name,
    ensures
        ordered::lookup(headers_until(lines, n), name) == Some(text::trimmed(value)),
    decreases n,
{
    let before = headers_until(lines, (n - 1) as nat);
    lemma_headers_are_a_map(lines, (n - 1) as nat);
    text::laws::law_split_once(lines[n - 1], ':');
    if k == n - 1 {
        text::laws::law_cut(written, ':', value);
        ordered::law_put_lookup(before, name, text::trimmed(value), name);
    } else {
        law_last_header_is_seen(lines, (n - 1) as nat, k, name, written, value);
        if let Some((other, rest)) = text::split_once(lines[n - 1], ':') {
            assert(lines[n - 1] == other.push(':') + rest);
            let lower = text::lower(text::trimmed(other));
            assert(lower != name);
            ordered::law_put_lookup(before, lower, text::trimmed(rest), name);
        }
    }
}

/// A header that middleware see stands on a line after the first.
pub proof fn law_seen_headers_were_sent(lines: Seq<Seq<char>>, n: nat, name: Seq<char>)
    requires
        n <= lines.len(),
        ordered::lookup(headers_until(lines, n), name) is Some,
    ensures
        !is_withheld(name),
        exists|k: int|
            1 <= k < n && (text::split_once(#[trigger] lines[k], ':') matches Some(parts)
                && text::lower(text::trimmed(parts.0)) == name && ordered::lookup(
                headers_until(lines, n),
                name,
            ) == Some(text::trimmed(parts.1))),
    decreases n,
{
    if n > 1 {
        let before = headers_until(lines, (n - 1) as nat);
        lemma_headers_are_a_map(lines, (n - 1) as nat);
        let line = lines[n - 1];
        match text::split_once(line, ':') {
            None => {
                law_seen_headers_were_sent(lines, (n - 1) as nat, name);
            },
            Some((written, value)) => {
                let lower = text::lower(text::trimmed(written));
                if is_withheld(lower) {
                    law_seen_headers_were_sent(lines, (n - 1) as nat, name);
                } else {
                    ordered::law_put_lookup(before, lower, text::trimmed(value), name);
                    if lower != name {
                        law_seen_headers_were_sent(lines, (n - 1) as nat, name);
                    }
                }
            },
        }
    }
}

proof fn lemma_headers_are_a_map(lines: Seq<Seq<char>>, n: nat)
    ensures
        ordered::is_map(headers_until(lines, n)),
    decreases n,
{
    if 1 < n <= lines.len() {
        let before = headers_until(lines, (n - 1) as nat);
        lemma_headers_are_a_map(lines, (n - 1) as nat);
        if let Some((name, value)) = text::split_once(lines[n - 1], ':') {
            ordered::law_put_map(
                before,
                text::lower(text::trimmed(name)),
                text::trimmed(value),
            );
        }
    }
}

// ---------------------------------------------------------------------------
// Events
// ---------------------------------------------------------------------------

/// Every turn is told, with its decision. Of an entry that failed and was passed over the
/// next event tells that.
pub proof fn law_turns_are_told(
    context: L7EvalContext,
    request: L7Request,
    reason: Seq<char>,
    invocation: InvocationView,
)
    ensures
        ({
            let events = turn_events(context, request, reason, invocation);
            let allowed = invocation.decision == Decision::Allow;
            &&& events.len() == (if invocation.failed && allowed {
                2int
            } else {
                1int
            })
            &&& events[0] matches EventView::HttpActivity {
                allowed: told,
                severity,
                method,
                host,
                path,
                port,
                rule,
                failure_detail,
                unmapped,
                ..
            } && told == allowed && severity == (if allowed {
                Severity::Informational
            } else {
                Severity::Medium
            }) && method == request.action@ && host == context.host@ && path == request.target@
                && port == context.port && rule == context.policy_name@ && (failure_detail is Some
                <==> !allowed && reason.len() > 0) && (failure_detail matches Some(detail)
                ==> detail == reason) && unmapped == seq![
                ("transformed"@, ExtraView::Flag(invocation.transformed)),
                ("failed"@, ExtraView::Flag(invocation.failed)),
            ]
            &&& invocation.failed && allowed ==> (events[1] matches EventView::DetectionFinding {
                severity,
                uid,
                evidence,
                ..
            } && severity == Severity::Medium && uid == "openshell.middleware.failure"@
                && evidence == seq![
                ("middleware"@, invocation.name),
                ("implementation"@, invocation.implementation),
            ])
        }),
{
}

/// The events of a chain are those of its turns in order, then that of a failure that closed
/// it, then those of its findings, one for each.
pub proof fn law_order_of_events(
    context: L7EvalContext,
    request: L7Request,
    outcome: OutcomeView,
    n: int,
)
    requires
        0 <= n < outcome.applied.len(),
    ensures
        ({
            let turns = all_turn_events(context, request, outcome.reason, outcome.applied);
            let closed = !outcome.allowed && text::starts_with(
                outcome.reason,
                "middleware_failed:"@,
            );
            let after = turns.len() + (if closed {
                1int
            } else {
                0int
            });
            let events = events_of(context, request, outcome);
            &&& events.len() == after + outcome.findings.len()
            &&& events.take(turns.len() as int) == turns
            &&& closed ==> (events[turns.len() as int] matches EventView::DetectionFinding {
                severity,
                uid,
                ..
            } && severity == Severity::High && uid == "openshell.middleware.failure"@)
            &&& forall|i: int|
                0 <= i < outcome.findings.len() ==> #[trigger] events[after + i] == finding_event(
                    outcome.findings[i],
                )
        }),
        all_turn_events(context, request, outcome.reason, outcome.applied.take(n + 1))
            == all_turn_events(context, request, outcome.reason, outcome.applied.take(n))
            + turn_events(context, request, outcome.reason, outcome.applied[n]),
{
    let turns = all_turn_events(context, request, outcome.reason, outcome.applied);
    let events = events_of(context, request, outcome);
    assert(events.take(turns.len() as int) =~= turns);
    let step = outcome.applied.take(n + 1);
    assert(step.drop_last() =~= outcome.applied.take(n));
    assert(step.last() == outcome.applied[n]);
}

/// A finding is told with its kind, its count and the middleware that made it, as grave as
/// that says.
pub proof fn law_findings_are_told(finding: NamespacedView)
    ensures
        finding_event(finding) matches EventView::DetectionFinding {
            severity,
            uid,
            title,
            evidence,
            unmapped,
            ..
        } && (severity == Severity::High <==> finding.finding.severity == "high"@) && (severity
            == Severity::Low <==> finding.finding.severity == "low"@) && (finding.finding.severity
            != "high"@ && finding.finding.severity != "low"@ ==> severity == Severity::Medium)
            && uid == finding.finding.finding_type && title == finding.finding.label && evidence
            == seq![
            ("middleware"@, finding.middleware),
            ("count"@, text::decimal(finding.finding.count as nat)),
        ] && unmapped == seq![
            ("middleware"@, ExtraView::Text(finding.middleware)),
            ("count"@, ExtraView::Count(finding.finding.count)),
        ],
{
    reveal_strlit("high");
    reveal_strlit("low");
    assert("high"@.len() != "low"@.len());
}

} // verus!
