//! What a policy grants, and what a check of it against a maximum has to answer.

use crate::ordered;
use crate::prover::envelope;
use crate::prover::envelope::{
    check_fits, conclusion, deny_covers, endpoint_allows, endpoint_denies, filesystem_verdict,
    first_problem, in_domain, path_below, policy_allows, rest_allows, unsupported, ActionView,
    CheckView, MaximumView,
};
use crate::prover::glob::{accepts, glob_matches, law_any_text_matches, pieces, GlobPiece};
use crate::prover::policy::{
    model_of, rule_of, EndpointView, L7DenyRuleView, L7RuleDef, NetworkPolicyRuleDef, PolicyFile,
    PolicyView,
};
use crate::prover::solver::{codes, denoted, is_plain, law_plain_text_is_written_as_it_is, Answer};
use crate::text;
use vstd::prelude::*;

verus! {

// ---------------------------------------------------------------------------
// Methods
// ---------------------------------------------------------------------------

proof fn lemma_capitals(s: Seq<char>)
    requires
        forall|i: int| 0 <= i < s.len() ==> 'A' <= #[trigger] s[i] && s[i] <= 'Z',
    ensures
        text::upper(s) == s,
        denoted(text::upper(s)) == codes(s),
{
    assert(text::upper(s) =~= s);
    assert(is_plain(s));
}

proof fn lemma_method_names()
    ensures
        denoted(text::upper("GET"@)) == codes("GET"@),
        denoted(text::upper("HEAD"@)) == codes("HEAD"@),
        denoted(text::upper("OPTIONS"@)) == codes("OPTIONS"@),
        denoted(text::upper("POST"@)) == codes("POST"@),
        denoted(text::upper("PUT"@)) == codes("PUT"@),
        denoted(text::upper("PATCH"@)) == codes("PATCH"@),
{
    reveal_strlit("GET");
    reveal_strlit("HEAD");
    reveal_strlit("OPTIONS");
    reveal_strlit("POST");
    reveal_strlit("PUT");
    reveal_strlit("PATCH");
    lemma_capitals("GET"@);
    lemma_capitals("HEAD"@);
    lemma_capitals("OPTIONS"@);
    lemma_capitals("POST"@);
    lemma_capitals("PUT"@);
    lemma_capitals("PATCH"@);
}

/// The `read-only` preset grants GET, HEAD and OPTIONS on every path, and nothing
/// else.
pub proof fn law_read_only_preset(endpoint: EndpointView, action: ActionView, view: MaximumView)
    requires
        endpoint.access == "read-only"@,
    ensures
        rest_allows(endpoint, action, view) <==> (action.method == codes("GET"@) || action.method
            == codes("HEAD"@) || action.method == codes("OPTIONS"@)),
{
    lemma_method_names();
    law_any_text_matches('/', action.path);
    let list = envelope::read_only_methods();
    assert(list[0] == "GET"@ && list[1] == "HEAD"@ && list[2] == "OPTIONS"@);
}

/// The `read-write` preset grants GET, HEAD, OPTIONS, POST, PUT and PATCH on every
/// path, and nothing else. It does not grant DELETE.
pub proof fn law_read_write_preset(endpoint: EndpointView, action: ActionView, view: MaximumView)
    requires
        endpoint.access == "read-write"@,
    ensures
        rest_allows(endpoint, action, view) <==> (action.method == codes("GET"@) || action.method
            == codes("HEAD"@) || action.method == codes("OPTIONS"@) || action.method == codes(
            "POST"@,
        ) || action.method == codes("PUT"@) || action.method == codes("PATCH"@)),
        action.method == codes("DELETE"@) ==> !rest_allows(endpoint, action, view),
{
    reveal_strlit("read-only");
    reveal_strlit("read-write");
    assert("read-only"@.len() != "read-write"@.len());
    lemma_method_names();
    law_any_text_matches('/', action.path);
    let list = envelope::read_write_methods();
    assert(list[0] == "GET"@ && list[1] == "HEAD"@ && list[2] == "OPTIONS"@);
    assert(list[3] == "POST"@ && list[4] == "PUT"@ && list[5] == "PATCH"@);
    reveal_strlit("GET");
    reveal_strlit("HEAD");
    reveal_strlit("OPTIONS");
    reveal_strlit("POST");
    reveal_strlit("PUT");
    reveal_strlit("PATCH");
    reveal_strlit("DELETE");
    let delete = codes("DELETE"@);
    assert(delete.len() == 6);
    assert(codes("GET"@).len() == 3);
    assert(codes("HEAD"@).len() == 4);
    assert(codes("OPTIONS"@).len() == 7);
    assert(codes("POST"@).len() == 4);
    assert(codes("PUT"@).len() == 3);
    assert(codes("PATCH"@).len() == 5);
}

/// The `full` preset grants every method on every path.
pub proof fn law_full_preset(endpoint: EndpointView, action: ActionView, view: MaximumView)
    requires
        endpoint.access == "full"@,
    ensures
        rest_allows(endpoint, action, view),
{
    reveal_strlit("read-only");
    reveal_strlit("read-write");
    reveal_strlit("full");
    assert("full"@.len() == 4);
    law_any_text_matches('/', action.path);
}

/// Without a preset, an action is granted by an allow rule whose path matches (an empty
/// one matches every path), and whose method is `*`, or GET for GET and HEAD, or the
/// action's own, whatever the case that it is written in. A rule that needs review grants
/// nothing to those who go without review.
pub proof fn law_allow_rules(endpoint: EndpointView, action: ActionView, view: MaximumView)
    requires
        endpoint.access.len() == 0,
    ensures
        rest_allows(endpoint, action, view) <==> exists|i: int| {
            let rule = #[trigger] endpoint.rules[i];
            &&& 0 <= i < endpoint.rules.len()
            &&& !(rule.review.required && view == MaximumView::AutoEligible)
            &&& rule.method.len() > 0
            &&& rule.path.len() == 0 || glob_matches(rule.path, '/', action.path)
            &&& ({
                ||| rule.method == "*"@
                ||| text::lower(rule.method) == "get"@ && (action.method == codes("GET"@)
                    || action.method == codes("HEAD"@))
                ||| text::lower(rule.method) != "get"@ && action.method == denoted(
                    text::upper(rule.method),
                )
            })
        },
{
    reveal_strlit("read-only");
    reveal_strlit("read-write");
    reveal_strlit("full");
    lemma_method_names();
    law_any_text_matches('/', action.path);
    assert forall|i: int| 0 <= i < endpoint.rules.len() implies (envelope::allow_covers(
        #[trigger] endpoint.rules[i],
        action,
        view,
    ) <==> ({
        let rule = endpoint.rules[i];
        &&& !(rule.review.required && view == MaximumView::AutoEligible)
        &&& rule.method.len() > 0
        &&& rule.path.len() == 0 || glob_matches(rule.path, '/', action.path)
        &&& ({
            ||| rule.method == "*"@
            ||| text::lower(rule.method) == "get"@ && (action.method == codes("GET"@)
                || action.method == codes("HEAD"@))
            ||| text::lower(rule.method) != "get"@ && action.method == denoted(
                text::upper(rule.method),
            )
        })
    })) by {
        lemma_rule_methods(endpoint.rules[i].method, action);
    }
}

proof fn lemma_rule_methods(method: Seq<char>, action: ActionView)
    ensures
        envelope::method_among(envelope::rule_methods(method), action) <==> ({
            ||| text::lower(method) == "get"@ && (action.method == codes("GET"@) || action.method
                == codes("HEAD"@))
            ||| text::lower(method) != "get"@ && action.method == denoted(text::upper(method))
        }),
{
    lemma_method_names();
    let list = envelope::rule_methods(method);
    if text::lower(method) == "get"@ {
        assert(list[0] == "GET"@ && list[1] == "HEAD"@);
    } else {
        assert(list[0] == method);
    }
}

/// A deny rule takes away what its path matches (an empty one matches every path) and its
/// method names: all for `*`, GET and HEAD for GET, and otherwise its own.
pub proof fn law_deny_rules(rule: L7DenyRuleView, action: ActionView)
    ensures
        deny_covers(rule, action) <==> {
            &&& rule.method.len() > 0
            &&& rule.path.len() == 0 || glob_matches(rule.path, '/', action.path)
            &&& ({
                ||| rule.method == "*"@
                ||| text::lower(rule.method) == "get"@ && (action.method == codes("GET"@)
                    || action.method == codes("HEAD"@))
                ||| text::lower(rule.method) != "get"@ && action.method == denoted(
                    text::upper(rule.method),
                )
            })
        },
{
    law_any_text_matches('/', action.path);
    lemma_rule_methods(rule.method, action);
}

// ---------------------------------------------------------------------------
// Endpoints and policies
// ---------------------------------------------------------------------------

/// An endpoint listens on each of its listed ports, or on its single port where it lists
/// none and that is not zero, and on no other.
pub proof fn law_ports(endpoint: EndpointView, port: u16)
    ensures
        endpoint.effective_ports().contains(port) <==> if endpoint.ports.len() > 0 {
            endpoint.ports.contains(port)
        } else {
            port == endpoint.port && port != 0
        },
{
    if endpoint.ports.len() == 0 && endpoint.port > 0 {
        assert(endpoint.effective_ports()[0] == endpoint.port);
    }
}

/// An endpoint without a protocol grants every action on its host and ports, and nothing
/// elsewhere.
pub proof fn law_l4_endpoint(endpoint: EndpointView, action: ActionView, view: MaximumView)
    requires
        text::trimmed(endpoint.protocol).len() == 0,
    ensures
        endpoint_allows(endpoint, action, view) <==> {
            &&& !(endpoint.review.required && view == MaximumView::AutoEligible)
            &&& exists|port: u16| #[trigger]
                endpoint.effective_ports().contains(port) && action.port == port
            &&& glob_matches(text::lower(endpoint.host), '.', action.host)
        },
{
    reveal_strlit("");
    assert(text::lower(text::trimmed(endpoint.protocol)) =~= ""@);
    lemma_connects(endpoint, action);
}

proof fn lemma_connects(endpoint: EndpointView, action: ActionView)
    ensures
        envelope::connects(endpoint, action) <==> {
            &&& exists|port: u16| #[trigger]
                endpoint.effective_ports().contains(port) && action.port == port
            &&& glob_matches(text::lower(endpoint.host), '.', action.host)
        },
{
    let ports = endpoint.effective_ports();
    if exists|port: u16| #[trigger] ports.contains(port) && action.port == port {
        let port = choose|port: u16| #[trigger] ports.contains(port) && action.port == port;
        let i = choose|i: int| 0 <= i < ports.len() && ports[i] == port;
        assert(action.port == ports[i]);
    }
    if exists|i: int| 0 <= i < ports.len() && action.port == #[trigger] ports[i] {
        let i = choose|i: int| 0 <= i < ports.len() && action.port == #[trigger] ports[i];
        assert(ports.contains(ports[i]));
    }
}

/// An endpoint with the protocol `rest` grants requests only: on its host and ports, where
/// its own path matches (an empty one matches every path) and its preset or rules grant
/// them. Any other protocol grants nothing.
pub proof fn law_rest_endpoint(endpoint: EndpointView, action: ActionView, view: MaximumView)
    requires
        text::trimmed(endpoint.protocol).len() > 0,
    ensures
        endpoint_allows(endpoint, action, view) <==> {
            &&& text::lower(text::trimmed(endpoint.protocol)) == "rest"@
            &&& !(endpoint.review.required && view == MaximumView::AutoEligible)
            &&& exists|port: u16| #[trigger]
                endpoint.effective_ports().contains(port) && action.port == port
            &&& glob_matches(text::lower(endpoint.host), '.', action.host)
            &&& action.layer == codes("rest"@)
            &&& endpoint.path.len() == 0 || glob_matches(endpoint.path, '/', action.path)
            &&& rest_allows(endpoint, action, view)
        },
{
    reveal_strlit("");
    assert(text::lower(text::trimmed(endpoint.protocol)).len() > 0);
    law_any_text_matches('/', action.path);
    lemma_connects(endpoint, action);
}

/// An endpoint takes away the requests on its host, ports and path that one of its deny
/// rules names, where its protocol is `rest`.
pub proof fn law_denied_requests(endpoint: EndpointView, action: ActionView)
    ensures
        endpoint_denies(endpoint, action) <==> {
            &&& text::lower(endpoint.protocol) == "rest"@
            &&& exists|port: u16| #[trigger]
                endpoint.effective_ports().contains(port) && action.port == port
            &&& glob_matches(text::lower(endpoint.host), '.', action.host)
            &&& action.layer == codes("rest"@)
            &&& endpoint.path.len() == 0 || glob_matches(endpoint.path, '/', action.path)
            &&& exists|i: int|
                0 <= i < endpoint.deny_rules.len() && deny_covers(
                    #[trigger] endpoint.deny_rules[i],
                    action,
                )
        },
{
    law_any_text_matches('/', action.path);
    lemma_connects(endpoint, action);
}

/// A policy that allows an action has a rule with a binary that runs it and an endpoint
/// that grants it, and no rule with a binary that runs it and an endpoint that denies it.
pub proof fn law_allowed_actions(policy: PolicyView, action: ActionView, view: MaximumView)
    requires
        policy_allows(policy, action, view),
    ensures
        exists|r: int, b: int, e: int|
            0 <= r < policy.network_policies.len() && 0 <= b
                < policy.network_policies[r].1.binaries.len() && 0 <= e
                < policy.network_policies[r].1.endpoints.len() && glob_matches(
                (#[trigger] policy.network_policies[r].1.binaries[b]).path,
                '/',
                action.binary,
            ) && endpoint_allows(
                #[trigger] policy.network_policies[r].1.endpoints[e],
                action,
                view,
            ),
        forall|r: int, b: int, e: int|
            0 <= r < policy.network_policies.len() && 0 <= b
                < policy.network_policies[r].1.binaries.len() && 0 <= e
                < policy.network_policies[r].1.endpoints.len() && glob_matches(
                (#[trigger] policy.network_policies[r].1.binaries[b]).path,
                '/',
                action.binary,
            ) ==> !endpoint_denies(
                #[trigger] policy.network_policies[r].1.endpoints[e],
                action,
            ),
{
    let list = policy.network_policies;
    let r = choose|i: int|
        0 <= i < list.len() && envelope::rule_allows((#[trigger] list[i]).1, action, view);
    let rule = list[r].1;
    let b = choose|b: int|
        0 <= b < rule.binaries.len() && glob_matches(
            (#[trigger] rule.binaries[b]).path,
            '/',
            action.binary,
        );
    let e = choose|e: int|
        0 <= e < rule.endpoints.len() && endpoint_allows(
            #[trigger] rule.endpoints[e],
            action,
            view,
        );
    assert(glob_matches(list[r].1.binaries[b].path, '/', action.binary));
    assert(endpoint_allows(list[r].1.endpoints[e], action, view));
    assert forall|r: int, b: int, e: int|
        0 <= r < list.len() && 0 <= b < list[r].1.binaries.len() && 0 <= e
            < list[r].1.endpoints.len() && glob_matches(
            (#[trigger] list[r].1.binaries[b]).path,
            '/',
            action.binary,
        ) implies !endpoint_denies(#[trigger] list[r].1.endpoints[e], action) by {
        if endpoint_denies(list[r].1.endpoints[e], action) {
            assert(envelope::rule_denies(list[r].1, action));
        }
    }
}

/// An action that a binary runs and an endpoint of the same rule grants is allowed, unless
/// an endpoint denies it in a rule with a binary that runs it.
pub proof fn law_granted_actions(
    policy: PolicyView,
    action: ActionView,
    view: MaximumView,
    r: int,
    b: int,
    e: int,
)
    requires
        0 <= r < policy.network_policies.len(),
        0 <= b < policy.network_policies[r].1.binaries.len(),
        0 <= e < policy.network_policies[r].1.endpoints.len(),
        glob_matches(policy.network_policies[r].1.binaries[b].path, '/', action.binary),
        endpoint_allows(policy.network_policies[r].1.endpoints[e], action, view),
        !policy_allows(policy, action, view),
    ensures
        exists|r: int, b: int, e: int|
            0 <= r < policy.network_policies.len() && 0 <= b
                < policy.network_policies[r].1.binaries.len() && 0 <= e
                < policy.network_policies[r].1.endpoints.len() && glob_matches(
                (#[trigger] policy.network_policies[r].1.binaries[b]).path,
                '/',
                action.binary,
            ) && endpoint_denies(#[trigger] policy.network_policies[r].1.endpoints[e], action),
{
    let list = policy.network_policies;
    assert(envelope::rule_allows(list[r].1, action, view));
    let d = choose|i: int|
        0 <= i < list.len() && envelope::rule_denies((#[trigger] list[i]).1, action);
    let rule = list[d].1;
    let c = choose|b: int|
        0 <= b < rule.binaries.len() && glob_matches(
            (#[trigger] rule.binaries[b]).path,
            '/',
            action.binary,
        );
    let f = choose|e: int|
        0 <= e < rule.endpoints.len() && endpoint_denies(#[trigger] rule.endpoints[e], action);
    assert(glob_matches(list[d].1.binaries[c].path, '/', action.binary));
    assert(endpoint_denies(list[d].1.endpoints[f], action));
}

// ---------------------------------------------------------------------------
// Checks
// ---------------------------------------------------------------------------

/// The actions that a check looks at: those of a binary with an absolute path, on a port,
/// on one of two layers, with a method and an absolute request path.
pub proof fn law_checked_actions(action: ActionView)
    ensures
        in_domain(action) <==> {
            &&& action.binary.len() > 0 && action.binary[0] == 47
            &&& 1 <= action.port <= 65535
            &&& action.layer == codes("l4"@) || action.layer == codes("rest"@)
            &&& action.method.len() > 0
            &&& action.path.len() > 0 && action.path[0] == 47
        },
{
    reveal_strlit("/");
    reveal_strlit("/**");
    let pattern = "/**"@;
    let rest = pattern.skip(1);
    assert(pattern[0] == '/' && rest[0] == '*' && rest[1] == '*');
    assert(rest.skip(2) =~= Seq::empty());
    assert(pieces(rest.skip(2)) =~= Seq::empty());
    let tail = pieces(rest);
    assert(tail =~= seq![GlobPiece::AnyText]);
    let list = pieces(pattern);
    assert(list[0] == GlobPiece::Literal('/'));
    assert(list.skip(1) =~= tail);
    assert(is_plain(seq!['/']));
    let slash = denoted(seq!['/']);
    assert(slash =~= seq![47u32]);
    let binary = action.binary;
    if glob_matches(pattern, '/', binary) {
        let k = choose|k: int|
            0 <= k <= binary.len() && crate::prover::glob::piece_accepts(
                list[0],
                '/',
                #[trigger] binary.take(k),
            ) && accepts(list.skip(1), '/', binary.skip(k));
        assert(binary.take(k) == slash);
        assert(binary.take(k)[0] == binary[0]);
    }
    if binary.len() > 0 && binary[0] == 47 {
        let more = binary.skip(1);
        assert(binary.take(1) =~= slash);
        assert(crate::prover::glob::piece_accepts(list[0], '/', binary.take(1)));
        assert(tail.skip(1) =~= Seq::empty());
        assert(more.skip(more.len() as int).len() == 0);
        assert(crate::prover::glob::piece_accepts(tail[0], '/', more.take(more.len() as int)));
        assert(accepts(tail.skip(1), '/', more.skip(more.len() as int)));
        assert(accepts(list.skip(1), '/', binary.skip(1)));
    }
    let begin = codes("/"@);
    assert(begin =~= seq![47u32]);
    if begin.is_prefix_of(action.path) {
        assert(action.path.subrange(0, 1)[0] == action.path[0]);
    }
    if action.path.len() > 0 && action.path[0] == 47 {
        assert(begin =~= action.path.subrange(0, 1));
    }
}

/// Where a check finds a policy within a maximum, the maximum allows every action that the
/// policy does, where the texts of both are printable ASCII.
pub proof fn law_within_maximum(
    maximum: PolicyView,
    candidate: PolicyView,
    view: MaximumView,
    action: ActionView,
)
    requires
        envelope::policy_is_printable(maximum),
        envelope::policy_is_printable(candidate),
        check_fits(maximum, candidate, view, CheckView::WithinMax),
        policy_allows(candidate, action, MaximumView::All),
        action.binary.len() > 0,
        action.binary[0] == 47,
        1 <= action.port <= 65535,
        action.layer == codes("l4"@) || action.layer == codes("rest"@),
        action.method.len() > 0,
        action.path.len() > 0,
        action.path[0] == 47,
        forall|i: int| 0 <= i < action.binary.len() ==> #[trigger] action.binary[i] <= 0x2ffff,
        forall|i: int| 0 <= i < action.host.len() ==> #[trigger] action.host[i] <= 0x2ffff,
        forall|i: int| 0 <= i < action.method.len() ==> #[trigger] action.method[i] <= 0x2ffff,
        forall|i: int| 0 <= i < action.path.len() ==> #[trigger] action.path[i] <= 0x2ffff,
    ensures
        policy_allows(maximum, action, view),
{
    law_checked_actions(action);
    reveal_strlit("l4");
    reveal_strlit("rest");
    assert(envelope::action_over_alphabet(action));
}

/// A network counterexample shows an action that the policy allows and the maximum does
/// not, where the texts of both are printable ASCII.
pub proof fn law_counterexamples_exceed(
    maximum: PolicyView,
    candidate: PolicyView,
    view: MaximumView,
    check: CheckView,
)
    requires
        envelope::policy_is_printable(maximum),
        envelope::policy_is_printable(candidate),
        check_fits(maximum, candidate, view, check),
        check is ExceedsMax,
        filesystem_verdict(maximum, candidate) is None,
    ensures
        exists|action: ActionView| {
            &&& #[trigger] policy_allows(candidate, action, MaximumView::All)
            &&& !policy_allows(maximum, action, view)
            &&& action.port == check->counterexample.port
            &&& !check->counterexample.binary.contains('\\') ==> action.binary == codes(
                check->counterexample.binary,
            )
            &&& !check->counterexample.host.contains('\\') ==> action.host == codes(
                check->counterexample.host,
            )
            &&& check->counterexample.protocol != "l4"@ && !check->counterexample.method.contains(
                '\\',
            ) ==> action.method == codes(check->counterexample.method)
            &&& check->counterexample.protocol != "l4"@ && !check->counterexample.path.contains(
                '\\',
            ) ==> action.path == codes(check->counterexample.path)
        },
{
    let shown = check->counterexample;
    let action = choose|action: ActionView|
        envelope::depicts(shown, action) && #[trigger] envelope::is_excess(
            maximum,
            candidate,
            view,
            action,
        );
    if !shown.binary.contains('\\') {
        law_plain_text_is_written_as_it_is(shown.binary, action.binary);
    }
    if !shown.host.contains('\\') {
        law_plain_text_is_written_as_it_is(shown.host, action.host);
    }
    if shown.protocol != "l4"@ {
        if !shown.method.contains('\\') {
            law_plain_text_is_written_as_it_is(shown.method, action.method);
        }
        if !shown.path.contains('\\') {
            law_plain_text_is_written_as_it_is(shown.path, action.path);
        }
    }
    assert(policy_allows(candidate, action, MaximumView::All));
}

/// Only an answer that nothing satisfies the formula of the actions outside the maximum
/// puts a policy within it. Of a satisfying action, a request is shown with its method and
/// path, and an L4 connection without.
pub proof fn law_answers(answer: Answer)
    ensures
        conclusion(answer) is WithinMax <==> answer is Unsatisfiable,
        conclusion(answer) matches CheckView::ExceedsMax { counterexample } ==> {
            &&& answer matches Answer::Satisfied { texts, number }
            &&& texts.deep_view()[0] == Some(counterexample.binary)
            &&& texts.deep_view()[1] == Some(counterexample.host)
            &&& texts.deep_view()[2] == Some(counterexample.protocol)
            &&& number == Some(counterexample.port as u64)
            &&& counterexample.protocol == "l4"@ ==> counterexample.method.len() == 0
                && counterexample.path.len() == 0
            &&& counterexample.protocol != "l4"@ ==> texts.deep_view()[3] == Some(
                counterexample.method,
            ) && texts.deep_view()[4] == Some(counterexample.path)
        },
{
}

/// A check that finds a policy within a maximum, or to exceed it, has looked at two
/// policies that it models.
pub proof fn law_unmodelled_policies_fail_closed(
    maximum: PolicyView,
    candidate: PolicyView,
    view: MaximumView,
    check: CheckView,
)
    requires
        check_fits(maximum, candidate, view, check),
        unsupported("maximum"@, maximum) is Some || unsupported("candidate"@, candidate) is Some,
    ensures
        check is Unsupported,
{
}

/// Filesystem authority outside the maximum is never found within it.
pub proof fn law_filesystem_excess_is_found(
    maximum: PolicyView,
    candidate: PolicyView,
    view: MaximumView,
    check: CheckView,
)
    requires
        check_fits(maximum, candidate, view, check),
        filesystem_verdict(maximum, candidate) is Some,
    ensures
        !(check is WithinMax),
{
}

// ---------------------------------------------------------------------------
// Filesystem authority
// ---------------------------------------------------------------------------

/// A path stands below a root where it is the root, or goes on from the root, without the
/// slashes at its end, with a slash. `/usr2` does not stand below `/usr`.
pub proof fn law_below(path: Seq<char>, root: Seq<char>)
    ensures
        path_below(path, root) <==> path == root || exists|n: int| {
            &&& 0 <= n <= root.len()
            &&& n == 0 || root[n - 1] != '/'
            &&& forall|i: int| n <= i < root.len() ==> root[i] == '/'
            &&& path.len() > n
            &&& #[trigger] path.take(n) == root.take(n)
            &&& path[n] == '/'
        },
{
    envelope::lemma_slashes_stem(root);
    let stem = envelope::without_end_slashes(root);
    let m = stem.len() as int;
    let begin = stem.push('/');
    if text::starts_with(path, begin) {
        assert(path.take(m + 1) == begin);
        assert(path[m] == path.take(m + 1)[m]);
        assert(path.take(m) =~= begin.take(m));
        assert(begin.take(m) =~= stem);
        assert(path.take(m) == root.take(m));
        if m > 0 {
            assert(root[m - 1] == root.take(m)[m - 1]);
            assert(stem.last() == stem[m - 1]);
        }
    }
    if exists|n: int| {
        &&& 0 <= n <= root.len()
        &&& n == 0 || root[n - 1] != '/'
        &&& forall|i: int| n <= i < root.len() ==> root[i] == '/'
        &&& path.len() > n
        &&& #[trigger] path.take(n) == root.take(n)
        &&& path[n] == '/'
    } {
        let n = choose|n: int| {
            &&& 0 <= n <= root.len()
            &&& n == 0 || root[n - 1] != '/'
            &&& forall|i: int| n <= i < root.len() ==> root[i] == '/'
            &&& path.len() > n
            &&& #[trigger] path.take(n) == root.take(n)
            &&& path[n] == '/'
        };
        if n < m {
            assert(root[m - 1] == '/');
            assert(root[m - 1] == root.take(m)[m - 1]);
            assert(stem.last() == stem[m - 1]);
        }
        if m < n {
            assert(root[n - 1] == '/');
        }
        assert(n == m);
        assert(path.take(m + 1) =~= begin);
    }
}

/// A policy may write the paths that it lists, and `/sandbox` where it takes in the working
/// directory, and no others.
pub proof fn law_writable_paths(policy: PolicyView, path: Seq<char>)
    ensures
        envelope::write_paths(policy).contains(path) <==> policy.filesystem_policy.read_write.contains(
            path,
        ) || policy.filesystem_policy.include_workdir && path == "/sandbox"@,
{
    let listed = policy.filesystem_policy.read_write;
    let all = envelope::write_paths(policy);
    if policy.filesystem_policy.include_workdir && !listed.contains("/sandbox"@) {
        assert(all[listed.len() as int] == "/sandbox"@);
        assert forall|p: Seq<char>| listed.contains(p) implies all.contains(p) by {
            let i = choose|i: int| 0 <= i < listed.len() && listed[i] == p;
            assert(all[i] == p);
        }
        if all.contains(path) {
            let i = choose|i: int| 0 <= i < all.len() && all[i] == path;
            if i < listed.len() {
                assert(listed[i] == path);
            }
        }
    }
}

/// Filesystem authority is within a maximum exactly where every path that may be written
/// stands below one that the maximum lets be written, and every path that may only be read
/// below one that the maximum lets be read or written.
pub proof fn law_filesystem_within(maximum: PolicyView, candidate: PolicyView)
    ensures
        filesystem_verdict(maximum, candidate) is None <==> {
            &&& forall|path: Seq<char>| #[trigger]
                envelope::write_paths(candidate).contains(path) ==> exists|root: Seq<char>|
                    envelope::write_paths(maximum).contains(root) && #[trigger] path_below(
                        path,
                        root,
                    )
            &&& forall|path: Seq<char>| #[trigger]
                candidate.filesystem_policy.read_only.contains(path) ==> exists|root: Seq<char>|
                    (maximum.filesystem_policy.read_only.contains(root) || envelope::write_paths(
                        maximum,
                    ).contains(root)) && #[trigger] path_below(path, root)
        },
{
    let written = envelope::write_paths(candidate);
    let top = envelope::write_paths(maximum);
    let read = candidate.filesystem_policy.read_only;
    let listed = maximum.filesystem_policy.read_only;
    let all = envelope::read_roots(maximum);
    envelope::lemma_all_covered(written, top);
    envelope::lemma_all_covered(read, all);
    assert forall|root: Seq<char>| #[trigger]
        all.contains(root) <==> listed.contains(root) || top.contains(root) by {
        if listed.contains(root) {
            let i = choose|i: int| 0 <= i < listed.len() && listed[i] == root;
            assert(all[i] == root);
        }
        if top.contains(root) {
            let i = choose|i: int| 0 <= i < top.len() && top[i] == root;
            assert(all[listed.len() + i] == root);
        }
        if all.contains(root) {
            let i = choose|i: int| 0 <= i < all.len() && all[i] == root;
            if i < listed.len() {
                assert(listed[i] == root);
            } else {
                assert(top[i - listed.len()] == root);
            }
        }
    }
    lemma_covered_paths(written, top);
    lemma_covered_paths(read, all);
    assert forall|path: Seq<char>| #[trigger] read.contains(path) implies ((exists|root: Seq<char>|
        all.contains(root) && #[trigger] path_below(path, root)) <==> (exists|root: Seq<char>|
        (listed.contains(root) || top.contains(root)) && #[trigger] path_below(path, root))) by {
        if exists|root: Seq<char>| all.contains(root) && #[trigger] path_below(path, root) {
            let root = choose|root: Seq<char>|
                all.contains(root) && #[trigger] path_below(path, root);
            assert(listed.contains(root) || top.contains(root));
        }
        if exists|root: Seq<char>|
            (listed.contains(root) || top.contains(root)) && #[trigger] path_below(path, root) {
            let root = choose|root: Seq<char>|
                (listed.contains(root) || top.contains(root)) && #[trigger] path_below(path, root);
            assert(all.contains(root));
        }
    }
}

proof fn lemma_covered_paths(paths: Seq<Seq<char>>, roots: Seq<Seq<char>>)
    ensures
        (forall|i: int| 0 <= i < paths.len() ==> envelope::path_covered(#[trigger] paths[i], roots))
            <==> forall|path: Seq<char>| #[trigger]
            paths.contains(path) ==> exists|root: Seq<char>|
                roots.contains(root) && #[trigger] path_below(path, root),
{
    assert forall|path: Seq<char>| #[trigger] envelope::path_covered(path, roots) <==> exists|
        root: Seq<char>,
    |
        roots.contains(root) && #[trigger] path_below(path, root) by {
        if envelope::path_covered(path, roots) {
            let i = choose|i: int| 0 <= i < roots.len() && path_below(path, #[trigger] roots[i]);
            assert(roots.contains(roots[i]));
        }
        if exists|root: Seq<char>| roots.contains(root) && #[trigger] path_below(path, root) {
            let root = choose|root: Seq<char>|
                roots.contains(root) && #[trigger] path_below(path, root);
            let i = choose|i: int| 0 <= i < roots.len() && roots[i] == root;
            assert(path_below(path, roots[i]));
        }
    }
    if forall|i: int| 0 <= i < paths.len() ==> envelope::path_covered(#[trigger] paths[i], roots) {
        assert forall|path: Seq<char>| #[trigger] paths.contains(path) implies exists|
            root: Seq<char>,
        |
            roots.contains(root) && #[trigger] path_below(path, root) by {
            let i = choose|i: int| 0 <= i < paths.len() && paths[i] == path;
            assert(envelope::path_covered(paths[i], roots));
        }
    }
    if forall|path: Seq<char>| #[trigger]
        paths.contains(path) ==> exists|root: Seq<char>|
            roots.contains(root) && #[trigger] path_below(path, root) {
        assert forall|i: int| 0 <= i < paths.len() implies envelope::path_covered(
            #[trigger] paths[i],
            roots,
        ) by {
            assert(paths.contains(paths[i]));
        }
    }
}

/// A filesystem counterexample names a path that the policy has and no root of the maximum
/// covers. A path that may not be written is reported before one that may not be read.
pub proof fn law_filesystem_counterexamples(maximum: PolicyView, candidate: PolicyView)
    ensures
        filesystem_verdict(maximum, candidate) matches Some(shown) ==> {
            &&& shown.protocol == "filesystem"@
            &&& shown.method == "write"@ || shown.method == "read"@
            &&& shown.method == "write"@ ==> envelope::write_paths(candidate).contains(shown.path)
                && forall|root: Seq<char>|
                envelope::write_paths(maximum).contains(root) ==> !#[trigger] path_below(
                    shown.path,
                    root,
                )
            &&& shown.method == "read"@ ==> candidate.filesystem_policy.read_only.contains(
                shown.path,
            ) && forall|root: Seq<char>|
                (maximum.filesystem_policy.read_only.contains(root) || envelope::write_paths(
                    maximum,
                ).contains(root)) ==> !#[trigger] path_below(shown.path, root)
            &&& shown.method == "read"@ ==> forall|path: Seq<char>| #[trigger]
                envelope::write_paths(candidate).contains(path) ==> exists|root: Seq<char>|
                    envelope::write_paths(maximum).contains(root) && #[trigger] path_below(
                        path,
                        root,
                    )
        },
{
    reveal_strlit("write");
    reveal_strlit("read");
    assert("write"@.len() != "read"@.len());
    let written = envelope::write_paths(candidate);
    let top = envelope::write_paths(maximum);
    let read = candidate.filesystem_policy.read_only;
    let listed = maximum.filesystem_policy.read_only;
    let all = envelope::read_roots(maximum);
    lemma_first_uncovered(written, top);
    lemma_first_uncovered(read, all);
    envelope::lemma_all_covered(written, top);
    lemma_covered_paths(written, top);
    assert forall|root: Seq<char>| listed.contains(root) || top.contains(root) implies #[trigger]
        all.contains(root) by {
        if listed.contains(root) {
            let i = choose|i: int| 0 <= i < listed.len() && listed[i] == root;
            assert(all[i] == root);
        } else {
            let i = choose|i: int| 0 <= i < top.len() && top[i] == root;
            assert(all[listed.len() + i] == root);
        }
    }
}

proof fn lemma_first_uncovered(paths: Seq<Seq<char>>, roots: Seq<Seq<char>>)
    ensures
        envelope::first_uncovered(paths, roots) matches Some(path) ==> paths.contains(path)
            && forall|root: Seq<char>|
            roots.contains(root) ==> !#[trigger] path_below(path, root),
    decreases paths.len(),
{
    if paths.len() > 0 {
        let rest = paths.skip(1);
        lemma_first_uncovered(rest, roots);
        if !envelope::path_covered(paths[0], roots) {
            assert(paths.contains(paths[0]));
            assert forall|root: Seq<char>| roots.contains(root) implies !#[trigger] path_below(
                paths[0],
                root,
            ) by {
                let i = choose|i: int| 0 <= i < roots.len() && roots[i] == root;
                assert(!path_below(paths[0], roots[i]));
            }
        } else if envelope::first_uncovered(paths, roots) is Some {
            let path = envelope::first_uncovered(paths, roots)->0;
            let i = choose|i: int| 0 <= i < rest.len() && rest[i] == path;
            assert(paths[i + 1] == path);
        }
    }
}

// ---------------------------------------------------------------------------
// What is modelled
// ---------------------------------------------------------------------------

proof fn lemma_no_problem(findings: Seq<Option<Seq<char>>>)
    ensures
        first_problem(findings) is None <==> forall|i: int|
            0 <= i < findings.len() ==> #[trigger] findings[i] is None,
    decreases findings.len(),
{
    if findings.len() > 0 {
        let rest = findings.skip(1);
        lemma_no_problem(rest);
        if findings[0] is None {
            if first_problem(rest) is None {
                assert forall|i: int| 0 <= i < findings.len() implies #[trigger] findings[i]
                    is None by {
                    if i > 0 {
                        assert(rest[i - 1] == findings[i]);
                    }
                }
            } else {
                let i = choose|i: int| 0 <= i < rest.len() && !(#[trigger] rest[i] is None);
                assert(findings[i + 1] == rest[i]);
            }
        }
    }
}

/// Patterns are modelled where they hold none of the six characters of richer glob syntax.
pub proof fn law_modelled_patterns(pattern: Seq<char>)
    ensures
        envelope::unmodelled_glob(pattern) <==> pattern.contains('?') || pattern.contains('[')
            || pattern.contains(']') || pattern.contains('{') || pattern.contains('}')
            || pattern.contains('\\'),
{
    if envelope::unmodelled_glob(pattern) {
        let i = choose|i: int|
            0 <= i < pattern.len() && envelope::is_unmodelled(#[trigger] pattern[i]);
        assert(pattern.contains(pattern[i]));
    }
}

/// A policy is modelled exactly where it, its filesystem part and its rules have no
/// unknown fields, and each of the endpoints and binaries of its rules is modelled.
pub proof fn law_modelled_policies(prefix: Seq<char>, policy: PolicyView)
    ensures
        unsupported(prefix, policy) is None <==> {
            &&& policy.extra_fields.len() == 0
            &&& policy.filesystem_policy.extra_fields.len() == 0
            &&& forall|r: int|
                0 <= r < policy.network_policies.len() ==> (#[trigger] policy.network_policies[r]).1.extra_fields.len()
                    == 0
            &&& forall|r: int, e: int|
                0 <= r < policy.network_policies.len() && 0 <= e
                    < policy.network_policies[r].1.endpoints.len() ==> envelope::endpoint_problem(
                    envelope::rule_context(prefix, policy.network_policies[r].0),
                    #[trigger] policy.network_policies[r].1.endpoints[e],
                ) is None
            &&& forall|r: int, b: int|
                0 <= r < policy.network_policies.len() && 0 <= b
                    < policy.network_policies[r].1.binaries.len() ==> (#[trigger] policy.network_policies[r].1.binaries[b]).extra_fields.len()
                    == 0 && !envelope::unmodelled_glob(
                    policy.network_policies[r].1.binaries[b].path,
                )
        },
{
    let list = policy.network_policies;
    let findings = Seq::new(list.len(), |i: int| envelope::rule_problem(prefix, list[i]));
    lemma_no_problem(findings);
    assert forall|r: int| 0 <= r < list.len() implies (#[trigger] findings[r] is None <==> {
        &&& list[r].1.extra_fields.len() == 0
        &&& forall|e: int|
            0 <= e < list[r].1.endpoints.len() ==> envelope::endpoint_problem(
                envelope::rule_context(prefix, list[r].0),
                #[trigger] list[r].1.endpoints[e],
            ) is None
        &&& forall|b: int|
            0 <= b < list[r].1.binaries.len() ==> (#[trigger] list[r].1.binaries[b]).extra_fields.len()
                == 0 && !envelope::unmodelled_glob(list[r].1.binaries[b].path)
    }) by {
        let context = envelope::rule_context(prefix, list[r].0);
        let rule = list[r].1;
        let first = Seq::new(
            rule.endpoints.len(),
            |i: int| envelope::endpoint_problem(context, rule.endpoints[i]),
        );
        let second = Seq::new(
            rule.binaries.len(),
            |i: int| envelope::binary_problem(context, rule.binaries[i]),
        );
        lemma_no_problem(first);
        lemma_no_problem(second);
        assert forall|e: int| 0 <= e < rule.endpoints.len() implies #[trigger] first[e]
            == envelope::endpoint_problem(context, rule.endpoints[e]) by {}
        assert forall|b: int| 0 <= b < rule.binaries.len() implies #[trigger] second[b]
            == envelope::binary_problem(context, rule.binaries[b]) by {}
        if forall|e: int| 0 <= e < rule.endpoints.len() ==> envelope::endpoint_problem(
            context,
            #[trigger] rule.endpoints[e],
        ) is None {
            assert forall|e: int| 0 <= e < first.len() implies #[trigger] first[e] is None by {
                assert(envelope::endpoint_problem(context, rule.endpoints[e]) is None);
            }
        }
        if first_problem(first) is None {
            assert forall|e: int| 0 <= e < rule.endpoints.len() implies envelope::endpoint_problem(
                context,
                #[trigger] rule.endpoints[e],
            ) is None by {
                assert(first[e] is None);
            }
        }
        if forall|b: int|
            0 <= b < rule.binaries.len() ==> (#[trigger] rule.binaries[b]).extra_fields.len() == 0
                && !envelope::unmodelled_glob(rule.binaries[b].path) {
            assert forall|b: int| 0 <= b < second.len() implies #[trigger] second[b] is None by {
                assert(rule.binaries[b].extra_fields.len() == 0);
            }
        }
        if first_problem(second) is None {
            assert forall|b: int| 0 <= b < rule.binaries.len() implies (#[trigger] rule.binaries[b]).extra_fields.len()
                == 0 && !envelope::unmodelled_glob(rule.binaries[b].path) by {
                assert(second[b] is None);
            }
        }
    }
    if unsupported(prefix, policy) is None {
        assert forall|r: int| 0 <= r < list.len() implies (#[trigger] list[r]).1.extra_fields.len()
            == 0 by {
            assert(findings[r] is None);
        }
        assert forall|r: int, e: int|
            0 <= r < list.len() && 0 <= e < list[r].1.endpoints.len() implies envelope::endpoint_problem(
            envelope::rule_context(prefix, list[r].0),
            #[trigger] list[r].1.endpoints[e],
        ) is None by {
            assert(findings[r] is None);
        }
        assert forall|r: int, b: int|
            0 <= r < list.len() && 0 <= b < list[r].1.binaries.len() implies (#[trigger] list[r].1.binaries[b]).extra_fields.len()
            == 0 && !envelope::unmodelled_glob(list[r].1.binaries[b].path) by {
            assert(findings[r] is None);
        }
    }
}

/// An endpoint is modelled exactly where it names a host and a port, its patterns are
/// modelled, it has no addresses, no TLS behaviour and no unknown fields, its protocol is
/// none or `rest`, and its controls fit its protocol: without a protocol there are none,
/// and `rest` is enforced with either one of three presets or rules of its own.
pub proof fn law_modelled_endpoints(context: Seq<char>, endpoint: EndpointView)
    ensures
        envelope::endpoint_problem(context, endpoint) is None <==> {
            &&& endpoint.host.len() > 0
            &&& endpoint.ports.len() > 0 || endpoint.port > 0
            &&& !envelope::unmodelled_glob(endpoint.host)
            &&& !envelope::unmodelled_glob(endpoint.path)
            &&& endpoint.allowed_ips.len() == 0
            &&& endpoint.extra_fields.len() == 0
            &&& endpoint.review.extra_fields.len() == 0
            &&& endpoint.tls.len() == 0
            &&& text::lower(text::trimmed(endpoint.protocol)).len() == 0 ==> {
                &&& endpoint.path.len() == 0
                &&& endpoint.access.len() == 0
                &&& endpoint.rules.len() == 0
                &&& endpoint.deny_rules.len() == 0
            }
            &&& text::lower(text::trimmed(endpoint.protocol)).len() > 0 ==> {
                &&& text::lower(text::trimmed(endpoint.protocol)) == "rest"@
                &&& endpoint.enforcement == "enforce"@
                &&& endpoint.access.len() == 0 ==> endpoint.rules.len() > 0
                &&& endpoint.access.len() > 0 ==> endpoint.rules.len() == 0 && (endpoint.access
                    == "read-only"@ || endpoint.access == "read-write"@ || endpoint.access
                    == "full"@)
            }
            &&& forall|i: int|
                0 <= i < endpoint.rules.len() ==> {
                    let rule = #[trigger] endpoint.rules[i];
                    &&& rule.method.len() > 0
                    &&& rule.command.len() == 0
                    &&& rule.extra_fields.len() == 0
                    &&& rule.review.extra_fields.len() == 0
                    &&& !envelope::unmodelled_glob(rule.path)
                }
            &&& forall|i: int|
                0 <= i < endpoint.deny_rules.len() ==> {
                    let rule = #[trigger] endpoint.deny_rules[i];
                    &&& rule.method.len() > 0
                    &&& rule.command.len() == 0
                    &&& rule.extra_fields.len() == 0
                    &&& !envelope::unmodelled_glob(rule.path)
                }
        },
{
    reveal_strlit("");
    reveal_strlit("rest");
    let protocol = text::lower(text::trimmed(endpoint.protocol));
    if protocol.len() == 0 {
        assert(protocol =~= ""@);
    }
    let allows = Seq::new(
        endpoint.rules.len(),
        |i: int| envelope::allow_problem(context, endpoint.rules[i]),
    );
    let denies = Seq::new(
        endpoint.deny_rules.len(),
        |i: int| envelope::deny_problem(context, endpoint.deny_rules[i]),
    );
    lemma_no_problem(allows);
    lemma_no_problem(denies);
    if first_problem(allows) is None {
        assert forall|i: int| 0 <= i < endpoint.rules.len() implies envelope::allow_problem(
            context,
            #[trigger] endpoint.rules[i],
        ) is None by {
            assert(allows[i] is None);
        }
    } else {
        let i = choose|i: int| 0 <= i < allows.len() && !(#[trigger] allows[i] is None);
        assert(envelope::allow_problem(context, endpoint.rules[i]) is Some);
    }
    if first_problem(denies) is None {
        assert forall|i: int| 0 <= i < endpoint.deny_rules.len() implies envelope::deny_problem(
            context,
            #[trigger] endpoint.deny_rules[i],
        ) is None by {
            assert(denies[i] is None);
        }
    } else {
        let i = choose|i: int| 0 <= i < denies.len() && !(#[trigger] denies[i] is None);
        assert(envelope::deny_problem(context, endpoint.deny_rules[i]) is Some);
    }
}

// ---------------------------------------------------------------------------
// Patterns
// ---------------------------------------------------------------------------

/// What a pattern matches, from its beginning on: a character matches itself, two stars
/// match any text, and one star matches printable characters up to a separator.
pub proof fn law_patterns(pattern: Seq<char>, separator: char, text: Seq<u32>)
    ensures
        pattern.len() == 0 ==> (glob_matches(pattern, separator, text) <==> text.len() == 0),
        pattern.len() > 0 && pattern[0] != '*' && ' ' <= pattern[0] && pattern[0] <= '~'
            && pattern[0] != '\\' ==> (glob_matches(pattern, separator, text) <==> text.len() > 0
            && text[0] == pattern[0] as u32 && glob_matches(
            pattern.skip(1),
            separator,
            text.skip(1),
        )),
        pattern.len() > 1 && pattern[0] == '*' && pattern[1] == '*' ==> (glob_matches(
            pattern,
            separator,
            text,
        ) <==> exists|k: int|
            0 <= k <= text.len() && glob_matches(
                pattern.skip(2),
                separator,
                #[trigger] text.skip(k),
            )),
        pattern.len() > 0 && pattern[0] == '*' && (pattern.len() == 1 || pattern[1] != '*') ==> (
        glob_matches(pattern, separator, text) <==> exists|k: int| {
            &&& 0 <= k <= text.len()
            &&& forall|i: int|
                0 <= i < k ==> 32 <= #[trigger] text[i] && text[i] <= 126 && text[i]
                    != separator as u32
            &&& glob_matches(pattern.skip(1), separator, #[trigger] text.skip(k))
        }),
{
    let list = pieces(pattern);
    if pattern.len() > 0 && pattern[0] != '*' && ' ' <= pattern[0] && pattern[0] <= '~'
        && pattern[0] != '\\' {
        let c = pattern[0];
        assert(list[0] == GlobPiece::Literal(c));
        assert(list.skip(1) =~= pieces(pattern.skip(1)));
        assert(is_plain(seq![c]));
        let spelled = denoted(seq![c]);
        assert(spelled =~= seq![c as u32]);
        if glob_matches(pattern, separator, text) {
            let k = choose|k: int|
                0 <= k <= text.len() && crate::prover::glob::piece_accepts(
                    list[0],
                    separator,
                    #[trigger] text.take(k),
                ) && accepts(list.skip(1), separator, text.skip(k));
            assert(text.take(k) == spelled);
            assert(text.take(k)[0] == text[0]);
        }
        if text.len() > 0 && text[0] == c as u32 && glob_matches(
            pattern.skip(1),
            separator,
            text.skip(1),
        ) {
            assert(text.take(1) =~= spelled);
            assert(crate::prover::glob::piece_accepts(list[0], separator, text.take(1)));
        }
    }
    if pattern.len() > 1 && pattern[0] == '*' && pattern[1] == '*' {
        assert(list[0] == GlobPiece::AnyText);
        assert(list.skip(1) =~= pieces(pattern.skip(2)));
        if glob_matches(pattern, separator, text) {
            let k = choose|k: int|
                0 <= k <= text.len() && crate::prover::glob::piece_accepts(
                    list[0],
                    separator,
                    #[trigger] text.take(k),
                ) && accepts(list.skip(1), separator, text.skip(k));
            assert(glob_matches(pattern.skip(2), separator, text.skip(k)));
        }
        if exists|k: int|
            0 <= k <= text.len() && glob_matches(
                pattern.skip(2),
                separator,
                #[trigger] text.skip(k),
            ) {
            let k = choose|k: int|
                0 <= k <= text.len() && glob_matches(
                    pattern.skip(2),
                    separator,
                    #[trigger] text.skip(k),
                );
            assert(crate::prover::glob::piece_accepts(list[0], separator, text.take(k)));
        }
    }
    if pattern.len() > 0 && pattern[0] == '*' && (pattern.len() == 1 || pattern[1] != '*') {
        assert(list[0] == GlobPiece::Segment);
        assert(list.skip(1) =~= pieces(pattern.skip(1)));
        if glob_matches(pattern, separator, text) {
            let k = choose|k: int|
                0 <= k <= text.len() && crate::prover::glob::piece_accepts(
                    list[0],
                    separator,
                    #[trigger] text.take(k),
                ) && accepts(list.skip(1), separator, text.skip(k));
            assert forall|i: int| 0 <= i < k implies 32 <= #[trigger] text[i] && text[i] <= 126
                && text[i] != separator as u32 by {
                assert(text.take(k)[i] == text[i]);
            }
            assert(glob_matches(pattern.skip(1), separator, text.skip(k)));
        }
        if exists|k: int| {
            &&& 0 <= k <= text.len()
            &&& forall|i: int|
                0 <= i < k ==> 32 <= #[trigger] text[i] && text[i] <= 126 && text[i]
                    != separator as u32
            &&& glob_matches(pattern.skip(1), separator, #[trigger] text.skip(k))
        } {
            let k = choose|k: int| {
                &&& 0 <= k <= text.len()
                &&& forall|i: int|
                    0 <= i < k ==> 32 <= #[trigger] text[i] && text[i] <= 126 && text[i]
                        != separator as u32
                &&& glob_matches(pattern.skip(1), separator, #[trigger] text.skip(k))
            };
            assert(crate::prover::glob::piece_accepts(list[0], separator, text.take(k)));
        }
    }
}

// ---------------------------------------------------------------------------
// Documents
// ---------------------------------------------------------------------------

/// Every endpoint of a document is modelled with what the document says of it, field by
/// field, and no unknown field is lost.
pub proof fn law_modelled_documents(
    file: PolicyFile,
    rules: Vec<(String, NetworkPolicyRuleDef)>,
    k: int,
    e: int,
)
    requires
        file.network_policies == Some(rules),
        0 <= k < rules@.len(),
        0 <= e < rules@[k].1.endpoints@.len(),
    ensures
        ({
            let model = model_of(file).network_policies;
            let rule = model[k].1;
            let def = rules@[k].1.endpoints@[e];
            let endpoint = rule.endpoints[e];
            &&& model.len() == rules@.len()
            &&& model[k].0 == rules@[k].0@
            &&& rule.name == (match rules@[k].1.name {
                Some(name) => name@,
                None => rules@[k].0@,
            })
            &&& rule.endpoints.len() == rules@[k].1.endpoints@.len()
            &&& rule.extra_fields == rules@[k].1.extra.deep_view()
            &&& endpoint.host == def.host@
            &&& endpoint.path == def.path@
            &&& endpoint.port == def.port
            &&& endpoint.ports == def.ports@
            &&& endpoint.protocol == def.protocol@
            &&& endpoint.tls == def.tls@
            &&& endpoint.enforcement == def.enforcement@
            &&& endpoint.access == def.access@
            &&& endpoint.allowed_ips == def.allowed_ips.deep_view()
            &&& endpoint.extra_fields == def.extra.deep_view()
            &&& endpoint.rules.len() == def.rules@.len()
            &&& endpoint.deny_rules.len() == def.deny_rules@.len()
            &&& endpoint.review.required <==> (def.review matches Some(review) && review.required)
            &&& forall|i: int|
                0 <= i < def.rules@.len() ==> (#[trigger] endpoint.rules[i]).method
                    == def.rules@[i].allow.method@ && endpoint.rules[i].path
                    == def.rules@[i].allow.path@ && endpoint.rules[i].command
                    == def.rules@[i].allow.command@ && (endpoint.rules[i].review.required <==> (
                def.rules@[i].allow.review matches Some(review) && review.required))
            &&& forall|i: int|
                0 <= i < def.deny_rules@.len() ==> (#[trigger] endpoint.deny_rules[i]).method
                    == def.deny_rules@[i].method@ && endpoint.deny_rules[i].path
                    == def.deny_rules@[i].path@ && endpoint.deny_rules[i].command
                    == def.deny_rules@[i].command@ && endpoint.deny_rules[i].extra_fields
                    == def.deny_rules@[i].extra.deep_view()
        }),
{
}

/// Every binary of a document is modelled with its path. The unknown fields of a rule are
/// those of the rule and of its `allow` block.
pub proof fn law_modelled_binaries(
    file: PolicyFile,
    rules: Vec<(String, NetworkPolicyRuleDef)>,
    k: int,
    b: int,
    def: L7RuleDef,
    field: Seq<char>,
)
    requires
        file.network_policies == Some(rules),
        0 <= k < rules@.len(),
        0 <= b < rules@[k].1.binaries@.len(),
    ensures
        model_of(file).network_policies[k].1.binaries.len() == rules@[k].1.binaries@.len(),
        model_of(file).network_policies[k].1.binaries[b].path == rules@[k].1.binaries@[b].path@,
        model_of(file).network_policies[k].1.binaries[b].extra_fields
            == rules@[k].1.binaries@[b].extra.deep_view(),
        rule_of(def).extra_fields.contains(field) <==> def.extra.deep_view().contains(field)
            || def.allow.extra.deep_view().contains(field),
{
    broadcast use vstd::seq_lib::group_seq_properties;

    ordered::law_sorted_unique(def.extra.deep_view() + def.allow.extra.deep_view());
}

/// The rest of a document is modelled as it is. What a document leaves out is nothing: no
/// rules, no paths, no metadata, and the first version.
pub proof fn law_modelled_rest(file: PolicyFile)
    ensures
        file.version matches Some(version) ==> model_of(file).version == version,
        file.version is None ==> model_of(file).version == 1,
        file.network_policies is None ==> model_of(file).network_policies.len() == 0,
        file.filesystem_policy is None ==> !model_of(file).filesystem_policy.include_workdir
            && model_of(file).filesystem_policy.read_only.len() == 0 && model_of(
            file,
        ).filesystem_policy.read_write.len() == 0,
        file.filesystem_policy matches Some(def) ==> model_of(
            file,
        ).filesystem_policy.include_workdir == def.include_workdir && model_of(
            file,
        ).filesystem_policy.read_only == def.read_only.deep_view() && model_of(
            file,
        ).filesystem_policy.read_write == def.read_write.deep_view() && model_of(
            file,
        ).filesystem_policy.extra_fields == def.extra.deep_view(),
        model_of(file).managed_metadata is Some <==> file.metadata is Some,
        file.metadata matches Some(def) ==> (model_of(file).managed_metadata matches Some(metadata)
            && metadata.policy_id == def.policy_id@ && metadata.version == def.version
            && metadata.default_mode == def.default_mode@ && metadata.audit_label
            == def.audit_label@),
{
}

} // verus!
