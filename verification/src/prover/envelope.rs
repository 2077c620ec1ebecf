//! Semantic containment for the managed-maximum surface.
//!
//! The check models filesystem paths, L4 host, port and binary authority, and
//! enforced REST method and path authority. Other network protocols fail
//! closed. What a policy allows is a predicate on concrete actions; a policy is
//! within a maximum where the maximum allows every action that the policy does.

use crate::prover::encoding;
use crate::prover::encoding::action_at;
use crate::prover::glob::glob_matches;
use crate::prover::policy::{
    Binary, BinaryView, Endpoint, EndpointView, L7DenyRule, L7DenyRuleView, L7Rule, L7RuleView,
    NetworkPolicyRule, PolicyModel, PolicyView, RuleView,
};
use crate::prover::solver;
use crate::prover::solver::{
    all_hold, codes, denoted, in_alphabet, is_printable, may_answer, over_alphabet, solutions,
    without_nul, Answer, Codes, Valuation,
};
use crate::text;
use crate::text::{cat2, cat3, cat4};
use vstd::prelude::*;
use z3::ast::Bool;

verus! {

/// Result of proving a candidate policy against a managed maximum.
#[derive(Debug, Clone, PartialEq, Eq)]
pub enum MaximumPolicyCheck {
    WithinMax,
    ExceedsMax { counterexample: Box<PolicyCounterexample> },
    Unsupported { reason: String },
}

/// One concrete L4, REST, or filesystem action outside the maximum.
#[derive(Debug, Clone, PartialEq, Eq)]
pub struct PolicyCounterexample {
    pub binary: String,
    pub host: String,
    pub port: u16,
    pub protocol: String,
    pub method: String,
    pub path: String,
    pub reason: String,
}

/// The content of a counterexample.
pub struct CounterexampleView {
    pub binary: Seq<char>,
    pub host: Seq<char>,
    pub port: u16,
    pub protocol: Seq<char>,
    pub method: Seq<char>,
    pub path: Seq<char>,
    pub reason: Seq<char>,
}

/// The content of a check result.
pub enum CheckView {
    WithinMax,
    ExceedsMax { counterexample: CounterexampleView },
    Unsupported { reason: Seq<char> },
}

impl DeepView for PolicyCounterexample {
    type V = CounterexampleView;

    open spec fn deep_view(&self) -> CounterexampleView {
        CounterexampleView {
            binary: self.binary@,
            host: self.host@,
            port: self.port,
            protocol: self.protocol@,
            method: self.method@,
            path: self.path@,
            reason: self.reason@,
        }
    }
}

impl DeepView for MaximumPolicyCheck {
    type V = CheckView;

    open spec fn deep_view(&self) -> CheckView {
        match self {
            MaximumPolicyCheck::WithinMax => CheckView::WithinMax,
            MaximumPolicyCheck::ExceedsMax { counterexample } => CheckView::ExceedsMax {
                counterexample: counterexample.deep_view(),
            },
            MaximumPolicyCheck::Unsupported { reason } => CheckView::Unsupported {
                reason: reason@,
            },
        }
    }
}

/// Which part of a policy counts: all of it, or what needs no review.
#[derive(Debug, Clone, Copy, PartialEq, Eq, Structural)]
pub enum MaximumView {
    All,
    AutoEligible,
}

// ---------------------------------------------------------------------------
// What a policy allows
// ---------------------------------------------------------------------------

/// One network action of a sandboxed process. Its texts are given by their codes,
/// which need not be those of a `char`.
pub struct ActionView {
    pub binary: Codes,
    pub host: Codes,
    pub port: int,
    pub layer: Codes,
    pub method: Codes,
    pub path: Codes,
}

/// The actions that are considered: an absolute binary path, a port number, one
/// of two layers, a method, and an absolute request path.
pub open spec fn in_domain(action: ActionView) -> bool {
    &&& glob_matches("/**"@, '/', action.binary)
    &&& 1 <= action.port <= 65535
    &&& action.layer == codes("l4"@) || action.layer == codes("rest"@)
    &&& action.method.len() > 0
    &&& codes("/"@).is_prefix_of(action.path)
}

/// The request path matches a pattern.
pub open spec fn path_matches(pattern: Seq<char>, action: ActionView) -> bool {
    glob_matches(pattern, '/', action.path)
}

/// An empty pattern stands for any path.
pub open spec fn path_or_any(pattern: Seq<char>) -> Seq<char> {
    if pattern.len() == 0 {
        "**"@
    } else {
        pattern
    }
}

/// The method is one of the given ones, written in capitals.
pub open spec fn method_among(methods: Seq<Seq<char>>, action: ActionView) -> bool {
    exists|i: int| 0 <= i < methods.len() && action.method == denoted(
        text::upper(#[trigger] methods[i]),
    )
}

/// The methods of the `read-only` preset.
pub open spec fn read_only_methods() -> Seq<Seq<char>> {
    seq!["GET"@, "HEAD"@, "OPTIONS"@]
}

/// The methods of the `read-write` preset.
pub open spec fn read_write_methods() -> Seq<Seq<char>> {
    seq!["GET"@, "HEAD"@, "OPTIONS"@, "POST"@, "PUT"@, "PATCH"@]
}

/// The methods that a rule's method stands for. `GET` covers `HEAD`.
pub open spec fn rule_methods(method: Seq<char>) -> Seq<Seq<char>> {
    if text::lower(method) == "get"@ {
        seq!["GET"@, "HEAD"@]
    } else {
        seq![method]
    }
}

/// A rule's method and path cover the action. `*` covers every method.
pub open spec fn method_and_path_match(
    method: Seq<char>,
    path: Seq<char>,
    action: ActionView,
) -> bool {
    &&& method.len() > 0
    &&& path_matches(path_or_any(path), action)
    &&& method == "*"@ || method_among(rule_methods(method), action)
}

/// The rule needs review and only what needs none counts.
pub open spec fn held_for_review(required: bool, view: MaximumView) -> bool {
    required && view == MaximumView::AutoEligible
}

/// An allow rule covers the action.
pub open spec fn allow_covers(rule: L7RuleView, action: ActionView, view: MaximumView) -> bool {
    !held_for_review(rule.review.required, view) && method_and_path_match(
        rule.method,
        rule.path,
        action,
    )
}

/// A deny rule covers the action.
pub open spec fn deny_covers(rule: L7DenyRuleView, action: ActionView) -> bool {
    method_and_path_match(rule.method, rule.path, action)
}

/// The access preset or the allow rules of a REST endpoint cover the action.
pub open spec fn rest_allows(
    endpoint: EndpointView,
    action: ActionView,
    view: MaximumView,
) -> bool {
    if endpoint.access == "read-only"@ {
        method_among(read_only_methods(), action) && path_matches("**"@, action)
    } else if endpoint.access == "read-write"@ {
        method_among(read_write_methods(), action) && path_matches("**"@, action)
    } else if endpoint.access == "full"@ {
        path_matches("**"@, action)
    } else {
        exists|i: int|
            0 <= i < endpoint.rules.len() && allow_covers(
                #[trigger] endpoint.rules[i],
                action,
                view,
            )
    }
}

/// The endpoint is the one that the action connects to.
pub open spec fn connects(endpoint: EndpointView, action: ActionView) -> bool {
    &&& exists|i: int|
        0 <= i < endpoint.effective_ports().len() && action.port
            == #[trigger] endpoint.effective_ports()[i]
    &&& glob_matches(text::lower(endpoint.host), '.', action.host)
}

/// The protocol of an endpoint, without white space and in small letters.
pub open spec fn protocol_of(endpoint: EndpointView) -> Seq<char> {
    text::lower(text::trimmed(endpoint.protocol))
}

/// An endpoint allows the action.
pub open spec fn endpoint_allows(
    endpoint: EndpointView,
    action: ActionView,
    view: MaximumView,
) -> bool {
    &&& !held_for_review(endpoint.review.required, view)
    &&& connects(endpoint, action)
    &&& if protocol_of(endpoint) == ""@ {
        true
    } else {
        &&& protocol_of(endpoint) == "rest"@
        &&& action.layer == codes("rest"@)
        &&& path_matches(path_or_any(endpoint.path), action)
        &&& rest_allows(endpoint, action, view)
    }
}

/// An endpoint denies the action.
pub open spec fn endpoint_denies(endpoint: EndpointView, action: ActionView) -> bool {
    &&& text::lower(endpoint.protocol) == "rest"@
    &&& connects(endpoint, action)
    &&& action.layer == codes("rest"@)
    &&& path_matches(path_or_any(endpoint.path), action)
    &&& exists|i: int|
        0 <= i < endpoint.deny_rules.len() && deny_covers(
            #[trigger] endpoint.deny_rules[i],
            action,
        )
}

/// A binary of the rule runs the action.
pub open spec fn binary_runs(rule: RuleView, action: ActionView) -> bool {
    exists|i: int|
        0 <= i < rule.binaries.len() && glob_matches(
            (#[trigger] rule.binaries[i]).path,
            '/',
            action.binary,
        )
}

/// A network rule allows the action.
pub open spec fn rule_allows(rule: RuleView, action: ActionView, view: MaximumView) -> bool {
    binary_runs(rule, action) && exists|i: int|
        0 <= i < rule.endpoints.len() && endpoint_allows(
            #[trigger] rule.endpoints[i],
            action,
            view,
        )
}

/// A network rule denies the action.
pub open spec fn rule_denies(rule: RuleView, action: ActionView) -> bool {
    binary_runs(rule, action) && exists|i: int|
        0 <= i < rule.endpoints.len() && endpoint_denies(#[trigger] rule.endpoints[i], action)
}

/// The policy allows the action: one of its rules allows it and none denies it.
pub open spec fn policy_allows(policy: PolicyView, action: ActionView, view: MaximumView) -> bool {
    &&& exists|i: int|
        0 <= i < policy.network_policies.len() && rule_allows(
            (#[trigger] policy.network_policies[i]).1,
            action,
            view,
        )
    &&& !exists|i: int|
        0 <= i < policy.network_policies.len() && rule_denies(
            (#[trigger] policy.network_policies[i]).1,
            action,
        )
}

/// Every text of the action is over the solver's alphabet.
pub open spec fn action_over_alphabet(action: ActionView) -> bool {
    &&& in_alphabet(action.binary)
    &&& in_alphabet(action.host)
    &&& in_alphabet(action.layer)
    &&& in_alphabet(action.method)
    &&& in_alphabet(action.path)
}

/// The maximum allows every action that the candidate allows.
pub open spec fn network_contained(
    maximum: PolicyView,
    candidate: PolicyView,
    view: MaximumView,
) -> bool {
    forall|action: ActionView|
        in_domain(action) && action_over_alphabet(action) && #[trigger] policy_allows(
            candidate,
            action,
            MaximumView::All,
        ) ==> policy_allows(maximum, action, view)
}

/// An action that the candidate allows and the maximum does not.
pub open spec fn is_excess(
    maximum: PolicyView,
    candidate: PolicyView,
    view: MaximumView,
    action: ActionView,
) -> bool {
    &&& in_domain(action)
    &&& action_over_alphabet(action)
    &&& policy_allows(candidate, action, MaximumView::All)
    &&& !policy_allows(maximum, action, view)
}

// ---------------------------------------------------------------------------
// Texts that the solver takes
// ---------------------------------------------------------------------------

/// The texts of an endpoint that reach the solver are printable ASCII.
pub open spec fn endpoint_is_printable(endpoint: EndpointView) -> bool {
    &&& is_printable(endpoint.host)
    &&& is_printable(endpoint.path)
    &&& forall|i: int|
        0 <= i < endpoint.rules.len() ==> is_printable((#[trigger] endpoint.rules[i]).method)
            && is_printable(endpoint.rules[i].path)
    &&& forall|i: int|
        0 <= i < endpoint.deny_rules.len() ==> is_printable(
            (#[trigger] endpoint.deny_rules[i]).method,
        ) && is_printable(endpoint.deny_rules[i].path)
}

/// The texts of a rule that reach the solver are printable ASCII.
pub open spec fn rule_is_printable(rule: RuleView) -> bool {
    &&& forall|i: int|
        0 <= i < rule.endpoints.len() ==> endpoint_is_printable(#[trigger] rule.endpoints[i])
    &&& forall|i: int|
        0 <= i < rule.binaries.len() ==> is_printable((#[trigger] rule.binaries[i]).path)
}

/// The texts of a policy that reach the solver are printable ASCII.
pub open spec fn policy_is_printable(policy: PolicyView) -> bool {
    forall|i: int|
        0 <= i < policy.network_policies.len() ==> rule_is_printable(
            (#[trigger] policy.network_policies[i]).1,
        )
}

/// The texts of an endpoint that reach the solver hold no NUL.
pub open spec fn endpoint_without_nul(endpoint: EndpointView) -> bool {
    &&& without_nul(endpoint.host)
    &&& without_nul(endpoint.path)
    &&& forall|i: int|
        0 <= i < endpoint.rules.len() ==> without_nul((#[trigger] endpoint.rules[i]).method)
            && without_nul(endpoint.rules[i].path)
    &&& forall|i: int|
        0 <= i < endpoint.deny_rules.len() ==> without_nul(
            (#[trigger] endpoint.deny_rules[i]).method,
        ) && without_nul(endpoint.deny_rules[i].path)
}

/// The texts of a rule that reach the solver hold no NUL.
pub open spec fn rule_without_nul(rule: RuleView) -> bool {
    &&& forall|i: int|
        0 <= i < rule.endpoints.len() ==> endpoint_without_nul(#[trigger] rule.endpoints[i])
    &&& forall|i: int|
        0 <= i < rule.binaries.len() ==> without_nul((#[trigger] rule.binaries[i]).path)
}

/// The texts of a policy that reach the solver hold no NUL.
pub open spec fn policy_without_nul(policy: PolicyView) -> bool {
    forall|i: int|
        0 <= i < policy.network_policies.len() ==> rule_without_nul(
            (#[trigger] policy.network_policies[i]).1,
        )
}

// ---------------------------------------------------------------------------
// Filesystem authority
// ---------------------------------------------------------------------------

/// The path without the slashes at its end.
pub open spec fn without_end_slashes(path: Seq<char>) -> Seq<char>
    decreases path.len(),
{
    if path.len() > 0 && path.last() == '/' {
        without_end_slashes(path.drop_last())
    } else {
        path
    }
}

/// The path is the root or stands below it.
pub open spec fn path_below(path: Seq<char>, root: Seq<char>) -> bool {
    path == root || text::starts_with(path, without_end_slashes(root).push('/'))
}

/// The path is one of the roots or stands below one of them.
pub open spec fn path_covered(path: Seq<char>, roots: Seq<Seq<char>>) -> bool {
    exists|i: int| 0 <= i < roots.len() && path_below(path, #[trigger] roots[i])
}

/// The paths that a policy lets be written: the listed ones, and the working
/// directory where it is asked for.
pub open spec fn write_paths(policy: PolicyView) -> Seq<Seq<char>> {
    let paths = policy.filesystem_policy.read_write;
    if policy.filesystem_policy.include_workdir && !paths.contains("/sandbox"@) {
        paths.push("/sandbox"@)
    } else {
        paths
    }
}

/// The paths that a maximum lets be read.
pub open spec fn read_roots(maximum: PolicyView) -> Seq<Seq<char>> {
    maximum.filesystem_policy.read_only + write_paths(maximum)
}

/// The first path of a list that no root covers.
pub open spec fn first_uncovered(paths: Seq<Seq<char>>, roots: Seq<Seq<char>>) -> Option<Seq<char>>
    decreases paths.len(),
{
    if paths.len() == 0 {
        None
    } else if !path_covered(paths[0], roots) {
        Some(paths[0])
    } else {
        first_uncovered(paths.skip(1), roots)
    }
}

/// A filesystem action outside the maximum.
pub open spec fn filesystem_excess(path: Seq<char>, access: Seq<char>) -> CounterexampleView {
    CounterexampleView {
        binary: Seq::empty(),
        host: Seq::empty(),
        port: 0,
        protocol: "filesystem"@,
        method: access,
        path,
        reason: "candidate allows filesystem "@ + access + " outside the managed maximum"@,
    }
}

/// The first filesystem action of the candidate outside the maximum. Writes
/// come before reads.
pub open spec fn filesystem_verdict(
    maximum: PolicyView,
    candidate: PolicyView,
) -> Option<CounterexampleView> {
    match first_uncovered(write_paths(candidate), write_paths(maximum)) {
        Some(path) => Some(filesystem_excess(path, "write"@)),
        None => match first_uncovered(
            candidate.filesystem_policy.read_only,
            read_roots(maximum),
        ) {
            Some(path) => Some(filesystem_excess(path, "read"@)),
            None => None,
        },
    }
}

// ---------------------------------------------------------------------------
// Surfaces that are not modelled
// ---------------------------------------------------------------------------

/// The first problem of a list of findings.
pub open spec fn first_problem(findings: Seq<Option<Seq<char>>>) -> Option<Seq<char>>
    decreases findings.len(),
{
    if findings.len() == 0 {
        None
    } else {
        match findings[0] {
            Some(problem) => Some(problem),
            None => first_problem(findings.skip(1)),
        }
    }
}

/// A character of glob syntax that is not modelled.
pub open spec fn is_unmodelled(c: char) -> bool {
    c == '?' || c == '[' || c == ']' || c == '{' || c == '}' || c == '\\'
}

/// The pattern uses glob syntax that is not modelled.
pub open spec fn unmodelled_glob(pattern: Seq<char>) -> bool {
    exists|i: int| 0 <= i < pattern.len() && is_unmodelled(#[trigger] pattern[i])
}

/// The problem of an allow rule.
pub open spec fn allow_problem(context: Seq<char>, rule: L7RuleView) -> Option<Seq<char>> {
    if rule.method.len() == 0 || rule.command.len() > 0 || rule.extra_fields.len() > 0
        || rule.review.extra_fields.len() > 0 {
        Some(context + " uses an unsupported REST allow-rule field"@)
    } else if unmodelled_glob(rule.path) {
        Some(context + " uses an unsupported allow-rule glob"@)
    } else {
        None
    }
}

/// The problem of a deny rule.
pub open spec fn deny_problem(context: Seq<char>, rule: L7DenyRuleView) -> Option<Seq<char>> {
    if rule.method.len() == 0 || rule.command.len() > 0 || rule.extra_fields.len() > 0 {
        Some(context + " uses an unsupported REST deny-rule field"@)
    } else if unmodelled_glob(rule.path) {
        Some(context + " uses an unsupported deny-rule glob"@)
    } else {
        None
    }
}

/// The problem of how an endpoint combines its protocol with REST controls.
pub open spec fn protocol_problem(
    context: Seq<char>,
    endpoint: EndpointView,
) -> Option<Seq<char>> {
    let protocol = protocol_of(endpoint);
    if protocol != ""@ && protocol != "rest"@ {
        Some(
            context + " uses protocol '"@ + endpoint.protocol
                + "'; this initial managed maximum supports only L4 and REST"@,
        )
    } else if protocol == ""@ {
        if endpoint.path.len() > 0 || endpoint.access.len() > 0 || endpoint.rules.len() > 0
            || endpoint.deny_rules.len() > 0 {
            Some(context + " mixes REST controls into an L4 endpoint"@)
        } else {
            None
        }
    } else if endpoint.enforcement != "enforce"@ {
        Some(context + " uses REST without enforcement mode 'enforce'"@)
    } else if endpoint.access.len() > 0 && endpoint.rules.len() > 0 {
        Some(context + " combines REST access and rules"@)
    } else if endpoint.access.len() == 0 && endpoint.rules.len() == 0 {
        Some(context + " has no REST allow rules"@)
    } else if endpoint.access.len() > 0 && endpoint.access != "read-only"@ && endpoint.access
        != "read-write"@ && endpoint.access != "full"@ {
        Some(context + " uses unsupported REST access preset '"@ + endpoint.access + "'"@)
    } else {
        None
    }
}

/// The problem of the fields of an endpoint other than its rules.
pub open spec fn endpoint_field_problem(
    context: Seq<char>,
    endpoint: EndpointView,
) -> Option<Seq<char>> {
    if endpoint.host.len() == 0 || endpoint.effective_ports().len() == 0 {
        Some(context + " has no modeled host or port"@)
    } else if unmodelled_glob(endpoint.host) || unmodelled_glob(endpoint.path) {
        Some(context + " uses an unsupported endpoint glob"@)
    } else if endpoint.allowed_ips.len() > 0 {
        Some(
            context + " uses allowed_ips/CIDR authority, which containment does not model"@,
        )
    } else if endpoint.extra_fields.len() > 0 {
        Some(
            context + " uses unsupported endpoint fields: "@ + text::join(
                endpoint.extra_fields,
                ", "@,
            ),
        )
    } else if endpoint.review.extra_fields.len() > 0 {
        Some(context + " uses unsupported review metadata"@)
    } else if endpoint.tls.len() > 0 {
        Some(context + " uses TLS behavior that containment does not model"@)
    } else {
        protocol_problem(context, endpoint)
    }
}

/// The first problem of an endpoint: its fields, its allow rules, its deny rules.
pub open spec fn endpoint_problem(context: Seq<char>, endpoint: EndpointView) -> Option<Seq<char>> {
    match endpoint_field_problem(context, endpoint) {
        Some(problem) => Some(problem),
        None => match first_problem(
            Seq::new(endpoint.rules.len(), |i: int| allow_problem(context, endpoint.rules[i])),
        ) {
            Some(problem) => Some(problem),
            None => first_problem(
                Seq::new(
                    endpoint.deny_rules.len(),
                    |i: int| deny_problem(context, endpoint.deny_rules[i]),
                ),
            ),
        },
    }
}

/// The problem of a binary entry.
pub open spec fn binary_problem(context: Seq<char>, binary: BinaryView) -> Option<Seq<char>> {
    if binary.extra_fields.len() > 0 {
        Some(
            context + " uses unsupported binary fields: "@ + text::join(
                binary.extra_fields,
                ", "@,
            ),
        )
    } else if unmodelled_glob(binary.path) {
        Some(context + " uses an unsupported binary glob"@)
    } else {
        None
    }
}

/// How messages name a rule of a policy.
pub open spec fn rule_context(prefix: Seq<char>, key: Seq<char>) -> Seq<char> {
    prefix + " policy rule '"@ + key + "'"@
}

/// The first problem of a network rule: its fields, its endpoints, its binaries.
pub open spec fn rule_problem(prefix: Seq<char>, entry: (Seq<char>, RuleView)) -> Option<
    Seq<char>,
> {
    let context = rule_context(prefix, entry.0);
    let rule = entry.1;
    if rule.extra_fields.len() > 0 {
        Some(context + " uses unsupported fields: "@ + text::join(rule.extra_fields, ", "@))
    } else {
        match first_problem(
            Seq::new(rule.endpoints.len(), |i: int| endpoint_problem(context, rule.endpoints[i])),
        ) {
            Some(problem) => Some(problem),
            None => first_problem(
                Seq::new(
                    rule.binaries.len(),
                    |i: int| binary_problem(context, rule.binaries[i]),
                ),
            ),
        }
    }
}

/// The first reason why a policy cannot be checked.
pub open spec fn unsupported(prefix: Seq<char>, policy: PolicyView) -> Option<Seq<char>> {
    if policy.extra_fields.len() > 0 {
        Some(
            prefix + " policy uses unsupported top-level fields: "@ + text::join(
                policy.extra_fields,
                ", "@,
            ),
        )
    } else if policy.filesystem_policy.extra_fields.len() > 0 {
        Some(
            prefix + " policy uses unsupported filesystem fields: "@ + text::join(
                policy.filesystem_policy.extra_fields,
                ", "@,
            ),
        )
    } else {
        first_problem(
            Seq::new(
                policy.network_policies.len(),
                |i: int| rule_problem(prefix, policy.network_policies[i]),
            ),
        )
    }
}

// ---------------------------------------------------------------------------
// The check
// ---------------------------------------------------------------------------

/// The counterexample that the solver's values describe: binary, host, layer,
/// method and path, in this order, and the port. An L4 action has no method and
/// no path.
pub open spec fn described(texts: Seq<Option<Seq<char>>>, port: Option<u64>) -> Option<
    CounterexampleView,
> {
    if texts.len() == 5 && texts[0] is Some && texts[1] is Some && texts[2] is Some
        && port is Some && port->0 <= 65535 {
        let l4 = texts[2]->0 == "l4"@;
        if l4 || (texts[3] is Some && texts[4] is Some) {
            Some(
                CounterexampleView {
                    binary: texts[0]->0,
                    host: texts[1]->0,
                    port: port->0 as u16,
                    protocol: texts[2]->0,
                    method: if l4 {
                        Seq::empty()
                    } else {
                        texts[3]->0
                    },
                    path: if l4 {
                        Seq::empty()
                    } else {
                        texts[4]->0
                    },
                    reason: "candidate allows an action outside the managed maximum"@,
                },
            )
        } else {
            None
        }
    } else {
        None
    }
}

/// The check result for an answer of the solver.
pub open spec fn conclusion(answer: Answer) -> CheckView {
    match answer {
        Answer::Unsatisfiable => CheckView::WithinMax,
        Answer::Unknown => CheckView::Unsupported {
            reason: "Z3 returned unknown while checking maximum-policy containment"@,
        },
        Answer::WithoutModel => CheckView::Unsupported {
            reason: "Z3 returned sat without a maximum-policy model"@,
        },
        Answer::Satisfied { texts, number } => match described(texts.deep_view(), number) {
            Some(counterexample) => CheckView::ExceedsMax { counterexample },
            None => CheckView::Unsupported {
                reason: "Z3 returned a model that could not be decoded"@,
            },
        },
    }
}

/// The counterexample shows the action, up to characters that the solver writes
/// as escapes.
pub open spec fn depicts(counterexample: CounterexampleView, action: ActionView) -> bool {
    &&& counterexample.port == action.port
    &&& solver::decodes(Some(counterexample.binary), action.binary)
    &&& solver::decodes(Some(counterexample.host), action.host)
    &&& solver::decodes(Some(counterexample.protocol), action.layer)
    &&& counterexample.protocol != "l4"@ ==> solver::decodes(
        Some(counterexample.method),
        action.method,
    ) && solver::decodes(Some(counterexample.path), action.path)
}

/// What a result of the network part of the check promises, where the texts of both
/// policies are printable ASCII: `WithinMax` that the maximum allows whatever the candidate
/// does, and a counterexample that it shows an action that the candidate allows and the
/// maximum does not. On other texts the solver is not to be relied on.
pub open spec fn network_promise(
    maximum: PolicyView,
    candidate: PolicyView,
    view: MaximumView,
    result: CheckView,
) -> bool {
    match result {
        CheckView::WithinMax => network_contained(maximum, candidate, view),
        CheckView::ExceedsMax { counterexample } => exists|action: ActionView|
            depicts(counterexample, action) && #[trigger] is_excess(
                maximum,
                candidate,
                view,
                action,
            ),
        CheckView::Unsupported { reason } => true,
    }
}

/// The names of the text constants, in the order in which they are shown.
pub open spec fn text_constants() -> Seq<Seq<char>> {
    seq![
        encoding::BINARY@,
        encoding::HOST@,
        encoding::LAYER@,
        encoding::METHOD@,
        encoding::PATH@,
    ]
}

/// The formula of the actions that the candidate allows and the maximum does not.
pub open spec fn is_excess_formula(
    formula: Bool,
    maximum: PolicyView,
    candidate: PolicyView,
    view: MaximumView,
) -> bool {
    forall|v: Valuation|
        over_alphabet(v) ==> (#[trigger] solutions(formula).contains(v) <==> is_excess(
            maximum,
            candidate,
            view,
            action_at(v),
        ))
}

/// The result is what follows from an answer of the solver for the formula of the
/// actions outside the maximum.
pub open spec fn is_solver_result(
    maximum: PolicyView,
    candidate: PolicyView,
    view: MaximumView,
    result: CheckView,
) -> bool {
    exists|formula: Bool, answer: Answer|
        is_excess_formula(formula, maximum, candidate, view) && #[trigger] may_answer(
            formula,
            text_constants(),
            encoding::PORT@,
            answer,
        ) && result == conclusion(answer)
}

/// The check has to ask the solver: both policies are modelled, and the
/// filesystem authority is within the maximum.
pub open spec fn asks_solver(maximum: PolicyView, candidate: PolicyView) -> bool {
    &&& unsupported("maximum"@, maximum) is None
    &&& unsupported("candidate"@, candidate) is None
    &&& filesystem_verdict(maximum, candidate) is None
}

/// The solver can take the texts of both policies where it is asked.
pub open spec fn checkable(maximum: PolicyView, candidate: PolicyView) -> bool {
    asks_solver(maximum, candidate) ==> policy_without_nul(maximum) && policy_without_nul(candidate)
}

fn text_without_nul(value: &str) -> (r: bool)
    ensures
        r == without_nul(value@),
{
    let chars = text::chars_of(value);
    let mut i: usize = 0;
    while i < chars.len()
        invariant
            i <= chars.len(),
            chars@ == value@,
            forall|j: int| 0 <= j < i ==> value@[j] != '\0',
        decreases chars.len() - i,
    {
        if chars[i] == '\0' {
            assert(value@[i as int] == '\0');
            return false;
        }
        i += 1;
    }
    true
}

fn endpoint_has_no_nul(endpoint: &Endpoint) -> (r: bool)
    ensures
        r == endpoint_without_nul(endpoint.deep_view()),
{
    let ghost shown = endpoint.deep_view();
    if !text_without_nul(endpoint.host.as_str()) || !text_without_nul(endpoint.path.as_str()) {
        return false;
    }
    let mut i: usize = 0;
    while i < endpoint.rules.len()
        invariant
            i <= endpoint.rules.len(),
            shown == endpoint.deep_view(),
            forall|j: int|
                0 <= j < i ==> without_nul((#[trigger] shown.rules[j]).method) && without_nul(
                    shown.rules[j].path,
                ),
        decreases endpoint.rules.len() - i,
    {
        let rule = &endpoint.rules[i];
        assert(shown.rules[i as int] == rule.deep_view());
        if !text_without_nul(rule.method.as_str()) || !text_without_nul(rule.path.as_str()) {
            return false;
        }
        i += 1;
    }
    let mut k: usize = 0;
    while k < endpoint.deny_rules.len()
        invariant
            k <= endpoint.deny_rules.len(),
            shown == endpoint.deep_view(),
            forall|j: int|
                0 <= j < k ==> without_nul((#[trigger] shown.deny_rules[j]).method) && without_nul(
                    shown.deny_rules[j].path,
                ),
        decreases endpoint.deny_rules.len() - k,
    {
        let rule = &endpoint.deny_rules[k];
        assert(shown.deny_rules[k as int] == rule.deep_view());
        if !text_without_nul(rule.method.as_str()) || !text_without_nul(rule.path.as_str()) {
            return false;
        }
        k += 1;
    }
    true
}

fn rule_has_no_nul(rule: &NetworkPolicyRule) -> (r: bool)
    ensures
        r == rule_without_nul(rule.deep_view()),
{
    let ghost shown = rule.deep_view();
    let mut i: usize = 0;
    while i < rule.endpoints.len()
        invariant
            i <= rule.endpoints.len(),
            shown == rule.deep_view(),
            forall|j: int| 0 <= j < i ==> endpoint_without_nul(#[trigger] shown.endpoints[j]),
        decreases rule.endpoints.len() - i,
    {
        assert(shown.endpoints[i as int] == rule.endpoints@[i as int].deep_view());
        if !endpoint_has_no_nul(&rule.endpoints[i]) {
            return false;
        }
        i += 1;
    }
    let mut k: usize = 0;
    while k < rule.binaries.len()
        invariant
            k <= rule.binaries.len(),
            shown == rule.deep_view(),
            forall|j: int| 0 <= j < k ==> without_nul((#[trigger] shown.binaries[j]).path),
        decreases rule.binaries.len() - k,
    {
        assert(shown.binaries[k as int] == rule.binaries@[k as int].deep_view());
        if !text_without_nul(rule.binaries[k].path.as_str()) {
            return false;
        }
        k += 1;
    }
    true
}

fn policy_has_no_nul(policy: &PolicyModel) -> (r: bool)
    ensures
        r == policy_without_nul(policy.deep_view()),
{
    let ghost rules = policy.deep_view().network_policies;
    let mut i: usize = 0;
    while i < policy.network_policies.len()
        invariant
            i <= policy.network_policies.len(),
            rules == policy.deep_view().network_policies,
            forall|j: int| 0 <= j < i ==> rule_without_nul((#[trigger] rules[j]).1),
        decreases policy.network_policies.len() - i,
    {
        assert(rules[i as int].1 == policy.network_policies@[i as int].1.deep_view());
        if !rule_has_no_nul(&policy.network_policies[i].1) {
            return false;
        }
        i += 1;
    }
    true
}

/// Tells whether a check of two policies can be made: the solver can take their texts,
/// or is not asked.
pub fn can_check(maximum: &PolicyModel, candidate: &PolicyModel) -> (r: bool)
    ensures
        r == checkable(maximum.deep_view(), candidate.deep_view()),
{
    if unsupported_reason("maximum", maximum).is_some() || unsupported_reason(
        "candidate",
        candidate,
    ).is_some() || filesystem_counterexample(maximum, candidate).is_some() {
        return true;
    }
    policy_has_no_nul(maximum) && policy_has_no_nul(candidate)
}

/// What the check returns: the first reason why one of the policies cannot be
/// checked, the first filesystem action outside the maximum, or what follows
/// from an answer of the solver.
pub open spec fn check_fits(
    maximum: PolicyView,
    candidate: PolicyView,
    view: MaximumView,
    result: CheckView,
) -> bool {
    match unsupported("maximum"@, maximum) {
        Some(reason) => result == (CheckView::Unsupported { reason }),
        None => match unsupported("candidate"@, candidate) {
            Some(reason) => result == (CheckView::Unsupported { reason }),
            None => match filesystem_verdict(maximum, candidate) {
                Some(counterexample) => result == (CheckView::ExceedsMax { counterexample }),
                None => {
                    &&& is_solver_result(maximum, candidate, view, result)
                    &&& policy_is_printable(maximum) && policy_is_printable(candidate) ==> network_promise(
                        maximum,
                        candidate,
                        view,
                        result,
                    )
                },
            },
        },
    }
}

/// Proves a candidate policy against a managed maximum.
pub fn check_within_maximum(maximum: &PolicyModel, candidate: &PolicyModel) -> (r:
    MaximumPolicyCheck)
    requires
        checkable(maximum.deep_view(), candidate.deep_view()),
    ensures
        check_fits(
            maximum.deep_view(),
            candidate.deep_view(),
            MaximumView::All,
            r.deep_view(),
        ),
{
    check(maximum, candidate, MaximumView::All)
}

/// Proves a requested change against the part of a managed maximum that needs
/// no review.
pub fn check_within_auto_eligible_maximum(
    maximum: &PolicyModel,
    requested_delta: &PolicyModel,
) -> (r: MaximumPolicyCheck)
    requires
        checkable(maximum.deep_view(), requested_delta.deep_view()),
    ensures
        check_fits(
            maximum.deep_view(),
            requested_delta.deep_view(),
            MaximumView::AutoEligible,
            r.deep_view(),
        ),
{
    check(maximum, requested_delta, MaximumView::AutoEligible)
}

/// The values that a valuation gives to the constants, where it describes an
/// action.
pub open spec fn valuation_of(action: ActionView) -> Valuation {
    Valuation {
        texts: Map::new(
            |name: Seq<char>| true,
            |name: Seq<char>|
                if name == encoding::BINARY@ {
                    action.binary
                } else if name == encoding::HOST@ {
                    action.host
                } else if name == encoding::LAYER@ {
                    action.layer
                } else if name == encoding::METHOD@ {
                    action.method
                } else if name == encoding::PATH@ {
                    action.path
                } else {
                    Seq::empty()
                },
        ),
        numbers: Map::new(|name: Seq<char>| true, |name: Seq<char>| action.port),
    }
}

proof fn lemma_valuation_of(action: ActionView)
    requires
        action_over_alphabet(action),
    ensures
        action_at(valuation_of(action)) == action,
        over_alphabet(valuation_of(action)),
{
    encoding::lemma_names();
    let v = valuation_of(action);
    assert forall|name: Seq<char>| in_alphabet(#[trigger] v.texts[name]) by {
        assert(v.texts.contains_key(name));
    }
    assert(v.texts.contains_key(encoding::BINARY@));
    assert(v.texts.contains_key(encoding::HOST@));
    assert(v.texts.contains_key(encoding::LAYER@));
    assert(v.texts.contains_key(encoding::METHOD@));
    assert(v.texts.contains_key(encoding::PATH@));
    assert(v.numbers.contains_key(encoding::PORT@));
}

/// What an answer about the formula of the actions outside the maximum promises, where
/// the solver can be relied on.
proof fn lemma_answer_promises(
    formula: Bool,
    max: PolicyView,
    cand: PolicyView,
    view: MaximumView,
    given: Answer,
)
    requires
        is_excess_formula(formula, max, cand, view),
        given is Unsatisfiable ==> forall|v: Valuation|
            over_alphabet(v) ==> !#[trigger] solutions(formula).contains(v),
        given matches Answer::Satisfied { texts: shown, number: value } ==> exists|v: Valuation|
            over_alphabet(v) && #[trigger] solutions(formula).contains(v) && solver::shows(
                v,
                text_constants(),
                shown.deep_view(),
                encoding::PORT@,
                value,
            ),
    ensures
        network_promise(max, cand, view, conclusion(given)),
{
    match given {
        Answer::Unsatisfiable => {
            assert forall|action: ActionView|
                in_domain(action) && action_over_alphabet(action) && #[trigger] policy_allows(
                    cand,
                    action,
                    MaximumView::All,
                ) implies policy_allows(max, action, view) by {
                lemma_valuation_of(action);
                assert(!solutions(formula).contains(valuation_of(action)));
            }
        },
        Answer::Satisfied { texts: shown, number } => {
            let v = choose|v: Valuation|
                over_alphabet(v) && #[trigger] solutions(formula).contains(v) && solver::shows(
                    v,
                    text_constants(),
                    shown.deep_view(),
                    encoding::PORT@,
                    number,
                );
            let values = shown.deep_view();
            assert(solver::decodes(values[0], v.texts[text_constants()[0]]));
            assert(solver::decodes(values[1], v.texts[text_constants()[1]]));
            assert(solver::decodes(values[2], v.texts[text_constants()[2]]));
            assert(solver::decodes(values[3], v.texts[text_constants()[3]]));
            assert(solver::decodes(values[4], v.texts[text_constants()[4]]));
            assert(is_excess(max, cand, view, action_at(v)));
        },
        _ => {},
    }
}

fn check(maximum: &PolicyModel, candidate: &PolicyModel, maximum_view: MaximumView) -> (r:
    MaximumPolicyCheck)
    requires
        checkable(maximum.deep_view(), candidate.deep_view()),
    ensures
        check_fits(maximum.deep_view(), candidate.deep_view(), maximum_view, r.deep_view()),
{
    if let Some(reason) = unsupported_reason("maximum", maximum) {
        return MaximumPolicyCheck::Unsupported { reason };
    }
    if let Some(reason) = unsupported_reason("candidate", candidate) {
        return MaximumPolicyCheck::Unsupported { reason };
    }
    if let Some(counterexample) = filesystem_counterexample(maximum, candidate) {
        return MaximumPolicyCheck::ExceedsMax { counterexample: Box::new(counterexample) };
    }
    let ghost max = maximum.deep_view();
    let ghost cand = candidate.deep_view();
    let domain = encoding::domain_formula();
    let allowed = encoding::policy_formula(candidate, MaximumView::All);
    let covered = encoding::policy_formula(maximum, maximum_view);
    let uncovered = solver::negation(&covered);
    let mut formulas = Vec::new();
    formulas.push(domain);
    formulas.push(allowed);
    formulas.push(uncovered);
    let ghost list = formulas@;
    let formula = solver::all_of(&formulas);
    let mut texts: Vec<String> = Vec::new();
    texts.push(encoding::BINARY.to_owned());
    texts.push(encoding::HOST.to_owned());
    texts.push(encoding::LAYER.to_owned());
    texts.push(encoding::METHOD.to_owned());
    texts.push(encoding::PATH.to_owned());
    proof {
        encoding::lemma_names();
    }
    assert(texts.deep_view() =~= text_constants());
    let answer = solver::solve(&formula, &texts, encoding::PORT);
    let ghost given = answer;
    let r = conclude(answer);
    proof {
        assert(r.deep_view() == conclusion(given));
        assert forall|v: Valuation| over_alphabet(v) implies (#[trigger] solutions(
            formula,
        ).contains(v) <==> is_excess(max, cand, maximum_view, action_at(v))) by {
            assert(solutions(domain).contains(v) <==> in_domain(action_at(v)));
            assert(solutions(allowed).contains(v) <==> policy_allows(
                cand,
                action_at(v),
                MaximumView::All,
            ));
            assert(solutions(covered).contains(v) <==> policy_allows(
                max,
                action_at(v),
                maximum_view,
            ));
            if all_hold(list, v) {
                assert(solutions(list[0]).contains(v));
                assert(solutions(list[1]).contains(v));
                assert(solutions(list[2]).contains(v));
            }
        }
        assert(is_excess_formula(formula, max, cand, maximum_view));
        assert(may_answer(formula, text_constants(), encoding::PORT@, given));
        if policy_is_printable(max) && policy_is_printable(cand) {
            lemma_answer_promises(formula, max, cand, maximum_view, given);
        }
    }
    r
}

/// The check result for an answer of the solver.
pub fn conclude(answer: Answer) -> (r: MaximumPolicyCheck)
    ensures
        r.deep_view() == conclusion(answer),
{
    match answer {
        Answer::Unsatisfiable => MaximumPolicyCheck::WithinMax,
        Answer::Unknown => MaximumPolicyCheck::Unsupported {
            reason: "Z3 returned unknown while checking maximum-policy containment".to_owned(),
        },
        Answer::WithoutModel => MaximumPolicyCheck::Unsupported {
            reason: "Z3 returned sat without a maximum-policy model".to_owned(),
        },
        Answer::Satisfied { texts, number } => match counterexample_from_model(&texts, number) {
            Some(counterexample) => MaximumPolicyCheck::ExceedsMax {
                counterexample: Box::new(counterexample),
            },
            None => MaximumPolicyCheck::Unsupported {
                reason: "Z3 returned a model that could not be decoded".to_owned(),
            },
        },
    }
}

fn counterexample_from_model(texts: &Vec<Option<String>>, number: Option<u64>) -> (r: Option<
    PolicyCounterexample,
>)
    ensures
        r.deep_view() == described(texts.deep_view(), number),
{
    if texts.len() != 5 {
        return None;
    }
    let port: u64 = match number {
        Some(port) => port,
        None => {
            return None;
        },
    };
    if port > 65_535 {
        return None;
    }
    let ghost shown = texts.deep_view();
    proof {
        assert(shown[0] == texts@[0].deep_view());
        assert(shown[1] == texts@[1].deep_view());
        assert(shown[2] == texts@[2].deep_view());
        assert(shown[3] == texts@[3].deep_view());
        assert(shown[4] == texts@[4].deep_view());
    }
    let (binary, host, protocol) = match (&texts[0], &texts[1], &texts[2]) {
        (Some(binary), Some(host), Some(protocol)) => (binary, host, protocol),
        _ => {
            return None;
        },
    };
    let is_l4 = text::same(protocol.as_str(), "l4");
    let (method, path) = if is_l4 {
        (String::new(), String::new())
    } else {
        match (&texts[3], &texts[4]) {
            (Some(method), Some(path)) => (method.clone(), path.clone()),
            _ => {
                return None;
            },
        }
    };
    proof {
        if is_l4 {
            assert(method@ =~= Seq::empty());
            assert(path@ =~= Seq::empty());
        }
    }
    Some(
        PolicyCounterexample {
            binary: binary.clone(),
            host: host.clone(),
            port: port as u16,
            protocol: protocol.clone(),
            method,
            path,
            reason: "candidate allows an action outside the managed maximum".to_owned(),
        },
    )
}

fn filesystem_counterexample(maximum: &PolicyModel, candidate: &PolicyModel) -> (r: Option<
    PolicyCounterexample,
>)
    ensures
        r.deep_view() == filesystem_verdict(maximum.deep_view(), candidate.deep_view()),
{
    let maximum_write = filesystem_paths(maximum, true);
    let mut maximum_read = filesystem_paths(maximum, false);
    let mut also = filesystem_paths(maximum, true);
    let ghost joined = maximum_read.deep_view() + also.deep_view();
    maximum_read.append(&mut also);
    proof {
        assert(maximum_read.deep_view() =~= joined);
    }
    let written = filesystem_paths(candidate, true);
    if let Some(path) = find_uncovered(&written, &maximum_write) {
        return Some(filesystem_counterexample_value(path, "write"));
    }
    let read = filesystem_paths(candidate, false);
    match find_uncovered(&read, &maximum_read) {
        Some(path) => Some(filesystem_counterexample_value(path, "read")),
        None => None,
    }
}

fn filesystem_paths(policy: &PolicyModel, write: bool) -> (r: Vec<String>)
    ensures
        r.deep_view() == (if write {
            write_paths(policy.deep_view())
        } else {
            policy.deep_view().filesystem_policy.read_only
        }),
{
    if !write {
        return policy.filesystem_policy.read_only.clone();
    }
    let mut paths = policy.filesystem_policy.read_write.clone();
    if policy.filesystem_policy.include_workdir && !text::list_contains(&paths, "/sandbox") {
        let ghost before = paths.deep_view();
        paths.push("/sandbox".to_owned());
        proof {
            assert(paths.deep_view() =~= before.push("/sandbox"@));
        }
    }
    paths
}

fn find_uncovered<'a>(paths: &'a Vec<String>, roots: &Vec<String>) -> (r: Option<&'a str>)
    ensures
        r.deep_view() == first_uncovered(paths.deep_view(), roots.deep_view()),
{
    let ghost list = paths.deep_view();
    let ghost covers = roots.deep_view();
    let mut i: usize = 0;
    proof {
        assert(list.skip(0) =~= list);
    }
    while i < paths.len()
        invariant
            i <= paths.len(),
            list == paths.deep_view(),
            covers == roots.deep_view(),
            first_uncovered(list, covers) == first_uncovered(list.skip(i as int), covers),
        decreases paths.len() - i,
    {
        proof {
            assert(list.skip(i as int)[0] == paths@[i as int]@);
            assert(list.skip(i as int).skip(1) =~= list.skip(i + 1));
        }
        if !path_is_covered(paths[i].as_str(), roots) {
            return Some(paths[i].as_str());
        }
        i += 1;
    }
    None
}

fn path_is_covered(candidate: &str, maximum_paths: &Vec<String>) -> (r: bool)
    ensures
        r == path_covered(candidate@, maximum_paths.deep_view()),
{
    let ghost roots = maximum_paths.deep_view();
    let mut i: usize = 0;
    while i < maximum_paths.len()
        invariant
            i <= maximum_paths.len(),
            roots == maximum_paths.deep_view(),
            forall|j: int| 0 <= j < i ==> !path_below(candidate@, #[trigger] roots[j]),
        decreases maximum_paths.len() - i,
    {
        let root = maximum_paths[i].as_str();
        proof {
            assert(roots[i as int] == root@);
        }
        let stem = trim_end_slashes(root);
        let prefix = cat2(stem, "/");
        proof {
            reveal_strlit("/");
            assert(prefix@ =~= without_end_slashes(root@).push('/'));
        }
        if text::same(candidate, root) || text::has_prefix(candidate, prefix.as_str()) {
            return true;
        }
        i += 1;
    }
    false
}

fn trim_end_slashes<'a>(path: &'a str) -> (r: &'a str)
    ensures
        r@ == without_end_slashes(path@),
{
    let chars = text::chars_of(path);
    let mut to: usize = chars.len();
    proof {
        assert(path@.take(to as int) =~= path@);
    }
    while to > 0 && chars[to - 1] == '/'
        invariant
            chars@ == path@,
            to <= chars.len(),
            without_end_slashes(path@) == without_end_slashes(path@.take(to as int)),
        decreases to,
    {
        proof {
            assert(path@.take(to as int).drop_last() =~= path@.take(to - 1));
        }
        to -= 1;
    }
    proof {
        assert(path@.subrange(0, to as int) =~= path@.take(to as int));
    }
    path.substring_char(0, to)
}

fn filesystem_counterexample_value(path: &str, access: &str) -> (r: PolicyCounterexample)
    ensures
        r.deep_view() == filesystem_excess(path@, access@),
{
    let empty = String::new();
    proof {
        assert(empty@ =~= Seq::empty());
    }
    PolicyCounterexample {
        binary: empty.clone(),
        host: empty,
        port: 0,
        protocol: "filesystem".to_owned(),
        method: access.to_owned(),
        path: path.to_owned(),
        reason: cat3("candidate allows filesystem ", access, " outside the managed maximum"),
    }
}

fn unsupported_reason(prefix: &str, policy: &PolicyModel) -> (r: Option<String>)
    ensures
        r.deep_view() == unsupported(prefix@, policy.deep_view()),
{
    if policy.extra_fields.len() > 0 {
        let names = text::join_with(&policy.extra_fields, ", ");
        return Some(
            cat3(prefix, " policy uses unsupported top-level fields: ", names.as_str()),
        );
    }
    if policy.filesystem_policy.extra_fields.len() > 0 {
        let names = text::join_with(&policy.filesystem_policy.extra_fields, ", ");
        return Some(
            cat3(prefix, " policy uses unsupported filesystem fields: ", names.as_str()),
        );
    }
    let ghost entries = policy.deep_view().network_policies;
    let ghost findings = Seq::new(entries.len(), |i: int| rule_problem(prefix@, entries[i]));
    let mut i: usize = 0;
    proof {
        assert(findings.skip(0) =~= findings);
    }
    while i < policy.network_policies.len()
        invariant
            i <= policy.network_policies.len(),
            entries == policy.deep_view().network_policies,
            findings == Seq::new(entries.len(), |i: int| rule_problem(prefix@, entries[i])),
            first_problem(findings) == first_problem(findings.skip(i as int)),
            policy.extra_fields.len() == 0,
            policy.filesystem_policy.extra_fields.len() == 0,
        decreases policy.network_policies.len() - i,
    {
        let entry = &policy.network_policies[i];
        proof {
            assert(entries[i as int] == (entry.0@, entry.1.deep_view()));
            assert(findings.skip(i as int)[0] == findings[i as int]);
            assert(findings.skip(i as int).skip(1) =~= findings.skip(i + 1));
        }
        if let Some(problem) = unsupported_rule(prefix, entry.0.as_str(), &entry.1) {
            return Some(problem);
        }
        i += 1;
    }
    None
}

fn unsupported_rule(prefix: &str, key: &str, rule: &NetworkPolicyRule) -> (r: Option<String>)
    ensures
        r.deep_view() == rule_problem(prefix@, (key@, rule.deep_view())),
{
    let context = cat4(prefix, " policy rule '", key, "'");
    let ghost shown = rule.deep_view();
    if rule.extra_fields.len() > 0 {
        let names = text::join_with(&rule.extra_fields, ", ");
        return Some(cat3(context.as_str(), " uses unsupported fields: ", names.as_str()));
    }
    let ghost findings = Seq::new(
        shown.endpoints.len(),
        |i: int| endpoint_problem(context@, shown.endpoints[i]),
    );
    let mut i: usize = 0;
    proof {
        assert(findings.skip(0) =~= findings);
    }
    while i < rule.endpoints.len()
        invariant
            i <= rule.endpoints.len(),
            shown == rule.deep_view(),
            findings == Seq::new(
                shown.endpoints.len(),
                |i: int| endpoint_problem(context@, shown.endpoints[i]),
            ),
            first_problem(findings) == first_problem(findings.skip(i as int)),
            context@ == rule_context(prefix@, key@),
            shown.extra_fields.len() == 0,
        decreases rule.endpoints.len() - i,
    {
        proof {
            assert(shown.endpoints[i as int] == rule.endpoints@[i as int].deep_view());
            assert(findings.skip(i as int)[0] == findings[i as int]);
            assert(findings.skip(i as int).skip(1) =~= findings.skip(i + 1));
        }
        if let Some(problem) = unsupported_endpoint(context.as_str(), &rule.endpoints[i]) {
            return Some(problem);
        }
        i += 1;
    }
    let ghost others = Seq::new(
        shown.binaries.len(),
        |i: int| binary_problem(context@, shown.binaries[i]),
    );
    let mut k: usize = 0;
    proof {
        assert(others.skip(0) =~= others);
    }
    while k < rule.binaries.len()
        invariant
            k <= rule.binaries.len(),
            shown == rule.deep_view(),
            others == Seq::new(
                shown.binaries.len(),
                |i: int| binary_problem(context@, shown.binaries[i]),
            ),
            first_problem(others) == first_problem(others.skip(k as int)),
            context@ == rule_context(prefix@, key@),
            shown.extra_fields.len() == 0,
            findings == Seq::new(
                shown.endpoints.len(),
                |i: int| endpoint_problem(context@, shown.endpoints[i]),
            ),
            first_problem(findings) is None,
        decreases rule.binaries.len() - k,
    {
        proof {
            assert(shown.binaries[k as int] == rule.binaries@[k as int].deep_view());
            assert(others.skip(k as int)[0] == others[k as int]);
            assert(others.skip(k as int).skip(1) =~= others.skip(k + 1));
        }
        if let Some(problem) = unsupported_binary(context.as_str(), &rule.binaries[k]) {
            return Some(problem);
        }
        k += 1;
    }
    None
}

fn unsupported_binary(context: &str, binary: &Binary) -> (r: Option<String>)
    ensures
        r.deep_view() == binary_problem(context@, binary.deep_view()),
{
    if binary.extra_fields.len() > 0 {
        let names = text::join_with(&binary.extra_fields, ", ");
        return Some(cat3(context, " uses unsupported binary fields: ", names.as_str()));
    }
    if unsupported_glob_pattern(binary.path.as_str()) {
        return Some(cat2(context, " uses an unsupported binary glob"));
    }
    None
}

fn unsupported_endpoint(context: &str, endpoint: &Endpoint) -> (r: Option<String>)
    ensures
        r.deep_view() == endpoint_problem(context@, endpoint.deep_view()),
{
    let ghost shown = endpoint.deep_view();
    if let Some(problem) = unsupported_endpoint_fields(context, endpoint) {
        return Some(problem);
    }
    let ghost findings = Seq::new(
        shown.rules.len(),
        |i: int| allow_problem(context@, shown.rules[i]),
    );
    let mut i: usize = 0;
    proof {
        assert(findings.skip(0) =~= findings);
    }
    while i < endpoint.rules.len()
        invariant
            i <= endpoint.rules.len(),
            shown == endpoint.deep_view(),
            findings == Seq::new(
                shown.rules.len(),
                |i: int| allow_problem(context@, shown.rules[i]),
            ),
            first_problem(findings) == first_problem(findings.skip(i as int)),
            endpoint_field_problem(context@, shown) is None,
        decreases endpoint.rules.len() - i,
    {
        let allow = &endpoint.rules[i];
        proof {
            assert(shown.rules[i as int] == allow.deep_view());
            assert(findings.skip(i as int)[0] == findings[i as int]);
            assert(findings.skip(i as int).skip(1) =~= findings.skip(i + 1));
        }
        if unsupported_rest_allow(allow) {
            return Some(cat2(context, " uses an unsupported REST allow-rule field"));
        }
        if unsupported_glob_pattern(allow.path.as_str()) {
            return Some(cat2(context, " uses an unsupported allow-rule glob"));
        }
        i += 1;
    }
    let ghost others = Seq::new(
        shown.deny_rules.len(),
        |i: int| deny_problem(context@, shown.deny_rules[i]),
    );
    let mut k: usize = 0;
    proof {
        assert(others.skip(0) =~= others);
    }
    while k < endpoint.deny_rules.len()
        invariant
            k <= endpoint.deny_rules.len(),
            shown == endpoint.deep_view(),
            others == Seq::new(
                shown.deny_rules.len(),
                |i: int| deny_problem(context@, shown.deny_rules[i]),
            ),
            first_problem(others) == first_problem(others.skip(k as int)),
            endpoint_field_problem(context@, shown) is None,
            findings == Seq::new(
                shown.rules.len(),
                |i: int| allow_problem(context@, shown.rules[i]),
            ),
            first_problem(findings) is None,
        decreases endpoint.deny_rules.len() - k,
    {
        let deny = &endpoint.deny_rules[k];
        proof {
            assert(shown.deny_rules[k as int] == deny.deep_view());
            assert(others.skip(k as int)[0] == others[k as int]);
            assert(others.skip(k as int).skip(1) =~= others.skip(k + 1));
        }
        if unsupported_rest_deny(deny) {
            return Some(cat2(context, " uses an unsupported REST deny-rule field"));
        }
        if unsupported_glob_pattern(deny.path.as_str()) {
            return Some(cat2(context, " uses an unsupported deny-rule glob"));
        }
        k += 1;
    }
    None
}

fn unsupported_endpoint_fields(context: &str, endpoint: &Endpoint) -> (r: Option<String>)
    ensures
        r.deep_view() == endpoint_field_problem(context@, endpoint.deep_view()),
{
    if endpoint.host.as_str().is_empty() || endpoint.effective_ports().len() == 0 {
        return Some(cat2(context, " has no modeled host or port"));
    }
    if unsupported_glob_pattern(endpoint.host.as_str()) || unsupported_glob_pattern(
        endpoint.path.as_str(),
    ) {
        return Some(cat2(context, " uses an unsupported endpoint glob"));
    }
    if endpoint.allowed_ips.len() > 0 {
        return Some(
            cat2(
                context,
                " uses allowed_ips/CIDR authority, which containment does not model",
            ),
        );
    }
    if endpoint.extra_fields.len() > 0 {
        let names = text::join_with(&endpoint.extra_fields, ", ");
        return Some(cat3(context, " uses unsupported endpoint fields: ", names.as_str()));
    }
    if endpoint.review.extra_fields.len() > 0 {
        return Some(cat2(context, " uses unsupported review metadata"));
    }
    if !endpoint.tls.as_str().is_empty() {
        return Some(cat2(context, " uses TLS behavior that containment does not model"));
    }
    unsupported_protocol(context, endpoint)
}

fn unsupported_protocol(context: &str, endpoint: &Endpoint) -> (r: Option<String>)
    ensures
        r.deep_view() == protocol_problem(context@, endpoint.deep_view()),
{
    let protocol = text::to_lower(text::trim(endpoint.protocol.as_str()));
    if !text::same(protocol.as_str(), "") && !text::same(protocol.as_str(), "rest") {
        return Some(
            cat4(
                context,
                " uses protocol '",
                endpoint.protocol.as_str(),
                "'; this initial managed maximum supports only L4 and REST",
            ),
        );
    }
    let access = endpoint.access.as_str();
    if text::same(protocol.as_str(), "") {
        if !endpoint.path.as_str().is_empty() || !access.is_empty() || endpoint.rules.len() > 0
            || endpoint.deny_rules.len() > 0 {
            return Some(cat2(context, " mixes REST controls into an L4 endpoint"));
        }
        return None;
    }
    if !text::same(endpoint.enforcement.as_str(), "enforce") {
        return Some(cat2(context, " uses REST without enforcement mode 'enforce'"));
    }
    if !access.is_empty() && endpoint.rules.len() > 0 {
        return Some(cat2(context, " combines REST access and rules"));
    }
    if access.is_empty() && endpoint.rules.len() == 0 {
        return Some(cat2(context, " has no REST allow rules"));
    }
    if !access.is_empty() && !text::same(access, "read-only") && !text::same(access, "read-write")
        && !text::same(access, "full") {
        return Some(cat4(context, " uses unsupported REST access preset '", access, "'"));
    }
    None
}

fn unsupported_rest_allow(rule: &L7Rule) -> (r: bool)
    ensures
        r == (rule.method@.len() == 0 || rule.command@.len() > 0 || rule.extra_fields@.len() > 0
            || rule.review.extra_fields@.len() > 0),
{
    rule.method.as_str().is_empty() || !rule.command.as_str().is_empty() || rule.extra_fields.len()
        > 0 || rule.review.extra_fields.len() > 0
}

fn unsupported_rest_deny(rule: &L7DenyRule) -> (r: bool)
    ensures
        r == (rule.method@.len() == 0 || rule.command@.len() > 0 || rule.extra_fields@.len() > 0),
{
    rule.method.as_str().is_empty() || !rule.command.as_str().is_empty() || rule.extra_fields.len()
        > 0
}

fn unsupported_glob_pattern(pattern: &str) -> (r: bool)
    ensures
        r == unmodelled_glob(pattern@),
{
    let chars = text::chars_of(pattern);
    let mut i: usize = 0;
    while i < chars.len()
        invariant
            i <= chars.len(),
            chars@ == pattern@,
            forall|j: int| 0 <= j < i ==> !is_unmodelled(#[trigger] pattern@[j]),
        decreases chars.len() - i,
    {
        let c = chars[i];
        if c == '?' || c == '[' || c == ']' || c == '{' || c == '}' || c == '\\' {
            assert(is_unmodelled(pattern@[i as int]));
            return true;
        }
        i += 1;
    }
    false
}

// ---------------------------------------------------------------------------
// Laws
// ---------------------------------------------------------------------------

/// What needs no review is part of what a policy allows.
pub proof fn law_auto_eligible_is_narrower(policy: PolicyView, action: ActionView)
    requires
        policy_allows(policy, action, MaximumView::AutoEligible),
    ensures
        policy_allows(policy, action, MaximumView::All),
{
    let rules = policy.network_policies;
    let i = choose|i: int|
        0 <= i < rules.len() && rule_allows(
            (#[trigger] rules[i]).1,
            action,
            MaximumView::AutoEligible,
        );
    let rule = rules[i].1;
    let k = choose|k: int|
        0 <= k < rule.endpoints.len() && endpoint_allows(
            #[trigger] rule.endpoints[k],
            action,
            MaximumView::AutoEligible,
        );
    let endpoint = rule.endpoints[k];
    assert(rest_allows(endpoint, action, MaximumView::AutoEligible) ==> rest_allows(
        endpoint,
        action,
        MaximumView::All,
    )) by {
        if exists|j: int|
            0 <= j < endpoint.rules.len() && allow_covers(
                #[trigger] endpoint.rules[j],
                action,
                MaximumView::AutoEligible,
            ) {
            let j = choose|j: int|
                0 <= j < endpoint.rules.len() && allow_covers(
                    #[trigger] endpoint.rules[j],
                    action,
                    MaximumView::AutoEligible,
                );
            assert(allow_covers(endpoint.rules[j], action, MaximumView::All));
        }
    }
    assert(endpoint_allows(endpoint, action, MaximumView::All));
    assert(rule_allows(rules[i].1, action, MaximumView::All));
}

/// A policy is contained by itself.
pub proof fn law_contained_by_itself(policy: PolicyView)
    ensures
        network_contained(policy, policy, MaximumView::All),
{
}

/// The filesystem authority of a policy is within itself.
pub proof fn law_filesystem_contained_by_itself(policy: PolicyView)
    ensures
        filesystem_verdict(policy, policy) is None,
{
    let written = write_paths(policy);
    assert(written.skip(0) =~= written);
    lemma_covered_by_superset(written, written, 0);
    let read = policy.filesystem_policy.read_only;
    let roots = read_roots(policy);
    assert forall|i: int| 0 <= i < read.len() implies roots.contains(#[trigger] read[i]) by {
        assert(roots[i] == read[i]);
    }
    assert(read.skip(0) =~= read);
    lemma_covered_by_superset(read, roots, 0);
}

proof fn lemma_covered_by_superset(paths: Seq<Seq<char>>, roots: Seq<Seq<char>>, from: int)
    requires
        0 <= from <= paths.len(),
        forall|i: int| 0 <= i < paths.len() ==> roots.contains(#[trigger] paths[i]),
    ensures
        first_uncovered(paths.skip(from), roots) is None,
    decreases paths.len() - from,
{
    if from < paths.len() {
        let path = paths[from];
        let j = choose|j: int| 0 <= j < roots.len() && roots[j] == path;
        assert(roots.contains(paths[from]));
        assert(path_below(path, roots[j]));
        assert(paths.skip(from)[0] == path);
        assert(paths.skip(from).skip(1) =~= paths.skip(from + 1));
        lemma_covered_by_superset(paths, roots, from + 1);
    }
}

/// What is within a policy that is within a maximum is within the maximum.
pub proof fn law_containment_is_transitive(
    maximum: PolicyView,
    middle: PolicyView,
    candidate: PolicyView,
    view: MaximumView,
)
    requires
        network_contained(maximum, middle, view),
        network_contained(middle, candidate, MaximumView::All),
    ensures
        network_contained(maximum, candidate, view),
{
}

pub proof fn lemma_all_covered(paths: Seq<Seq<char>>, roots: Seq<Seq<char>>)
    ensures
        first_uncovered(paths, roots) is None <==> forall|i: int|
            0 <= i < paths.len() ==> path_covered(#[trigger] paths[i], roots),
    decreases paths.len(),
{
    if paths.len() > 0 {
        let rest = paths.skip(1);
        lemma_all_covered(rest, roots);
        if first_uncovered(paths, roots) is None {
            assert forall|i: int| 0 <= i < paths.len() implies path_covered(
                #[trigger] paths[i],
                roots,
            ) by {
                if i > 0 {
                    assert(rest[i - 1] == paths[i]);
                }
            }
        }
        if forall|i: int| 0 <= i < paths.len() ==> path_covered(#[trigger] paths[i], roots) {
            assert(path_covered(paths[0], roots));
            assert forall|i: int| 0 <= i < rest.len() implies path_covered(
                #[trigger] rest[i],
                roots,
            ) by {
                assert(rest[i] == paths[i + 1]);
            }
        }
    }
}

proof fn lemma_covered_through(
    path: Seq<char>,
    middle: Seq<Seq<char>>,
    roots: Seq<Seq<char>>,
)
    requires
        path_covered(path, middle),
        forall|i: int| 0 <= i < middle.len() ==> path_covered(#[trigger] middle[i], roots),
    ensures
        path_covered(path, roots),
{
    let i = choose|i: int| 0 <= i < middle.len() && path_below(path, #[trigger] middle[i]);
    assert(path_covered(middle[i], roots));
    let j = choose|j: int| 0 <= j < roots.len() && path_below(middle[i], #[trigger] roots[j]);
    law_path_below(path, middle[i], roots[j]);
    assert(path_below(path, roots[j]));
}

/// Filesystem authority that is within a policy that is within a maximum is within
/// the maximum.
pub proof fn law_filesystem_containment_is_transitive(
    maximum: PolicyView,
    middle: PolicyView,
    candidate: PolicyView,
)
    requires
        filesystem_verdict(maximum, middle) is None,
        filesystem_verdict(middle, candidate) is None,
    ensures
        filesystem_verdict(maximum, candidate) is None,
{
    let top = write_paths(maximum);
    let between = write_paths(middle);
    let written = write_paths(candidate);
    lemma_all_covered(between, top);
    lemma_all_covered(written, between);
    lemma_all_covered(written, top);
    assert forall|i: int| 0 <= i < written.len() implies path_covered(
        #[trigger] written[i],
        top,
    ) by {
        lemma_covered_through(written[i], between, top);
    }
    let read = candidate.filesystem_policy.read_only;
    let inner = middle.filesystem_policy.read_only;
    let all = read_roots(maximum);
    lemma_all_covered(inner, all);
    lemma_all_covered(read, read_roots(middle));
    lemma_all_covered(read, all);
    assert forall|i: int| 0 <= i < read_roots(middle).len() implies path_covered(
        #[trigger] read_roots(middle)[i],
        all,
    ) by {
        if i < inner.len() {
            assert(read_roots(middle)[i] == inner[i]);
        } else {
            let path = between[i - inner.len()];
            assert(read_roots(middle)[i] == path);
            assert(path_covered(path, top));
            let j = choose|j: int| 0 <= j < top.len() && path_below(path, #[trigger] top[j]);
            assert(all[maximum.filesystem_policy.read_only.len() + j] == top[j]);
        }
    }
    assert forall|i: int| 0 <= i < read.len() implies path_covered(#[trigger] read[i], all) by {
        lemma_covered_through(read[i], read_roots(middle), all);
    }
}

/// Checks are transitive: where a policy was found within a maximum and a candidate
/// within the policy, no check finds the candidate to exceed the maximum, where the
/// texts of the policies are printable ASCII.
pub proof fn law_checks_are_transitive(
    maximum: PolicyView,
    middle: PolicyView,
    candidate: PolicyView,
    view: MaximumView,
    outer: CheckView,
    inner: CheckView,
    whole: CheckView,
)
    requires
        policy_is_printable(maximum),
        policy_is_printable(middle),
        policy_is_printable(candidate),
        check_fits(maximum, middle, view, outer),
        check_fits(middle, candidate, MaximumView::All, inner),
        check_fits(maximum, candidate, view, whole),
        outer is WithinMax,
        inner is WithinMax,
    ensures
        !(whole is ExceedsMax),
{
    law_filesystem_containment_is_transitive(maximum, middle, candidate);
    law_containment_is_transitive(maximum, middle, candidate, view);
}

/// No check finds a policy to exceed itself, where its texts are printable ASCII.
pub proof fn law_checks_are_reflexive(policy: PolicyView, check: CheckView)
    requires
        policy_is_printable(policy),
        check_fits(policy, policy, MaximumView::All, check),
    ensures
        !(check is ExceedsMax),
{
    law_filesystem_contained_by_itself(policy);
    law_contained_by_itself(policy);
}

/// The part of a maximum that needs no review never admits more than the whole:
/// what was found to exceed the maximum is not found within that part, where the texts
/// of the policies are printable ASCII.
pub proof fn law_auto_eligible_checks_are_narrower(
    maximum: PolicyView,
    candidate: PolicyView,
    whole: CheckView,
    part: CheckView,
)
    requires
        policy_is_printable(maximum),
        policy_is_printable(candidate),
        check_fits(maximum, candidate, MaximumView::All, whole),
        check_fits(maximum, candidate, MaximumView::AutoEligible, part),
        whole is ExceedsMax,
    ensures
        !(part is WithinMax),
{
    if asks_solver(maximum, candidate) {
        let action = choose|action: ActionView|
            depicts(whole->counterexample, action) && #[trigger] is_excess(
                maximum,
                candidate,
                MaximumView::All,
                action,
            );
        if policy_allows(maximum, action, MaximumView::AutoEligible) {
            law_auto_eligible_is_narrower(maximum, action);
        }
    }
}

/// A denied action is not allowed, whatever the allow rules say.
pub proof fn law_deny_removes_authority(
    policy: PolicyView,
    action: ActionView,
    view: MaximumView,
    i: int,
)
    requires
        0 <= i < policy.network_policies.len(),
        rule_denies(policy.network_policies[i].1, action),
    ensures
        !policy_allows(policy, action, view),
{
}

/// An L4 endpoint that allows an action allows every action on the same
/// connection, whatever its layer, method and path.
pub proof fn law_l4_covers_rest(
    endpoint: EndpointView,
    action: ActionView,
    other: ActionView,
    view: MaximumView,
)
    requires
        protocol_of(endpoint) == ""@,
        endpoint_allows(endpoint, action, view),
        other.host == action.host,
        other.port == action.port,
    ensures
        endpoint_allows(endpoint, other, view),
{
}

/// A REST endpoint allows nothing on the L4 layer.
pub proof fn law_rest_does_not_cover_l4(
    endpoint: EndpointView,
    action: ActionView,
    view: MaximumView,
)
    requires
        protocol_of(endpoint) == "rest"@,
        action.layer == codes("l4"@),
    ensures
        !endpoint_allows(endpoint, action, view),
{
    reveal_strlit("l4");
    reveal_strlit("rest");
    reveal_strlit("");
    assert(codes("l4"@).len() != codes("rest"@).len());
    assert(""@.len() != "rest"@.len());
}

/// Every path is below itself, and what stands below a root that stands below
/// another stands below the other.
pub proof fn law_path_below(path: Seq<char>, middle: Seq<char>, root: Seq<char>)
    ensures
        path_below(path, path),
        path_below(path, middle) && path_below(middle, root) ==> path_below(path, root),
{
    if path_below(path, middle) && path_below(middle, root) && path != middle && middle != root {
        let stem = without_end_slashes(root).push('/');
        let inner = without_end_slashes(middle);
        lemma_slashes_prefix(middle, root);
        assert(text::starts_with(path, inner.push('/')));
        assert(text::starts_with(middle, stem));
        let n = stem.len() as int;
        if inner.len() >= n {
            assert(middle.take(n) =~= inner.take(n));
            assert(path.take(n) =~= path.take(inner.len() as int + 1).take(n));
            assert(inner.push('/').take(n) =~= inner.take(n));
            assert(path.take(n) =~= stem);
        } else {
            assert(inner.push('/') =~= stem);
        }
    }
}

pub proof fn lemma_slashes_stem(path: Seq<char>)
    ensures
        without_end_slashes(path).len() <= path.len(),
        path.take(without_end_slashes(path).len() as int) == without_end_slashes(path),
        forall|i: int|
            without_end_slashes(path).len() <= i < path.len() ==> #[trigger] path[i] == '/',
        without_end_slashes(path).len() > 0 ==> without_end_slashes(path).last() != '/',
    decreases path.len(),
{
    if path.len() > 0 && path.last() == '/' {
        lemma_slashes_stem(path.drop_last());
        let stem = without_end_slashes(path);
        assert(path.take(stem.len() as int) =~= path.drop_last().take(stem.len() as int));
        assert forall|i: int| stem.len() <= i < path.len() implies #[trigger] path[i] == '/' by {
            if i < path.len() - 1 {
                assert(path.drop_last()[i] == path[i]);
            }
        }
    } else {
        assert(path.take(path.len() as int) =~= path);
    }
}

/// Where a path stands below a root, its stem is no shorter than the root's.
proof fn lemma_slashes_prefix(path: Seq<char>, root: Seq<char>)
    requires
        text::starts_with(path, without_end_slashes(root).push('/')),
    ensures
        without_end_slashes(path).len() >= without_end_slashes(root).len(),
        without_end_slashes(path).len() == without_end_slashes(root).len()
            ==> without_end_slashes(path) == without_end_slashes(root),
        without_end_slashes(path).len() > without_end_slashes(root).len() ==> text::starts_with(
            without_end_slashes(path),
            without_end_slashes(root).push('/'),
        ),
{
    lemma_slashes_stem(path);
    lemma_slashes_stem(root);
    let stem = without_end_slashes(path);
    let base = without_end_slashes(root);
    let n = base.len() as int;
    assert(path.take(n + 1) == base.push('/'));
    assert forall|i: int| 0 <= i < n implies path[i] == base[i] by {
        assert(path.take(n + 1)[i] == base.push('/')[i]);
    }
    assert(path[n] == '/') by {
        assert(path.take(n + 1)[n] == base.push('/')[n]);
    }
    if stem.len() < n {
        assert(path[n - 1] == '/');
        assert(base.last() == base[n - 1]);
        assert(false);
    }
    if stem.len() == n {
        assert(stem =~= path.take(n));
        assert(path.take(n) =~= base);
    }
    if stem.len() > n {
        assert(stem.take(n + 1) =~= path.take(n + 1));
    }
}

} // verus!
