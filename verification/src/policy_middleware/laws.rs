//! What is complained of in the middleware section of a policy.

use crate::middleware::config::builtin_verdict;
use crate::ordered;
use crate::policy_middleware::{
    all_violations, builtin_violations, definition_of, endpoint_conflicts,
    implementation_violations, name_violations, on_error_violations, patterns_of, policy_conflicts,
    proto_form, selector_is_valid, violations_of, DefView, EndpointView, HostFactsView,
    MiddlewareView, PolicyView, RuleView, ViolationView,
};
use crate::proto_struct::{fields_of, FieldsView};
use crate::text;
use vstd::prelude::*;

verus! {

/// The protobuf form of a definition has its members, each under its own name.
pub proof fn law_forms(def: DefView, config: MiddlewareView)
    ensures
        proto_form(def).name == def.name,
        proto_form(def).middleware == def.middleware,
        proto_form(def).order == def.order,
        proto_form(def).on_error == def.on_error,
        proto_form(def).endpoints == def.endpoints,
        proto_form(def).config == Some(fields_of(def.config)),
        definition_of(config).name == config.name,
        definition_of(config).middleware == config.middleware,
        definition_of(config).order == config.order,
        definition_of(config).on_error == config.on_error,
        definition_of(config).endpoints == config.endpoints,
        config.config is None ==> definition_of(config).config.len() == 0,
{
}

/// The endpoint is one whose TLS is passed through, though a middleware may have to read it.
spec fn is_in_conflict(endpoint: EndpointView, hosts: Seq<Seq<char>>) -> bool {
    endpoint.tls == "skip"@ && hosts.contains(endpoint.host)
}

/// A middleware is accepted exactly where it has a name that no earlier one has, names an
/// implementation that is built in or outside the reserved names, says what becomes of a
/// request when it fails, selects hosts by valid patterns, has a valid configuration where it
/// is built in, and meets no endpoint whose TLS is passed through.
pub proof fn law_accepted_middleware(policy: PolicyView, facts: HostFactsView, i: int)
    requires
        0 <= i < policy.network_middlewares.len(),
    ensures
        violations_of(policy, facts, i).len() == 0 <==> ({
            let list = policy.network_middlewares;
            let entry = list[i];
            &&& entry.name.len() > 0
            &&& forall|j: int| 0 <= j < i ==> (#[trigger] list[j]).name != entry.name
            &&& entry.middleware.len() > 0
            &&& entry.middleware == "openshell/secrets"@ || !text::starts_with(
                entry.middleware,
                "openshell/"@,
            )
            &&& entry.on_error == ""@ || entry.on_error == "fail_closed"@ || entry.on_error
                == "fail_open"@
            &&& entry.endpoints matches Some(selector) && selector.included.len() > 0 && (forall|
                k: int,
            |
                0 <= k < selector.included.len() ==> ordered::lookup(
                    facts.invalid,
                    #[trigger] selector.included[k],
                ) is None) && (forall|k: int|
                0 <= k < selector.excluded.len() ==> ordered::lookup(
                    facts.invalid,
                    #[trigger] selector.excluded[k],
                ) is None)
            &&& entry.middleware == "openshell/secrets"@ ==> builtin_verdict(
                entry.middleware,
                match entry.config {
                    Some(fields) => fields,
                    None => FieldsView::empty(),
                },
            ) is Ok
            &&& forall|p: int, e: int|
                0 <= p < policy.network_policies.len() && 0 <= e
                    < policy.network_policies[p].1.endpoints.len() ==> !(
                (#[trigger] policy.network_policies[p].1.endpoints[e]).tls == "skip"@
                    && facts.overlaps[i].contains(policy.network_policies[p].1.endpoints[e].host))
        }),
{
    let entry = policy.network_middlewares[i];
    crate::policy_middleware::law_valid_middleware_has_no_violation(policy, facts, i);
    lemma_policy_conflicts(
        entry.name,
        policy.network_policies,
        facts.overlaps[i],
        policy.network_policies.len(),
    );
    if let Some(selector) = entry.endpoints {
        let all = patterns_of(selector);
        if selector_is_valid(selector, facts) {
            assert forall|k: int| 0 <= k < selector.included.len() implies ordered::lookup(
                facts.invalid,
                #[trigger] selector.included[k],
            ) is None by {
                assert(all[k] == selector.included[k]);
            }
            assert forall|k: int| 0 <= k < selector.excluded.len() implies ordered::lookup(
                facts.invalid,
                #[trigger] selector.excluded[k],
            ) is None by {
                assert(all[selector.included.len() + k] == selector.excluded[k]);
            }
        } else if selector.included.len() > 0 {
            let k = choose|k: int|
                0 <= k < all.len() && ordered::lookup(facts.invalid, #[trigger] all[k]) is Some;
            if k < selector.included.len() {
                assert(all[k] == selector.included[k]);
            } else {
                assert(all[k] == selector.excluded[k - selector.included.len()]);
            }
        }
    }
}

proof fn lemma_policy_conflicts(
    name: Seq<char>,
    policies: Seq<(Seq<char>, RuleView)>,
    hosts: Seq<Seq<char>>,
    n: nat,
)
    requires
        n <= policies.len(),
    ensures
        policy_conflicts(name, policies, hosts, n).len() == 0 <==> (forall|p: int, e: int|
            0 <= p < n && 0 <= e < policies[p].1.endpoints.len() ==> !is_in_conflict(
                #[trigger] policies[p].1.endpoints[e],
                hosts,
            )),
    decreases n,
{
    if n > 0 {
        let (key, rule) = policies[n - 1];
        lemma_policy_conflicts(name, policies, hosts, (n - 1) as nat);
        lemma_endpoint_conflicts(
            name,
            crate::policy_middleware::policy_name(key, rule),
            rule.endpoints,
            hosts,
            rule.endpoints.len(),
        );
        assert(policies[n - 1].1.endpoints == rule.endpoints);
    }
}

proof fn lemma_endpoint_conflicts(
    name: Seq<char>,
    policy: Seq<char>,
    endpoints: Seq<EndpointView>,
    hosts: Seq<Seq<char>>,
    n: nat,
)
    requires
        n <= endpoints.len(),
    ensures
        endpoint_conflicts(name, policy, endpoints, hosts, n).len() == 0 <==> (forall|e: int|
            0 <= e < n ==> !is_in_conflict(#[trigger] endpoints[e], hosts)),
    decreases n,
{
    if n > 0 {
        lemma_endpoint_conflicts(name, policy, endpoints, hosts, (n - 1) as nat);
    }
}

/// Every conflict is complained of by the names of the middleware, the policy and the host. A
/// policy without a name goes by its key.
pub proof fn law_conflicts_are_named(
    name: Seq<char>,
    policies: Seq<(Seq<char>, RuleView)>,
    hosts: Seq<Seq<char>>,
    n: nat,
    p: int,
    e: int,
)
    requires
        0 <= p < n <= policies.len(),
        0 <= e < policies[p].1.endpoints.len(),
        policies[p].1.endpoints[e].tls == "skip"@,
        hosts.contains(policies[p].1.endpoints[e].host),
    ensures
        policy_conflicts(name, policies, hosts, n).contains(
            ViolationView::MiddlewareTlsSkipConflict {
                middleware_name: name,
                policy_name: if policies[p].1.name.len() > 0 {
                    policies[p].1.name
                } else {
                    policies[p].0
                },
                host: policies[p].1.endpoints[e].host,
            },
        ),
    decreases n,
{
    broadcast use vstd::seq_lib::group_seq_properties;

    let (key, rule) = policies[n - 1];
    if p < n - 1 {
        law_conflicts_are_named(name, policies, hosts, (n - 1) as nat, p, e);
    } else {
        lemma_conflict_is_named(
            name,
            crate::policy_middleware::policy_name(key, rule),
            rule.endpoints,
            hosts,
            rule.endpoints.len(),
            e,
        );
    }
}

proof fn lemma_conflict_is_named(
    name: Seq<char>,
    policy: Seq<char>,
    endpoints: Seq<EndpointView>,
    hosts: Seq<Seq<char>>,
    n: nat,
    e: int,
)
    requires
        0 <= e < n <= endpoints.len(),
        is_in_conflict(endpoints[e], hosts),
    ensures
        endpoint_conflicts(name, policy, endpoints, hosts, n).contains(
            ViolationView::MiddlewareTlsSkipConflict {
                middleware_name: name,
                policy_name: policy,
                host: endpoints[e].host,
            },
        ),
    decreases n,
{
    broadcast use vstd::seq_lib::group_seq_properties;

    let all = endpoint_conflicts(name, policy, endpoints, hosts, n);
    if e < n - 1 {
        lemma_conflict_is_named(name, policy, endpoints, hosts, (n - 1) as nat, e);
        let before = endpoint_conflicts(name, policy, endpoints, hosts, (n - 1) as nat);
        let wanted = ViolationView::MiddlewareTlsSkipConflict {
            middleware_name: name,
            policy_name: policy,
            host: endpoints[e].host,
        };
        let k = choose|k: int| 0 <= k < before.len() && before[k] == wanted;
        assert(all[k] == wanted);
    } else {
        assert(all[all.len() - 1] == (ViolationView::MiddlewareTlsSkipConflict {
            middleware_name: name,
            policy_name: policy,
            host: endpoints[e].host,
        }));
    }
}

/// The faults of a middleware by themselves: what is said of each, and by which name.
pub proof fn law_faults_are_named(
    list: Seq<MiddlewareView>,
    i: int,
    facts: HostFactsView,
)
    requires
        0 <= i < list.len(),
    ensures
        list[i].name.len() == 0 ==> name_violations(list, i) == seq![
            ViolationView::InvalidMiddlewareConfig {
                name: list[i].name,
                reason: "name must not be empty"@,
            },
        ],
        list[i].name.len() > 0 ==> (name_violations(list, i) == seq![
            ViolationView::DuplicateMiddlewareConfigName { name: list[i].name },
        ] <==> exists|j: int| 0 <= j < i && (#[trigger] list[j]).name == list[i].name),
        list[i].middleware.len() == 0 ==> implementation_violations(list[i]) == seq![
            ViolationView::InvalidMiddlewareConfig {
                name: list[i].name,
                reason: "implementation must not be empty"@,
            },
        ],
        list[i].on_error != ""@ && list[i].on_error != "fail_closed"@ && list[i].on_error
            != "fail_open"@ ==> on_error_violations(list[i]) == seq![
            ViolationView::InvalidMiddlewareConfig {
                name: list[i].name,
                reason: "invalid on_error '"@ + list[i].on_error + "'"@,
            },
        ],
        list[i].middleware == "openshell/secrets"@ ==> match builtin_verdict(
            list[i].middleware,
            match list[i].config {
                Some(fields) => fields,
                None => FieldsView::empty(),
            },
        ) {
            Ok(_) => builtin_violations(list[i]).len() == 0,
            Err(reason) => builtin_violations(list[i]) == seq![
                ViolationView::InvalidBuiltinMiddlewareConfig { name: list[i].name, reason },
            ],
        },
{
    let name = list[i].name;
    let duplicate = seq![ViolationView::DuplicateMiddlewareConfigName { name }];
    assert(duplicate.len() == 1);
    assert(Seq::<ViolationView>::empty().len() == 0);
}

/// Every middleware is looked at, whatever was wrong with those before it.
pub proof fn law_every_middleware_is_checked(
    policy: PolicyView,
    facts: HostFactsView,
    n: nat,
    i: int,
    fault: ViolationView,
)
    requires
        0 <= i < n <= policy.network_middlewares.len(),
        violations_of(policy, facts, i).contains(fault),
    ensures
        all_violations(policy, facts, n).contains(fault),
    decreases n,
{
    broadcast use vstd::seq_lib::group_seq_properties;

    if i < n - 1 {
        law_every_middleware_is_checked(policy, facts, (n - 1) as nat, i, fault);
    }
}

/// A section without faults is not complained of, and only such a section is.
pub proof fn law_accepted_sections(policy: PolicyView, facts: HostFactsView, n: nat)
    requires
        n <= policy.network_middlewares.len(),
    ensures
        all_violations(policy, facts, n).len() == 0 <==> (forall|i: int|
            0 <= i < n ==> (#[trigger] violations_of(policy, facts, i)).len() == 0),
    decreases n,
{
    if n > 0 {
        law_accepted_sections(policy, facts, (n - 1) as nat);
        assert(violations_of(policy, facts, n - 1).len() == violations_of(
            policy,
            facts,
            n as int - 1,
        ).len());
    }
}

} // verus!
