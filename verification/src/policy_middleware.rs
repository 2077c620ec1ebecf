//! Middleware sections of sandbox policies: their schema, their protobuf form
//! and their validation.

pub mod laws;

use crate::json::{Json, JsonView, Number};
use crate::middleware::config::{builtin_verdict, validate_builtin_config};
use crate::middleware::BUILTIN_SECRETS;
use crate::ordered;
use crate::outcome::shown;
use crate::proto_struct::{
    fields_of, json_object_to_struct, members_of, struct_to_json_object, unrepresentable_member,
    FieldsView, ProtoStructError, Struct,
};
use crate::text;
use crate::text::cat3;
use vstd::prelude::*;

verus! {

// ---------------------------------------------------------------------------
// Definitions and their protobuf form
// ---------------------------------------------------------------------------

/// The hosts that a middleware is attached to.
#[derive(Debug, Clone, PartialEq, Eq)]
pub struct MiddlewareEndpointSelector {
    pub included: Vec<String>,
    pub excluded: Vec<String>,
}

/// The content of a selector.
pub struct SelectorView {
    pub included: Seq<Seq<char>>,
    pub excluded: Seq<Seq<char>>,
}

impl DeepView for MiddlewareEndpointSelector {
    type V = SelectorView;

    open spec fn deep_view(&self) -> SelectorView {
        SelectorView {
            included: self.included.deep_view(),
            excluded: self.excluded.deep_view(),
        }
    }
}

/// A middleware as a policy document defines it. The members of its
/// configuration are ordered by name.
#[derive(Debug, PartialEq, Eq)]
pub struct NetworkMiddlewareConfigDef {
    pub name: String,
    pub middleware: String,
    pub order: i32,
    pub config: Vec<(String, Json)>,
    pub on_error: String,
    pub endpoints: Option<MiddlewareEndpointSelector>,
}

/// The content of a definition.
#[verifier::ext_equal]
pub struct DefView {
    pub name: Seq<char>,
    pub middleware: Seq<char>,
    pub order: i32,
    pub config: Seq<(Seq<char>, JsonView)>,
    pub on_error: Seq<char>,
    pub endpoints: Option<SelectorView>,
}

impl DeepView for NetworkMiddlewareConfigDef {
    type V = DefView;

    open spec fn deep_view(&self) -> DefView {
        DefView {
            name: self.name@,
            middleware: self.middleware@,
            order: self.order,
            config: self.config.deep_view(),
            on_error: self.on_error@,
            endpoints: self.endpoints.deep_view(),
        }
    }
}

/// A middleware in its protobuf form.
#[derive(Debug, PartialEq, Eq)]
pub struct NetworkMiddlewareConfig {
    pub name: String,
    pub middleware: String,
    pub order: i32,
    pub config: Option<Struct>,
    pub on_error: String,
    pub endpoints: Option<MiddlewareEndpointSelector>,
}

/// The content of a middleware's protobuf form.
#[verifier::ext_equal]
pub struct MiddlewareView {
    pub name: Seq<char>,
    pub middleware: Seq<char>,
    pub order: i32,
    pub config: Option<FieldsView>,
    pub on_error: Seq<char>,
    pub endpoints: Option<SelectorView>,
}

impl DeepView for NetworkMiddlewareConfig {
    type V = MiddlewareView;

    open spec fn deep_view(&self) -> MiddlewareView {
        MiddlewareView {
            name: self.name@,
            middleware: self.middleware@,
            order: self.order,
            config: self.config.deep_view(),
            on_error: self.on_error@,
            endpoints: self.endpoints.deep_view(),
        }
    }
}

/// The protobuf form of a definition.
pub open spec fn proto_form(def: DefView) -> MiddlewareView {
    MiddlewareView {
        name: def.name,
        middleware: def.middleware,
        order: def.order,
        config: Some(fields_of(def.config)),
        on_error: def.on_error,
        endpoints: def.endpoints,
    }
}

/// The definition of a protobuf form.
pub open spec fn definition_of(config: MiddlewareView) -> DefView {
    DefView {
        name: config.name,
        middleware: config.middleware,
        order: config.order,
        config: match config.config {
            Some(fields) => members_of(fields),
            None => Seq::empty(),
        },
        on_error: config.on_error,
        endpoints: config.endpoints,
    }
}

/// The first number of the first `n` definitions that has no protobuf form.
pub open spec fn unrepresentable_def(defs: Seq<DefView>, n: nat) -> Option<Number>
    decreases n,
{
    if n == 0 || n > defs.len() {
        None
    } else {
        match unrepresentable_def(defs, (n - 1) as nat) {
            Some(number) => Some(number),
            None => unrepresentable_member(defs[n - 1].config, defs[n - 1].config.len()),
        }
    }
}

/// What converting definitions gives.
pub open spec fn defs_converted(defs: Seq<DefView>) -> Result<Seq<MiddlewareView>, Number> {
    match unrepresentable_def(defs, defs.len()) {
        Some(number) => Err(number),
        None => Ok(Seq::new(defs.len(), |i: int| proto_form(defs[i]))),
    }
}

proof fn lemma_def_found(defs: Seq<DefView>, n: nat)
    requires
        n <= defs.len(),
        unrepresentable_def(defs, n) is Some,
    ensures
        unrepresentable_def(defs, defs.len()) == unrepresentable_def(defs, n),
    decreases defs.len() - n,
{
    if n < defs.len() {
        assert(unrepresentable_def(defs, n + 1) == unrepresentable_def(defs, n));
        lemma_def_found(defs, n + 1);
    }
}

fn copy_selector(selector: &Option<MiddlewareEndpointSelector>) -> (r: Option<
    MiddlewareEndpointSelector,
>)
    ensures
        r.deep_view() == selector.deep_view(),
{
    match selector {
        Some(selector) => Some(
            MiddlewareEndpointSelector {
                included: selector.included.clone(),
                excluded: selector.excluded.clone(),
            },
        ),
        None => None,
    }
}

/// The protobuf forms of definitions.
pub fn into_proto(definitions: &Vec<NetworkMiddlewareConfigDef>) -> (r: Result<
    Vec<NetworkMiddlewareConfig>,
    ProtoStructError,
>)
    ensures
        shown(r) == defs_converted(definitions.deep_view()),
{
    let ghost defs = definitions.deep_view();
    let mut out: Vec<NetworkMiddlewareConfig> = Vec::new();
    let mut i: usize = 0;
    while i < definitions.len()
        invariant
            i <= definitions.len(),
            out.len() == i,
            defs == definitions.deep_view(),
            unrepresentable_def(defs, i as nat) is None,
            forall|j: int| 0 <= j < i ==> #[trigger] out.deep_view()[j] == proto_form(defs[j]),
        decreases definitions.len() - i,
    {
        let ghost before = out.deep_view();
        let definition = &definitions[i];
        assert(defs[i as int] == definition.deep_view());
        let config = match json_object_to_struct(&definition.config) {
            Ok(config) => config,
            Err(error) => {
                proof {
                    assert(unrepresentable_def(defs, (i + 1) as nat) == Some(error.deep_view()));
                    lemma_def_found(defs, (i + 1) as nat);
                }
                return Err(error);
            },
        };
        out.push(
            NetworkMiddlewareConfig {
                name: definition.name.clone(),
                middleware: definition.middleware.clone(),
                order: definition.order,
                config: Some(config),
                on_error: definition.on_error.clone(),
                endpoints: copy_selector(&definition.endpoints),
            },
        );
        proof {
            assert forall|j: int| 0 <= j < i + 1 implies #[trigger] out.deep_view()[j]
                == proto_form(defs[j]) by {
                if j < i {
                    assert(out.deep_view()[j] == before[j]);
                }
            }
        }
        i += 1;
    }
    assert(out.deep_view() =~= Seq::new(defs.len(), |i: int| proto_form(defs[i])));
    Ok(out)
}

/// The definitions of protobuf forms.
pub fn from_proto(middlewares: &Vec<NetworkMiddlewareConfig>) -> (r: Vec<
    NetworkMiddlewareConfigDef,
>)
    ensures
        r.deep_view() == Seq::new(
            middlewares@.len(),
            |i: int| definition_of(middlewares.deep_view()[i]),
        ),
{
    let ghost configs = middlewares.deep_view();
    let mut out: Vec<NetworkMiddlewareConfigDef> = Vec::new();
    let mut i: usize = 0;
    while i < middlewares.len()
        invariant
            i <= middlewares.len(),
            out.len() == i,
            configs == middlewares.deep_view(),
            forall|j: int| 0 <= j < i ==> #[trigger] out.deep_view()[j] == definition_of(configs[j]),
        decreases middlewares.len() - i,
    {
        let ghost before = out.deep_view();
        let middleware = &middlewares[i];
        assert(configs[i as int] == middleware.deep_view());
        let config = match &middleware.config {
            Some(config) => struct_to_json_object(config),
            None => Vec::new(),
        };
        proof {
            if middleware.config is None {
                assert(config.deep_view() =~= Seq::empty());
            }
        }
        out.push(
            NetworkMiddlewareConfigDef {
                name: middleware.name.clone(),
                middleware: middleware.middleware.clone(),
                order: middleware.order,
                config,
                on_error: middleware.on_error.clone(),
                endpoints: copy_selector(&middleware.endpoints),
            },
        );
        proof {
            assert forall|j: int| 0 <= j < i + 1 implies #[trigger] out.deep_view()[j]
                == definition_of(configs[j]) by {
                if j < i {
                    assert(out.deep_view()[j] == before[j]);
                }
            }
        }
        i += 1;
    }
    assert(out.deep_view() =~= Seq::new(configs.len(), |i: int| definition_of(configs[i])));
    out
}

/// A definition keeps everything but its configuration on the way to its protobuf
/// form and back, and its configuration keeps everything but the form of its
/// numbers.
pub proof fn law_definition_round_trip(def: DefView)
    requires
        unrepresentable_member(def.config, def.config.len()) is None,
    ensures
        definition_of(proto_form(def)) == (DefView {
            config: Seq::new(
                def.config.len(),
                |i: int|
                    (def.config[i].0, crate::proto_struct::with_doubles(def.config[i].1)),
            ),
            ..def
        }),
{
    let back = definition_of(proto_form(def)).config;
    let expected = Seq::new(
        def.config.len(),
        |i: int| (def.config[i].0, crate::proto_struct::with_doubles(def.config[i].1)),
    );
    assert forall|i: int| 0 <= i < def.config.len() implies #[trigger] back[i] == expected[i] by {
        lemma_member_is_representable(def.config, def.config.len(), i);
        crate::proto_struct::law_json_round_trip(def.config[i].1);
    }
    assert(back =~= expected);
}

proof fn lemma_member_is_representable(members: Seq<(Seq<char>, JsonView)>, n: nat, i: int)
    requires
        0 <= i < n <= members.len(),
        unrepresentable_member(members, n) is None,
    ensures
        crate::proto_struct::unrepresentable(members[i].1) is None,
    decreases n,
{
    if i < n - 1 {
        lemma_member_is_representable(members, (n - 1) as nat, i);
    }
}

// ---------------------------------------------------------------------------
// Validation
// ---------------------------------------------------------------------------

/// What is wrong with a policy's middleware section.
#[derive(Debug, Clone, PartialEq, Eq)]
pub enum PolicyViolation {
    InvalidMiddlewareConfig { name: String, reason: String },
    DuplicateMiddlewareConfigName { name: String },
    InvalidBuiltinMiddlewareConfig { name: String, reason: String },
    MiddlewareTlsSkipConflict { middleware_name: String, policy_name: String, host: String },
}

/// The content of a violation.
pub enum ViolationView {
    InvalidMiddlewareConfig { name: Seq<char>, reason: Seq<char> },
    DuplicateMiddlewareConfigName { name: Seq<char> },
    InvalidBuiltinMiddlewareConfig { name: Seq<char>, reason: Seq<char> },
    MiddlewareTlsSkipConflict { middleware_name: Seq<char>, policy_name: Seq<char>, host: Seq<char> },
}

impl DeepView for PolicyViolation {
    type V = ViolationView;

    open spec fn deep_view(&self) -> ViolationView {
        match self {
            PolicyViolation::InvalidMiddlewareConfig { name, reason } =>
                ViolationView::InvalidMiddlewareConfig { name: name@, reason: reason@ },
            PolicyViolation::DuplicateMiddlewareConfigName { name } =>
                ViolationView::DuplicateMiddlewareConfigName { name: name@ },
            PolicyViolation::InvalidBuiltinMiddlewareConfig { name, reason } =>
                ViolationView::InvalidBuiltinMiddlewareConfig { name: name@, reason: reason@ },
            PolicyViolation::MiddlewareTlsSkipConflict { middleware_name, policy_name, host } =>
                ViolationView::MiddlewareTlsSkipConflict {
                    middleware_name: middleware_name@,
                    policy_name: policy_name@,
                    host: host@,
                },
        }
    }
}

/// An endpoint of a network policy, as far as middlewares are concerned.
#[derive(Debug, Clone, PartialEq, Eq)]
pub struct NetworkEndpoint {
    pub host: String,
    pub tls: String,
}

/// The content of an endpoint.
pub struct EndpointView {
    pub host: Seq<char>,
    pub tls: Seq<char>,
}

impl DeepView for NetworkEndpoint {
    type V = EndpointView;

    open spec fn deep_view(&self) -> EndpointView {
        EndpointView { host: self.host@, tls: self.tls@ }
    }
}

/// A network policy, as far as middlewares are concerned.
#[derive(Debug, Clone, PartialEq, Eq)]
pub struct NetworkPolicyRule {
    pub name: String,
    pub endpoints: Vec<NetworkEndpoint>,
}

/// The content of a network policy.
pub struct RuleView {
    pub name: Seq<char>,
    pub endpoints: Seq<EndpointView>,
}

impl DeepView for NetworkPolicyRule {
    type V = RuleView;

    open spec fn deep_view(&self) -> RuleView {
        RuleView { name: self.name@, endpoints: self.endpoints.deep_view() }
    }
}

/// A policy, as far as middlewares are concerned.
#[derive(Debug, PartialEq, Eq)]
pub struct SandboxPolicy {
    pub network_middlewares: Vec<NetworkMiddlewareConfig>,
    pub network_policies: Vec<(String, NetworkPolicyRule)>,
}

/// The content of a policy.
#[verifier::ext_equal]
pub struct PolicyView {
    pub network_middlewares: Seq<MiddlewareView>,
    pub network_policies: Seq<(Seq<char>, RuleView)>,
}

impl DeepView for SandboxPolicy {
    type V = PolicyView;

    open spec fn deep_view(&self) -> PolicyView {
        PolicyView {
            network_middlewares: self.network_middlewares.deep_view(),
            network_policies: self.network_policies.deep_view(),
        }
    }
}

/// What the host patterns of a policy say, beyond their text: why a pattern is
/// invalid, and which endpoint hosts the selector of each middleware may match.
#[derive(Debug, Clone, PartialEq, Eq)]
pub struct HostFacts {
    /// Each invalid pattern, with the reason.
    pub invalid: Vec<(String, String)>,
    /// For each middleware, the endpoint hosts that its selector may match.
    pub overlaps: Vec<Vec<String>>,
}

/// The content of host facts.
#[verifier::ext_equal]
pub struct HostFactsView {
    pub invalid: Seq<(Seq<char>, Seq<char>)>,
    pub overlaps: Seq<Seq<Seq<char>>>,
}

impl DeepView for HostFacts {
    type V = HostFactsView;

    open spec fn deep_view(&self) -> HostFactsView {
        HostFactsView {
            invalid: self.invalid.deep_view(),
            overlaps: self.overlaps.deep_view(),
        }
    }
}

/// A violation of a middleware's configuration.
pub open spec fn invalid(name: Seq<char>, reason: Seq<char>) -> ViolationView {
    ViolationView::InvalidMiddlewareConfig { name, reason }
}

/// What is wrong with the name of the `i`th middleware.
pub open spec fn name_violations(middlewares: Seq<MiddlewareView>, i: int) -> Seq<ViolationView> {
    let name = middlewares[i].name;
    if name.len() == 0 {
        seq![invalid(name, "name must not be empty"@)]
    } else if exists|j: int| 0 <= j < i && (#[trigger] middlewares[j]).name == name {
        seq![ViolationView::DuplicateMiddlewareConfigName { name }]
    } else {
        Seq::empty()
    }
}

/// What is wrong with the implementation that a middleware names.
pub open spec fn implementation_violations(middleware: MiddlewareView) -> Seq<ViolationView> {
    if middleware.middleware.len() == 0 {
        seq![invalid(middleware.name, "implementation must not be empty"@)]
    } else if text::starts_with(middleware.middleware, "openshell/"@) && middleware.middleware
        != BUILTIN_SECRETS@ {
        seq![
            invalid(
                middleware.name,
                "unsupported built-in '"@ + middleware.middleware + "'"@,
            ),
        ]
    } else {
        Seq::empty()
    }
}

/// What is wrong with a middleware's error policy.
pub open spec fn on_error_violations(middleware: MiddlewareView) -> Seq<ViolationView> {
    if middleware.on_error == ""@ || middleware.on_error == "fail_closed"@ || middleware.on_error
        == "fail_open"@ {
        Seq::empty()
    } else {
        seq![invalid(middleware.name, "invalid on_error '"@ + middleware.on_error + "'"@)]
    }
}

/// What is wrong with the first `n` of a list of host patterns.
pub open spec fn pattern_violations(
    name: Seq<char>,
    patterns: Seq<Seq<char>>,
    facts: HostFactsView,
    n: nat,
) -> Seq<ViolationView>
    decreases n,
{
    if n == 0 || n > patterns.len() {
        Seq::empty()
    } else {
        let before = pattern_violations(name, patterns, facts, (n - 1) as nat);
        let pattern = patterns[n - 1];
        match ordered::lookup(facts.invalid, pattern) {
            None => before,
            Some(reason) => before.push(
                invalid(
                    name,
                    "endpoint selector pattern '"@ + pattern + "' is invalid: "@ + reason,
                ),
            ),
        }
    }
}

/// The patterns of a selector: those that it includes, then those that it
/// excludes.
pub open spec fn patterns_of(selector: SelectorView) -> Seq<Seq<char>> {
    selector.included + selector.excluded
}

/// The selector includes a pattern, and all its patterns are valid.
pub open spec fn selector_is_valid(selector: SelectorView, facts: HostFactsView) -> bool {
    &&& selector.included.len() > 0
    &&& forall|i: int|
        0 <= i < patterns_of(selector).len() ==> ordered::lookup(
            facts.invalid,
            #[trigger] patterns_of(selector)[i],
        ) is None
}

/// What is wrong with a middleware's selector.
pub open spec fn selector_violations(
    name: Seq<char>,
    selector: SelectorView,
    facts: HostFactsView,
) -> Seq<ViolationView> {
    let patterns = patterns_of(selector);
    (if selector.included.len() == 0 {
        seq![invalid(name, "endpoint selector must include at least one host pattern"@)]
    } else {
        Seq::empty()
    }) + pattern_violations(name, patterns, facts, patterns.len())
}

/// What is wrong with the configuration of a built-in middleware. Without one, the
/// empty configuration counts.
pub open spec fn builtin_violations(middleware: MiddlewareView) -> Seq<ViolationView> {
    let config = match middleware.config {
        Some(fields) => fields,
        None => FieldsView::empty(),
    };
    let verdict = builtin_verdict(middleware.middleware, config);
    if middleware.middleware == BUILTIN_SECRETS@ && verdict is Err {
        seq![
            ViolationView::InvalidBuiltinMiddlewareConfig {
                name: middleware.name,
                reason: verdict->Err_0,
            },
        ]
    } else {
        Seq::empty()
    }
}

/// The name that a network policy goes by.
pub open spec fn policy_name(key: Seq<char>, rule: RuleView) -> Seq<char> {
    if rule.name.len() == 0 {
        key
    } else {
        rule.name
    }
}

/// The endpoints among the first `n` of a policy that a middleware would have to
/// read though their TLS is passed through.
pub open spec fn endpoint_conflicts(
    name: Seq<char>,
    policy: Seq<char>,
    endpoints: Seq<EndpointView>,
    hosts: Seq<Seq<char>>,
    n: nat,
) -> Seq<ViolationView>
    decreases n,
{
    if n == 0 || n > endpoints.len() {
        Seq::empty()
    } else {
        let before = endpoint_conflicts(name, policy, endpoints, hosts, (n - 1) as nat);
        let endpoint = endpoints[n - 1];
        if endpoint.tls == "skip"@ && hosts.contains(endpoint.host) {
            before.push(
                ViolationView::MiddlewareTlsSkipConflict {
                    middleware_name: name,
                    policy_name: policy,
                    host: endpoint.host,
                },
            )
        } else {
            before
        }
    }
}

/// Such endpoints in the first `n` policies.
pub open spec fn policy_conflicts(
    name: Seq<char>,
    policies: Seq<(Seq<char>, RuleView)>,
    hosts: Seq<Seq<char>>,
    n: nat,
) -> Seq<ViolationView>
    decreases n,
{
    if n == 0 || n > policies.len() {
        Seq::empty()
    } else {
        let (key, rule) = policies[n - 1];
        policy_conflicts(name, policies, hosts, (n - 1) as nat) + endpoint_conflicts(
            name,
            policy_name(key, rule),
            rule.endpoints,
            hosts,
            rule.endpoints.len(),
        )
    }
}

/// What is wrong with the `i`th middleware.
pub open spec fn violations_of(
    policy: PolicyView,
    facts: HostFactsView,
    i: int,
) -> Seq<ViolationView> {
    let middleware = policy.network_middlewares[i];
    let first = name_violations(policy.network_middlewares, i) + implementation_violations(
        middleware,
    ) + on_error_violations(middleware);
    match middleware.endpoints {
        None => first.push(invalid(middleware.name, "endpoint selector is required"@)),
        Some(selector) => first + selector_violations(middleware.name, selector, facts)
            + builtin_violations(middleware) + (if selector_is_valid(
            selector,
            facts,
        ) {
            policy_conflicts(
                middleware.name,
                policy.network_policies,
                facts.overlaps[i],
                policy.network_policies.len(),
            )
        } else {
            Seq::empty()
        }),
    }
}

/// What is wrong with the first `n` middlewares.
pub open spec fn all_violations(
    policy: PolicyView,
    facts: HostFactsView,
    n: nat,
) -> Seq<ViolationView>
    decreases n,
{
    if n == 0 {
        Seq::empty()
    } else {
        all_violations(policy, facts, (n - 1) as nat) + violations_of(
            policy,
            facts,
            n - 1,
        )
    }
}

fn push_invalid(violations: &mut Vec<PolicyViolation>, name: &str, reason: String)
    ensures
        final(violations).deep_view() == old(violations).deep_view().push(invalid(name@, reason@)),
{
    let ghost before = violations.deep_view();
    let ghost text = reason@;
    violations.push(PolicyViolation::InvalidMiddlewareConfig { name: name.to_owned(), reason });
    assert(violations.deep_view() =~= before.push(invalid(name@, text)));
}

fn check_name(
    middlewares: &Vec<NetworkMiddlewareConfig>,
    i: usize,
    violations: &mut Vec<PolicyViolation>,
)
    requires
        i < middlewares.len(),
    ensures
        final(violations).deep_view() == old(violations).deep_view() + name_violations(
            middlewares.deep_view(),
            i as int,
        ),
{
    let ghost list = middlewares.deep_view();
    let ghost before = violations.deep_view();
    let name = middlewares[i].name.as_str();
    assert(list[i as int].name == name@);
    if name.is_empty() {
        push_invalid(violations, name, "name must not be empty".to_owned());
        assert(violations.deep_view() =~= before + name_violations(list, i as int));
        return;
    }
    let mut j: usize = 0;
    while j < i
        invariant
            j <= i < middlewares.len(),
            list == middlewares.deep_view(),
            before == old(violations).deep_view(),
            violations.deep_view() == before,
            name@ == list[i as int].name,
            name@.len() > 0,
            forall|k: int| 0 <= k < j ==> (#[trigger] list[k]).name != name@,
        decreases i - j,
    {
        assert(list[j as int].name == middlewares@[j as int].name@);
        if text::same(middlewares[j].name.as_str(), name) {
            violations.push(
                PolicyViolation::DuplicateMiddlewareConfigName { name: name.to_owned() },
            );
            proof {
                assert(list[j as int].name == name@);
                assert(violations.deep_view() =~= before + name_violations(list, i as int));
            }
            return;
        }
        j += 1;
    }
    assert(violations.deep_view() =~= before + name_violations(list, i as int));
}

fn check_implementation(
    middleware: &NetworkMiddlewareConfig,
    violations: &mut Vec<PolicyViolation>,
)
    ensures
        final(violations).deep_view() == old(violations).deep_view() + (implementation_violations(
            middleware.deep_view(),
        ) + on_error_violations(middleware.deep_view())),
{
    let ghost before = violations.deep_view();
    let ghost seen = middleware.deep_view();
    let name = middleware.name.as_str();
    let implementation = middleware.middleware.as_str();
    let on_error = middleware.on_error.as_str();
    if implementation.is_empty() {
        push_invalid(violations, name, "implementation must not be empty".to_owned());
    } else if text::has_prefix(implementation, "openshell/") && !text::same(
        implementation,
        BUILTIN_SECRETS,
    ) {
        push_invalid(violations, name, cat3("unsupported built-in '", implementation, "'"));
    }
    assert(violations.deep_view() =~= before + implementation_violations(seen));
    let ghost middle = violations.deep_view();
    if !(text::same(on_error, "") || text::same(on_error, "fail_closed") || text::same(
        on_error,
        "fail_open",
    )) {
        push_invalid(violations, name, cat3("invalid on_error '", on_error, "'"));
    }
    proof {
        assert(violations.deep_view() =~= middle + on_error_violations(seen));
        assert(violations.deep_view() =~= before + (implementation_violations(seen)
            + on_error_violations(seen)));
    }
}

fn check_patterns(
    name: &str,
    patterns: &Vec<String>,
    facts: &HostFacts,
    violations: &mut Vec<PolicyViolation>,
) -> (r: bool)
    ensures
        final(violations).deep_view() == old(violations).deep_view() + pattern_violations(
            name@,
            patterns.deep_view(),
            facts.deep_view(),
            patterns@.len(),
        ),
        r == (forall|i: int|
            0 <= i < patterns@.len() ==> ordered::lookup(
                facts.deep_view().invalid,
                #[trigger] patterns.deep_view()[i],
            ) is None),
{
    let ghost list = patterns.deep_view();
    let ghost known = facts.deep_view();
    let ghost before = violations.deep_view();
    let mut valid = true;
    let mut i: usize = 0;
    proof {
        assert(before + pattern_violations(name@, list, known, 0) =~= before);
    }
    while i < patterns.len()
        invariant
            i <= patterns.len(),
            list == patterns.deep_view(),
            known == facts.deep_view(),
            violations.deep_view() == before + pattern_violations(name@, list, known, i as nat),
            valid == (forall|j: int|
                0 <= j < i ==> ordered::lookup(known.invalid, #[trigger] list[j]) is None),
        decreases patterns.len() - i,
    {
        let ghost so_far = violations.deep_view();
        let pattern = patterns[i].as_str();
        assert(list[i as int] == pattern@);
        if let Some(reason) = ordered::get(&facts.invalid, pattern) {
            valid = false;
            push_invalid(
                violations,
                name,
                text::cat4(
                    "endpoint selector pattern '",
                    pattern,
                    "' is invalid: ",
                    reason.as_str(),
                ),
            );
            proof {
                assert(ordered::lookup(known.invalid, list[i as int]) is Some);
            }
        }
        proof {
            assert(violations.deep_view() =~= before + pattern_violations(
                name@,
                list,
                known,
                (i + 1) as nat,
            ));
        }
        i += 1;
    }
    valid
}

fn all_patterns(selector: &MiddlewareEndpointSelector) -> (r: Vec<String>)
    ensures
        r.deep_view() == patterns_of(selector.deep_view()),
{
    let mut patterns = selector.included.clone();
    let mut more = selector.excluded.clone();
    let ghost joined = patterns.deep_view() + more.deep_view();
    patterns.append(&mut more);
    assert(patterns.deep_view() =~= joined);
    patterns
}

fn check_endpoints(
    name: &str,
    policy: &str,
    endpoints: &Vec<NetworkEndpoint>,
    hosts: &Vec<String>,
    violations: &mut Vec<PolicyViolation>,
)
    ensures
        final(violations).deep_view() == old(violations).deep_view() + endpoint_conflicts(
            name@,
            policy@,
            endpoints.deep_view(),
            hosts.deep_view(),
            endpoints@.len(),
        ),
{
    let ghost list = endpoints.deep_view();
    let ghost known = hosts.deep_view();
    let ghost before = violations.deep_view();
    let mut i: usize = 0;
    proof {
        assert(before + endpoint_conflicts(name@, policy@, list, known, 0) =~= before);
    }
    while i < endpoints.len()
        invariant
            i <= endpoints.len(),
            list == endpoints.deep_view(),
            known == hosts.deep_view(),
            violations.deep_view() == before + endpoint_conflicts(
                name@,
                policy@,
                list,
                known,
                i as nat,
            ),
        decreases endpoints.len() - i,
    {
        let endpoint = &endpoints[i];
        let ghost so_far = violations.deep_view();
        assert(list[i as int] == endpoint.deep_view());
        if text::same(endpoint.tls.as_str(), "skip") && text::list_contains(
            hosts,
            endpoint.host.as_str(),
        ) {
            violations.push(
                PolicyViolation::MiddlewareTlsSkipConflict {
                    middleware_name: name.to_owned(),
                    policy_name: policy.to_owned(),
                    host: endpoint.host.clone(),
                },
            );
            proof {
                assert(violations.deep_view() =~= so_far.push(
                    ViolationView::MiddlewareTlsSkipConflict {
                        middleware_name: name@,
                        policy_name: policy@,
                        host: endpoint.host@,
                    },
                ));
            }
        }
        proof {
            assert(violations.deep_view() =~= before + endpoint_conflicts(
                name@,
                policy@,
                list,
                known,
                (i + 1) as nat,
            ));
        }
        i += 1;
    }
}

fn check_policies(
    name: &str,
    policies: &Vec<(String, NetworkPolicyRule)>,
    hosts: &Vec<String>,
    violations: &mut Vec<PolicyViolation>,
)
    ensures
        final(violations).deep_view() == old(violations).deep_view() + policy_conflicts(
            name@,
            policies.deep_view(),
            hosts.deep_view(),
            policies@.len(),
        ),
{
    let ghost list = policies.deep_view();
    let ghost known = hosts.deep_view();
    let ghost before = violations.deep_view();
    let mut i: usize = 0;
    proof {
        assert(before + policy_conflicts(name@, list, known, 0) =~= before);
    }
    while i < policies.len()
        invariant
            i <= policies.len(),
            list == policies.deep_view(),
            known == hosts.deep_view(),
            violations.deep_view() == before + policy_conflicts(name@, list, known, i as nat),
        decreases policies.len() - i,
    {
        let key = policies[i].0.as_str();
        let rule = &policies[i].1;
        assert(list[i as int] == (key@, rule.deep_view()));
        let policy = if rule.name.as_str().is_empty() {
            key
        } else {
            rule.name.as_str()
        };
        check_endpoints(name, policy, &rule.endpoints, hosts, violations);
        proof {
            assert(violations.deep_view() =~= before + policy_conflicts(
                name@,
                list,
                known,
                (i + 1) as nat,
            ));
        }
        i += 1;
    }
}

fn check_middleware(
    policy: &SandboxPolicy,
    facts: &HostFacts,
    i: usize,
    violations: &mut Vec<PolicyViolation>,
)
    requires
        i < policy.network_middlewares.len(),
        facts.overlaps.len() == policy.network_middlewares.len(),
    ensures
        final(violations).deep_view() == old(violations).deep_view() + violations_of(
            policy.deep_view(),
            facts.deep_view(),
            i as int,
        ),
{
    let ghost before = violations.deep_view();
    let ghost expected = violations_of(
        policy.deep_view(),
        facts.deep_view(),
        i as int,
    );
    let middleware = &policy.network_middlewares[i];
    let ghost seen = middleware.deep_view();
    assert(policy.deep_view().network_middlewares[i as int] == seen);
    check_name(&policy.network_middlewares, i, violations);
    check_implementation(middleware, violations);
    let ghost first = name_violations(policy.deep_view().network_middlewares, i as int)
        + implementation_violations(seen) + on_error_violations(seen);
    assert(violations.deep_view() =~= before + first);
    let selector = match &middleware.endpoints {
        Some(selector) => selector,
        None => {
            push_invalid(
                violations,
                middleware.name.as_str(),
                "endpoint selector is required".to_owned(),
            );
            assert(violations.deep_view() =~= before + expected);
            return;
        },
    };
    if selector.included.len() == 0 {
        push_invalid(
            violations,
            middleware.name.as_str(),
            "endpoint selector must include at least one host pattern".to_owned(),
        );
    }
    let patterns = all_patterns(selector);
    let patterns_valid = check_patterns(middleware.name.as_str(), &patterns, facts, violations);
    let selector_valid = selector.included.len() > 0 && patterns_valid;
    proof {
        assert(violations.deep_view() =~= before + (first + selector_violations(
            seen.name,
            selector.deep_view(),
            facts.deep_view(),
        )));
        assert(selector_valid == selector_is_valid(selector.deep_view(), facts.deep_view()));
    }
    let ghost second = violations.deep_view();
    if text::same(middleware.middleware.as_str(), BUILTIN_SECRETS) {
        let verdict = match &middleware.config {
            Some(config) => validate_builtin_config(BUILTIN_SECRETS, config),
            None => validate_builtin_config(BUILTIN_SECRETS, &Struct::default()),
        };
        if let Err(reason) = verdict {
            violations.push(
                PolicyViolation::InvalidBuiltinMiddlewareConfig {
                    name: middleware.name.clone(),
                    reason,
                },
            );
        }
    }
    proof {
        assert(violations.deep_view() =~= second + builtin_violations(seen));
        assert(facts.deep_view().overlaps[i as int] == facts.overlaps@[i as int].deep_view());
    }
    if selector_valid {
        check_policies(
            middleware.name.as_str(),
            &policy.network_policies,
            &facts.overlaps[i],
            violations,
        );
    }
    assert(violations.deep_view() =~= before + expected);
}

/// Validates the middleware section of a policy. `facts` holds what the host
/// patterns say.
pub fn validate(
    policy: &SandboxPolicy,
    facts: &HostFacts,
) -> (r: Vec<PolicyViolation>)
    requires
        facts.overlaps.len() == policy.network_middlewares.len(),
    ensures
        r.deep_view() == all_violations(
            policy.deep_view(),
            facts.deep_view(),
            policy.network_middlewares@.len(),
        ),
{
    let mut violations: Vec<PolicyViolation> = Vec::new();
    let mut i: usize = 0;
    proof {
        assert(violations.deep_view() =~= Seq::<ViolationView>::empty());
    }
    while i < policy.network_middlewares.len()
        invariant
            i <= policy.network_middlewares.len(),
            facts.overlaps.len() == policy.network_middlewares.len(),
            violations.deep_view() == all_violations(
                policy.deep_view(),
                facts.deep_view(),
                i as nat,
            ),
        decreases policy.network_middlewares.len() - i,
    {
        check_middleware(policy, facts, i, &mut violations);
        i += 1;
    }
    violations
}

/// The part of a runtime policy document that validation reads.
#[derive(Debug, PartialEq, Eq)]
pub struct MiddlewareValidationPolicyDef {
    pub network_middlewares: Vec<NetworkMiddlewareConfigDef>,
    pub network_policies: Vec<(String, NetworkPolicyRule)>,
}

/// Why a runtime policy document could not be validated.
#[derive(Debug, PartialEq, Eq)]
pub enum ValidationError {
    /// The document could not be read.
    Parse(String),
    /// A number in it has no protobuf form.
    Convert(ProtoStructError),
}

/// Validates the middleware section of a runtime policy document, where `parsed`
/// is what reading the document gave.
pub fn validate_json(
    parsed: Result<MiddlewareValidationPolicyDef, String>,
    facts: &HostFacts,
) -> (r: Result<Vec<PolicyViolation>, ValidationError>)
    requires
        parsed matches Ok(def) ==> facts.overlaps.len() == def.network_middlewares.len(),
    ensures
        match parsed {
            Err(error) => r matches Err(ValidationError::Parse(message)) && message@
                == "failed to parse network middleware policy: "@ + error@,
            Ok(def) => match defs_converted(def.network_middlewares.deep_view()) {
                Err(number) => r matches Err(ValidationError::Convert(problem))
                    && problem.deep_view() == number,
                Ok(middlewares) => r matches Ok(violations) && violations.deep_view()
                    == all_violations(
                    PolicyView {
                        network_middlewares: middlewares,
                        network_policies: def.network_policies.deep_view(),
                    },
                    facts.deep_view(),
                    middlewares.len(),
                ),
            },
        },
{
    let definition = match parsed {
        Ok(definition) => definition,
        Err(error) => {
            return Err(
                ValidationError::Parse(
                    text::cat2("failed to parse network middleware policy: ", error.as_str()),
                ),
            );
        },
    };
    match into_proto(&definition.network_middlewares) {
        Ok(network_middlewares) => {
            proof {
                assert(network_middlewares.deep_view().len() == network_middlewares@.len());
                assert(definition.network_middlewares.deep_view().len()
                    == definition.network_middlewares@.len());
            }
            let policy = SandboxPolicy {
                network_middlewares,
                network_policies: definition.network_policies,
            };
            Ok(validate(&policy, facts))
        },
        Err(error) => Err(ValidationError::Convert(error)),
    }
}

/// Middlewares with a valid name, implementation, error policy, selector and
/// configuration, that no endpoint with passed-through TLS meets, are not
/// complained of; any other middleware is.
pub proof fn law_valid_middleware_has_no_violation(
    policy: PolicyView,
    facts: HostFactsView,
    i: int,
)
    requires
        0 <= i < policy.network_middlewares.len(),
    ensures
        violations_of(policy, facts, i).len() == 0 <==> ({
            let middleware = policy.network_middlewares[i];
            &&& name_violations(policy.network_middlewares, i).len() == 0
            &&& implementation_violations(middleware).len() == 0
            &&& on_error_violations(middleware).len() == 0
            &&& middleware.endpoints is Some
            &&& selector_is_valid(middleware.endpoints->0, facts)
            &&& builtin_violations(middleware).len() == 0
            &&& policy_conflicts(
                middleware.name,
                policy.network_policies,
                facts.overlaps[i],
                policy.network_policies.len(),
            ).len() == 0
        }),
{
    let middleware = policy.network_middlewares[i];
    if let Some(selector) = middleware.endpoints {
        let patterns = patterns_of(selector);
        lemma_pattern_violations(middleware.name, patterns, facts, patterns.len());
    }
}

proof fn lemma_pattern_violations(
    name: Seq<char>,
    patterns: Seq<Seq<char>>,
    facts: HostFactsView,
    n: nat,
)
    requires
        n <= patterns.len(),
    ensures
        pattern_violations(name, patterns, facts, n).len() == 0 <==> (forall|i: int|
            0 <= i < n ==> ordered::lookup(facts.invalid, #[trigger] patterns[i]) is None),
    decreases n,
{
    if n > 0 {
        lemma_pattern_violations(name, patterns, facts, (n - 1) as nat);
    }
}

} // verus!
