//! Planning bindings: what the manifest of an interceptor declares, narrowed by
//! the overrides of its configuration.

use crate::interceptors::config::{
    failure_policy_parsed, open_selector, BindingMatchConfig, BindingOverrideConfig, BindingView,
    ConfigErrorView, ConfigView, FailurePolicy, InterceptorBinding, InterceptorConfig,
    InterceptorConfigError, InterceptorManifest, InterceptorSelector, MatchView, OverrideView,
    SelectorView, TextMap, PHASE_POST_COMMIT,
};
use crate::ordered;
use crate::outcome::shown;
use crate::text;
use vstd::prelude::*;

verus! {

/// A binding of an interceptor, as it is asked.
#[derive(Debug, Clone, PartialEq, Eq)]
pub struct RuntimeBinding {
    pub interceptor_name: String,
    pub binding_id: String,
    pub service_order: i32,
    pub binding_order: i32,
    pub phases: Vec<String>,
    pub resources: Vec<String>,
    pub operations: Vec<String>,
    pub failure_policy: FailurePolicy,
    pub selector: InterceptorSelector,
}

/// The content of a planned binding.
#[verifier::ext_equal]
pub struct PlanView {
    pub interceptor_name: Seq<char>,
    pub binding_id: Seq<char>,
    pub service_order: i32,
    pub binding_order: i32,
    pub phases: Seq<Seq<char>>,
    pub resources: Seq<Seq<char>>,
    pub operations: Seq<Seq<char>>,
    pub failure_policy: FailurePolicy,
    pub selector: SelectorView,
}

impl DeepView for RuntimeBinding {
    type V = PlanView;

    open spec fn deep_view(&self) -> PlanView {
        PlanView {
            interceptor_name: self.interceptor_name@,
            binding_id: self.binding_id@,
            service_order: self.service_order,
            binding_order: self.binding_order,
            phases: self.phases.deep_view(),
            resources: self.resources.deep_view(),
            operations: self.operations.deep_view(),
            failure_policy: self.failure_policy,
            selector: self.selector.deep_view(),
        }
    }
}

// ---------------------------------------------------------------------------
// Narrowing
// ---------------------------------------------------------------------------

/// The refusal of an override that widens a field.
pub open spec fn expands(interceptor: Seq<char>, binding: Seq<char>, field: Seq<char>) -> ConfigErrorView {
    ConfigErrorView::OverrideExpands { interceptor, binding, field }
}

/// Every text of one list is in the other.
pub open spec fn all_among(values: Seq<Seq<char>>, declared: Seq<Seq<char>>) -> bool {
    forall|i: int| 0 <= i < values.len() ==> declared.contains(#[trigger] values[i])
}

/// A declared list, narrowed by an override. An empty declaration admits
/// everything, so that any override narrows it.
pub open spec fn narrowed_list(
    interceptor: Seq<char>,
    binding: Seq<char>,
    field: Seq<char>,
    declared: Seq<Seq<char>>,
    values: Option<Seq<Seq<char>>>,
) -> Result<Seq<Seq<char>>, ConfigErrorView> {
    match values {
        None => Ok(declared),
        Some(values) => if declared.len() > 0 && !all_among(values, declared) {
            Err(expands(interceptor, binding, field))
        } else {
            Ok(values)
        },
    }
}

/// A label of the override contradicts a declared one.
pub open spec fn contradicts(declared: TextMap, values: TextMap) -> bool {
    exists|i: int|
        0 <= i < values.len() && (ordered::lookup(declared, (#[trigger] values[i]).0) matches Some(
            value,
        ) && value != values[i].1)
}

/// Declared labels, narrowed by an override: the override may add labels that a
/// request must have, and may not change one.
pub open spec fn narrowed_labels(
    interceptor: Seq<char>,
    binding: Seq<char>,
    declared: TextMap,
    values: Option<TextMap>,
) -> Result<TextMap, ConfigErrorView> {
    let known = ordered::put_all(TextMap::empty(), declared);
    match values {
        None => Ok(known),
        Some(values) => if contradicts(known, values) {
            Err(expands(interceptor, binding, "labels"@))
        } else {
            Ok(ordered::put_all(known, values))
        },
    }
}

fn narrow_list(
    config: &InterceptorConfig,
    binding: &InterceptorBinding,
    field: &'static str,
    declared: &Vec<String>,
    override_values: Option<&Vec<String>>,
) -> (r: Result<Vec<String>, InterceptorConfigError>)
    ensures
        shown(r) == narrowed_list(
            config.name@,
            binding.id@,
            field@,
            declared.deep_view(),
            override_values.deep_view(),
        ),
{
    let values = match override_values {
        Some(values) => values,
        None => {
            return Ok(declared.clone());
        },
    };
    let ghost list = values.deep_view();
    let ghost known = declared.deep_view();
    if declared.len() > 0 {
        let mut i: usize = 0;
        while i < values.len()
            invariant
                i <= values.len(),
                declared.len() > 0,
                list == values.deep_view(),
                known == declared.deep_view(),
                override_values == Some(values),
                forall|j: int| 0 <= j < i ==> known.contains(#[trigger] list[j]),
            decreases values.len() - i,
        {
            assert(list[i as int] == values@[i as int]@);
            if !text::list_contains(declared, values[i].as_str()) {
                assert(!known.contains(list[i as int]));
                return Err(
                    InterceptorConfigError::OverrideExpands {
                        interceptor: config.name.clone(),
                        binding: binding.id.clone(),
                        field,
                    },
                );
            }
            i += 1;
        }
    }
    Ok(values.clone())
}

fn narrow_labels(
    config: &InterceptorConfig,
    binding: &InterceptorBinding,
    declared: &Vec<(String, String)>,
    override_values: Option<&Vec<(String, String)>>,
) -> (r: Result<Vec<(String, String)>, InterceptorConfigError>)
    ensures
        shown(r) == narrowed_labels(
            config.name@,
            binding.id@,
            declared.deep_view(),
            override_values.deep_view(),
        ),
{
    let mut narrowed: Vec<(String, String)> = Vec::new();
    proof {
        assert(narrowed.deep_view() =~= TextMap::empty());
    }
    ordered::insert_all(&mut narrowed, declared);
    let ghost known = narrowed.deep_view();
    let values = match override_values {
        Some(values) => values,
        None => {
            return Ok(narrowed);
        },
    };
    let ghost list = values.deep_view();
    let mut i: usize = 0;
    while i < values.len()
        invariant
            i <= values.len(),
            list == values.deep_view(),
            narrowed.deep_view() == known,
            known == ordered::put_all(TextMap::empty(), declared.deep_view()),
            override_values == Some(values),
            forall|j: int|
                0 <= j < i ==> !(ordered::lookup(known, (#[trigger] list[j]).0) matches Some(value)
                    && value != list[j].1),
        decreases values.len() - i,
    {
        assert(list[i as int] == (values@[i as int].0@, values@[i as int].1@));
        if let Some(declared_value) = ordered::get(&narrowed, values[i].0.as_str()) {
            if !text::same(declared_value.as_str(), values[i].1.as_str()) {
                assert(contradicts(known, list));
                return Err(
                    InterceptorConfigError::OverrideExpands {
                        interceptor: config.name.clone(),
                        binding: binding.id.clone(),
                        field: "labels",
                    },
                );
            }
        }
        i += 1;
    }
    ordered::insert_all(&mut narrowed, values);
    Ok(narrowed)
}

// ---------------------------------------------------------------------------
// Plans
// ---------------------------------------------------------------------------

/// The first override of a binding.
pub open spec fn override_of(overrides: Seq<OverrideView>, id: Seq<char>) -> Option<OverrideView>
    decreases overrides.len(),
{
    if overrides.len() == 0 {
        None
    } else if overrides[0].binding == id {
        Some(overrides[0])
    } else {
        override_of(overrides.skip(1), id)
    }
}

/// What an override narrows a binding's matches to.
pub open spec fn match_of(chosen: Option<OverrideView>) -> MatchView {
    match chosen {
        Some(chosen) => chosen.match_,
        None => MatchView {
            phases: None,
            resources: None,
            operations: None,
            principal_kinds: None,
            principal_groups: None,
            labels: None,
            compute_drivers: None,
        },
    }
}

/// A binding's selector, narrowed by an override.
pub open spec fn narrowed_selector(
    interceptor: Seq<char>,
    binding: BindingView,
    narrow: MatchView,
) -> Result<SelectorView, ConfigErrorView> {
    let selector = match binding.selector {
        Some(selector) => selector,
        None => open_selector(),
    };
    let id = binding.id;
    match narrowed_list(
        interceptor,
        id,
        "principal_kinds"@,
        selector.principal_kinds,
        narrow.principal_kinds,
    ) {
        Err(error) => Err(error),
        Ok(principal_kinds) => match narrowed_list(
            interceptor,
            id,
            "principal_groups"@,
            selector.principal_groups,
            narrow.principal_groups,
        ) {
            Err(error) => Err(error),
            Ok(principal_groups) => match narrowed_list(
                interceptor,
                id,
                "compute_drivers"@,
                selector.compute_drivers,
                narrow.compute_drivers,
            ) {
                Err(error) => Err(error),
                Ok(compute_drivers) => match narrowed_labels(
                    interceptor,
                    id,
                    selector.labels,
                    narrow.labels,
                ) {
                    Err(error) => Err(error),
                    Ok(labels) => Ok(
                        SelectorView {
                            principal_kinds,
                            principal_groups,
                            labels,
                            compute_drivers,
                        },
                    ),
                },
            },
        },
    }
}

/// Every phase is the one after the commit.
pub open spec fn only_post_commit(phases: Seq<Seq<char>>) -> bool {
    forall|i: int| 0 <= i < phases.len() ==> #[trigger] phases[i] == PHASE_POST_COMMIT@
}

/// The failure policy that a manifest declares for a binding, if it does.
pub open spec fn manifest_policy(binding: BindingView) -> Result<
    Option<FailurePolicy>,
    ConfigErrorView,
> {
    if text::trimmed(binding.default_failure_policy).len() == 0 {
        Ok(None)
    } else {
        match failure_policy_parsed(binding.default_failure_policy) {
            Ok(policy) => Ok(Some(policy)),
            Err(error) => Err(error),
        }
    }
}

/// The failure policy where nobody set one: only what happens after the commit
/// may be ignored.
pub open spec fn default_policy(phases: Seq<Seq<char>>) -> FailurePolicy {
    if only_post_commit(phases) {
        FailurePolicy::Ignore
    } else {
        FailurePolicy::FailClosed
    }
}

/// The failure policy of a binding: the override's, the configuration's, the
/// manifest's or the default, in this order.
pub open spec fn policy_of(
    chosen: Option<OverrideView>,
    config: ConfigView,
    declared: Option<FailurePolicy>,
    phases: Seq<Seq<char>>,
) -> FailurePolicy {
    match chosen {
        Some(OverrideView { failure_policy: Some(policy), .. }) => policy,
        _ => match config.failure_policy {
            Some(policy) => policy,
            None => match declared {
                Some(policy) => policy,
                None => default_policy(phases),
            },
        },
    }
}

/// The override turns a binding off.
pub open spec fn disabled(chosen: Option<OverrideView>) -> bool {
    chosen matches Some(chosen) && chosen.enabled == Some(false)
}

/// The plan of a binding that is not turned off.
pub open spec fn binding_planned(
    config: ConfigView,
    binding: BindingView,
    chosen: Option<OverrideView>,
) -> Result<PlanView, ConfigErrorView> {
    let narrow = match_of(chosen);
    let name = config.name;
    let id = binding.id;
    match narrowed_list(name, id, "phases"@, binding.phases, narrow.phases) {
        Err(error) => Err(error),
        Ok(phases) => match narrowed_list(
            name,
            id,
            "resources"@,
            binding.resources,
            narrow.resources,
        ) {
            Err(error) => Err(error),
            Ok(resources) => match narrowed_list(
                name,
                id,
                "operations"@,
                binding.operations,
                narrow.operations,
            ) {
                Err(error) => Err(error),
                Ok(operations) => match narrowed_selector(name, binding, narrow) {
                    Err(error) => Err(error),
                    Ok(selector) => match manifest_policy(binding) {
                        Err(error) => Err(error),
                        Ok(declared) => {
                            let failure_policy = policy_of(chosen, config, declared, phases);
                            if failure_policy == FailurePolicy::Ignore && !only_post_commit(
                                phases,
                            ) {
                                Err(
                                    ConfigErrorView::InvalidIgnorePolicy {
                                        interceptor: name,
                                        binding: id,
                                    },
                                )
                            } else {
                                Ok(
                                    PlanView {
                                        interceptor_name: name,
                                        binding_id: id,
                                        service_order: config.order,
                                        binding_order: match chosen {
                                            Some(OverrideView { order: Some(order), .. }) => order,
                                            _ => binding.order,
                                        },
                                        phases,
                                        resources,
                                        operations,
                                        failure_policy,
                                        selector,
                                    },
                                )
                            }
                        },
                    },
                },
            },
        },
    }
}

/// The plans of the first `n` bindings of a manifest, without those that are
/// turned off, or the first error.
pub open spec fn bindings_planned(config: ConfigView, bindings: Seq<BindingView>, n: nat) -> Result<
    Seq<PlanView>,
    ConfigErrorView,
>
    decreases n,
{
    if n == 0 || n > bindings.len() {
        Ok(Seq::empty())
    } else {
        match bindings_planned(config, bindings, (n - 1) as nat) {
            Err(error) => Err(error),
            Ok(plans) => {
                let binding = bindings[n - 1];
                let chosen = override_of(config.overrides, binding.id);
                if disabled(chosen) {
                    Ok(plans)
                } else {
                    match binding_planned(config, binding, chosen) {
                        Err(error) => Err(error),
                        Ok(plan) => Ok(plans.push(plan)),
                    }
                }
            },
        }
    }
}

proof fn lemma_planning_failed(config: ConfigView, bindings: Seq<BindingView>, n: nat)
    requires
        n <= bindings.len(),
        bindings_planned(config, bindings, n) is Err,
    ensures
        bindings_planned(config, bindings, bindings.len()) == bindings_planned(config, bindings, n),
    decreases bindings.len() - n,
{
    if n < bindings.len() {
        assert(bindings_planned(config, bindings, n + 1) == bindings_planned(config, bindings, n));
        lemma_planning_failed(config, bindings, n + 1);
    }
}

fn find_override<'a>(overrides: &'a Vec<BindingOverrideConfig>, id: &str) -> (r: Option<
    &'a BindingOverrideConfig,
>)
    ensures
        r.deep_view() == override_of(overrides.deep_view(), id@),
{
    let ghost list = overrides.deep_view();
    let mut i: usize = 0;
    proof {
        assert(list.skip(0) =~= list);
    }
    while i < overrides.len()
        invariant
            i <= overrides.len(),
            list == overrides.deep_view(),
            override_of(list, id@) == override_of(list.skip(i as int), id@),
        decreases overrides.len() - i,
    {
        proof {
            assert(list.skip(i as int)[0] == overrides@[i as int].deep_view());
            assert(list.skip(i as int).skip(1) =~= list.skip(i + 1));
        }
        if text::same(overrides[i].binding.as_str(), id) {
            return Some(&overrides[i]);
        }
        i += 1;
    }
    None
}

fn is_only_post_commit(phases: &Vec<String>) -> (r: bool)
    ensures
        r == only_post_commit(phases.deep_view()),
{
    let ghost list = phases.deep_view();
    let mut i: usize = 0;
    while i < phases.len()
        invariant
            i <= phases.len(),
            list == phases.deep_view(),
            forall|j: int| 0 <= j < i ==> #[trigger] list[j] == PHASE_POST_COMMIT@,
        decreases phases.len() - i,
    {
        assert(list[i as int] == phases@[i as int]@);
        if !text::same(phases[i].as_str(), PHASE_POST_COMMIT) {
            return false;
        }
        i += 1;
    }
    true
}

fn parse_manifest_failure_policy(binding: &InterceptorBinding) -> (r: Result<
    Option<FailurePolicy>,
    InterceptorConfigError,
>)
    ensures
        shown(r) == manifest_policy(binding.deep_view()),
{
    if text::is_blank(binding.default_failure_policy.as_str()) {
        return Ok(None);
    }
    match FailurePolicy::parse(binding.default_failure_policy.as_str()) {
        Ok(policy) => Ok(Some(policy)),
        Err(error) => Err(error),
    }
}

/// The failure policy where nobody set one.
pub fn default_failure_policy(phases: &Vec<String>) -> (r: FailurePolicy)
    ensures
        r == default_policy(phases.deep_view()),
{
    if is_only_post_commit(phases) {
        FailurePolicy::Ignore
    } else {
        FailurePolicy::FailClosed
    }
}

fn narrow_selector(
    config: &InterceptorConfig,
    binding: &InterceptorBinding,
    narrow: &BindingMatchConfig,
) -> (r: Result<InterceptorSelector, InterceptorConfigError>)
    ensures
        shown(r) == narrowed_selector(config.name@, binding.deep_view(), narrow.deep_view()),
{
    let open = InterceptorSelector::default();
    let selector = match &binding.selector {
        Some(selector) => selector,
        None => &open,
    };
    let principal_kinds = match narrow_list(
        config,
        binding,
        "principal_kinds",
        &selector.principal_kinds,
        narrow.principal_kinds.as_ref(),
    ) {
        Ok(list) => list,
        Err(error) => {
            return Err(error);
        },
    };
    let principal_groups = match narrow_list(
        config,
        binding,
        "principal_groups",
        &selector.principal_groups,
        narrow.principal_groups.as_ref(),
    ) {
        Ok(list) => list,
        Err(error) => {
            return Err(error);
        },
    };
    let compute_drivers = match narrow_list(
        config,
        binding,
        "compute_drivers",
        &selector.compute_drivers,
        narrow.compute_drivers.as_ref(),
    ) {
        Ok(list) => list,
        Err(error) => {
            return Err(error);
        },
    };
    match narrow_labels(config, binding, &selector.labels, narrow.labels.as_ref()) {
        Ok(labels) => Ok(
            InterceptorSelector { principal_kinds, principal_groups, labels, compute_drivers },
        ),
        Err(error) => Err(error),
    }
}

fn plan_binding(
    config: &InterceptorConfig,
    binding: &InterceptorBinding,
    chosen: Option<&BindingOverrideConfig>,
) -> (r: Result<RuntimeBinding, InterceptorConfigError>)
    ensures
        shown(r) == binding_planned(config.deep_view(), binding.deep_view(), chosen.deep_view()),
{
    let open = BindingMatchConfig::default();
    let narrow = match chosen {
        Some(chosen) => &chosen.match_,
        None => &open,
    };
    assert(narrow.deep_view() == match_of(chosen.deep_view()));
    let phases = match narrow_list(
        config,
        binding,
        "phases",
        &binding.phases,
        narrow.phases.as_ref(),
    ) {
        Ok(list) => list,
        Err(error) => {
            return Err(error);
        },
    };
    let resources = match narrow_list(
        config,
        binding,
        "resources",
        &binding.resources,
        narrow.resources.as_ref(),
    ) {
        Ok(list) => list,
        Err(error) => {
            return Err(error);
        },
    };
    let operations = match narrow_list(
        config,
        binding,
        "operations",
        &binding.operations,
        narrow.operations.as_ref(),
    ) {
        Ok(list) => list,
        Err(error) => {
            return Err(error);
        },
    };
    let selector = match narrow_selector(config, binding, narrow) {
        Ok(selector) => selector,
        Err(error) => {
            return Err(error);
        },
    };
    let declared = match parse_manifest_failure_policy(binding) {
        Ok(declared) => declared,
        Err(error) => {
            return Err(error);
        },
    };
    let overridden = match chosen {
        Some(chosen) => chosen.failure_policy,
        None => None,
    };
    let failure_policy = match overridden {
        Some(policy) => policy,
        None => match config.failure_policy {
            Some(policy) => policy,
            None => match declared {
                Some(policy) => policy,
                None => default_failure_policy(&phases),
            },
        },
    };
    assert(failure_policy == policy_of(
        chosen.deep_view(),
        config.deep_view(),
        declared.deep_view(),
        phases.deep_view(),
    ));
    if failure_policy == FailurePolicy::Ignore && !is_only_post_commit(&phases) {
        return Err(
            InterceptorConfigError::InvalidIgnorePolicy {
                interceptor: config.name.clone(),
                binding: binding.id.clone(),
            },
        );
    }
    let order = match chosen {
        Some(chosen) => chosen.order,
        None => None,
    };
    let binding_order: i32 = match order {
        Some(order) => order,
        None => binding.order,
    };
    Ok(
        RuntimeBinding {
            interceptor_name: config.name.clone(),
            binding_id: binding.id.clone(),
            service_order: config.order,
            binding_order,
            phases,
            resources,
            operations,
            failure_policy,
            selector,
        },
    )
}

/// The plans of a manifest's bindings: each narrowed by its override, without
/// those that are turned off.
pub fn plan_bindings(config: &InterceptorConfig, manifest: &InterceptorManifest) -> (r: Result<
    Vec<RuntimeBinding>,
    InterceptorConfigError,
>)
    ensures
        shown(r) == bindings_planned(
            config.deep_view(),
            manifest.deep_view().bindings,
            manifest.bindings@.len(),
        ),
{
    let ghost shown_config = config.deep_view();
    let ghost bindings = manifest.deep_view().bindings;
    let mut out: Vec<RuntimeBinding> = Vec::new();
    let mut i: usize = 0;
    proof {
        assert(out.deep_view() =~= Seq::<PlanView>::empty());
    }
    while i < manifest.bindings.len()
        invariant
            i <= manifest.bindings.len(),
            shown_config == config.deep_view(),
            bindings == manifest.deep_view().bindings,
            bindings_planned(shown_config, bindings, i as nat) == Ok::<
                Seq<PlanView>,
                ConfigErrorView,
            >(out.deep_view()),
        decreases manifest.bindings.len() - i,
    {
        let binding = &manifest.bindings[i];
        let ghost before = out.deep_view();
        assert(bindings[i as int] == binding.deep_view());
        let chosen = find_override(&config.overrides, binding.id.as_str());
        let off = match chosen {
            Some(chosen) => chosen.enabled == Some(false),
            None => false,
        };
        assert(off == disabled(chosen.deep_view()));
        if !off {
            match plan_binding(config, binding, chosen) {
                Ok(plan) => {
                    let ghost seen = plan.deep_view();
                    out.push(plan);
                    assert(out.deep_view() =~= before.push(seen));
                },
                Err(error) => {
                    proof {
                        lemma_planning_failed(shown_config, bindings, (i + 1) as nat);
                    }
                    return Err(error);
                },
            }
        }
        i += 1;
    }
    Ok(out)
}

// ---------------------------------------------------------------------------
// Order
// ---------------------------------------------------------------------------

/// One planned binding is asked before another: by the order of their services,
/// their own order, the name of the interceptor and the binding.
pub open spec fn asked_before(a: PlanView, b: PlanView) -> bool {
    if a.service_order != b.service_order {
        a.service_order < b.service_order
    } else if a.binding_order != b.binding_order {
        a.binding_order < b.binding_order
    } else if a.interceptor_name != b.interceptor_name {
        text::less(a.interceptor_name, b.interceptor_name)
    } else {
        text::less(a.binding_id, b.binding_id)
    }
}

/// The plans with one more put in its place, behind those that it does not come
/// before.
pub open spec fn with_plan(plans: Seq<PlanView>, plan: PlanView) -> Seq<PlanView>
    decreases plans.len(),
{
    if plans.len() == 0 {
        seq![plan]
    } else if asked_before(plan, plans.last()) {
        with_plan(plans.drop_last(), plan).push(plans.last())
    } else {
        plans.push(plan)
    }
}

/// The plans in the order in which they are asked. Those that are alike keep
/// their order.
pub open spec fn in_order(plans: Seq<PlanView>) -> Seq<PlanView>
    decreases plans.len(),
{
    if plans.len() == 0 {
        Seq::empty()
    } else {
        with_plan(in_order(plans.drop_last()), plans.last())
    }
}

fn comes_first(a: &RuntimeBinding, b: &RuntimeBinding) -> (r: bool)
    ensures
        r == asked_before(a.deep_view(), b.deep_view()),
{
    if a.service_order != b.service_order {
        a.service_order < b.service_order
    } else if a.binding_order != b.binding_order {
        a.binding_order < b.binding_order
    } else if !text::same(a.interceptor_name.as_str(), b.interceptor_name.as_str()) {
        text::comes_before(a.interceptor_name.as_str(), b.interceptor_name.as_str())
    } else {
        text::comes_before(a.binding_id.as_str(), b.binding_id.as_str())
    }
}

fn insert_plan(plans: &mut Vec<RuntimeBinding>, plan: RuntimeBinding)
    ensures
        final(plans).deep_view() == with_plan(old(plans).deep_view(), plan.deep_view()),
{
    let ghost before = plans.deep_view();
    let ghost seen = plan.deep_view();
    let mut i: usize = plans.len();
    proof {
        assert(before.take(i as int) =~= before);
        assert(with_plan(before, seen) =~= with_plan(before.take(i as int), seen) + before.skip(
            i as int,
        ));
    }
    while i > 0 && comes_first(&plan, &plans[i - 1])
        invariant
            i <= plans.len(),
            before == old(plans).deep_view(),
            plans.deep_view() == before,
            plan.deep_view() == seen,
            with_plan(before, seen) == with_plan(before.take(i as int), seen) + before.skip(
                i as int,
            ),
        decreases i,
    {
        proof {
            assert(before.take(i as int).drop_last() =~= before.take(i - 1));
            assert(before.take(i as int).last() == plans@[i - 1].deep_view());
            assert(with_plan(before.take(i - 1), seen).push(before[i - 1]) + before.skip(i as int)
                =~= with_plan(before.take(i - 1), seen) + before.skip(i - 1));
        }
        i -= 1;
    }
    proof {
        if i > 0 {
            assert(before.take(i as int).last() == plans@[i - 1].deep_view());
        }
        assert(with_plan(before.take(i as int), seen) =~= before.take(i as int).push(seen));
    }
    plans.insert(i, plan);
    proof {
        assert(plans.deep_view() =~= before.take(i as int).push(seen) + before.skip(i as int));
    }
}

/// The plans in the order in which they are asked.
pub fn sort_bindings(plans: Vec<RuntimeBinding>) -> (r: Vec<RuntimeBinding>)
    ensures
        r.deep_view() == in_order(plans.deep_view()),
{
    let ghost list = plans.deep_view();
    let mut rest = plans;
    let mut reversed: Vec<RuntimeBinding> = Vec::new();
    while rest.len() > 0
        invariant
            rest.len() + reversed.len() == list.len(),
            rest.deep_view() == list.take(rest.len() as int),
            forall|j: int|
                0 <= j < reversed.len() ==> #[trigger] reversed.deep_view()[j] == list[list.len()
                    - 1 - j],
        decreases rest.len(),
    {
        let ghost before = reversed.deep_view();
        let ghost n = rest.len();
        let ghost whole = rest.deep_view();
        match rest.pop() {
            Some(plan) => {
                assert(plan.deep_view() == whole[n - 1]);
                reversed.push(plan);
                proof {
                    assert(rest.deep_view() =~= list.take(n - 1));
                    assert forall|j: int| 0 <= j < reversed.len() implies #[trigger] reversed.deep_view()[j]
                        == list[list.len() - 1 - j] by {
                        if j < before.len() {
                            assert(reversed.deep_view()[j] == before[j]);
                        }
                    }
                }
            },
            None => {},
        }
    }
    let mut out: Vec<RuntimeBinding> = Vec::new();
    proof {
        assert(list.take(0) =~= Seq::empty());
        assert(out.deep_view() =~= Seq::<PlanView>::empty());
    }
    let ghost mut done: int = 0;
    while reversed.len() > 0
        invariant
            reversed.len() + done == list.len(),
            0 <= done <= list.len(),
            out.deep_view() == in_order(list.take(done)),
            forall|j: int|
                0 <= j < reversed.len() ==> #[trigger] reversed.deep_view()[j] == list[list.len()
                    - 1 - j],
        decreases reversed.len(),
    {
        let ghost n = reversed.len();
        let ghost whole = reversed.deep_view();
        match reversed.pop() {
            Some(plan) => {
                proof {
                    assert(plan.deep_view() == whole[n - 1]);
                    assert(plan.deep_view() == list[done]);
                    assert(list.take(done + 1).drop_last() =~= list.take(done));
                    assert(list.take(done + 1).last() == list[done]);
                    assert forall|j: int| 0 <= j < reversed.len() implies #[trigger] reversed.deep_view()[j]
                        == list[list.len() - 1 - j] by {
                        assert(reversed.deep_view()[j] == whole[j]);
                    }
                    done = done + 1;
                }
                insert_plan(&mut out, plan);
            },
            None => {},
        }
    }
    proof {
        assert(list.take(done) =~= list);
    }
    out
}

// ---------------------------------------------------------------------------
// Laws
// ---------------------------------------------------------------------------

/// A plan never reaches beyond what the manifest declares: where a list is
/// declared, the plan's list is part of it.
pub proof fn law_overrides_only_narrow(
    interceptor: Seq<char>,
    binding: Seq<char>,
    field: Seq<char>,
    declared: Seq<Seq<char>>,
    values: Option<Seq<Seq<char>>>,
)
    requires
        declared.len() > 0,
        narrowed_list(interceptor, binding, field, declared, values) is Ok,
    ensures
        all_among(narrowed_list(interceptor, binding, field, declared, values)->Ok_0, declared),
{
    let list = narrowed_list(interceptor, binding, field, declared, values)->Ok_0;
    assert forall|i: int| 0 <= i < list.len() implies declared.contains(#[trigger] list[i]) by {
        if values is None {
            assert(declared[i] == list[i]);
        }
    }
}

/// A failure is ignored only after the commit.
pub proof fn law_ignore_only_after_commit(
    config: ConfigView,
    binding: BindingView,
    chosen: Option<OverrideView>,
)
    requires
        binding_planned(config, binding, chosen) is Ok,
        binding_planned(config, binding, chosen)->Ok_0.failure_policy == FailurePolicy::Ignore,
    ensures
        only_post_commit(binding_planned(config, binding, chosen)->Ok_0.phases),
{
}

/// Sorting keeps every plan, and no plan stands before one that is asked before
/// it.
pub proof fn law_plans_are_in_order(plans: Seq<PlanView>)
    ensures
        in_order(plans).to_multiset() == plans.to_multiset(),
        forall|i: int, j: int|
            0 <= i < j < in_order(plans).len() ==> !asked_before(
                #[trigger] in_order(plans)[j],
                #[trigger] in_order(plans)[i],
            ),
    decreases plans.len(),
{
    broadcast use vstd::seq_lib::group_to_multiset_ensures;

    if plans.len() == 0 {
        assert(in_order(plans) =~= plans);
    } else {
        let before = plans.drop_last();
        law_plans_are_in_order(before);
        lemma_with_plan(in_order(before), plans.last());
        assert(before.push(plans.last()) =~= plans);
    }
}

proof fn lemma_asked_before_is_order(a: PlanView, b: PlanView, c: PlanView)
    ensures
        !asked_before(a, a),
        asked_before(a, b) ==> !asked_before(b, a),
        !asked_before(b, a) && !asked_before(c, b) ==> !asked_before(c, a),
        asked_before(a, b) && !asked_before(c, b) ==> !asked_before(c, a),
{
    text::lemma_less_irreflexive(a.interceptor_name);
    text::lemma_less_irreflexive(a.binding_id);
    text::lemma_less_irreflexive(b.interceptor_name);
    text::lemma_less_irreflexive(b.binding_id);
    lemma_less_facts(a.interceptor_name, b.interceptor_name, c.interceptor_name);
    lemma_less_facts(a.binding_id, b.binding_id, c.binding_id);
}

proof fn lemma_less_facts(a: Seq<char>, b: Seq<char>, c: Seq<char>)
    ensures
        text::less(a, b) ==> !text::less(b, a),
        text::less(b, c) ==> !text::less(c, b),
        text::less(a, c) ==> !text::less(c, a),
        text::less(a, b) && text::less(b, c) ==> text::less(a, c),
        text::less(c, b) && text::less(b, a) ==> text::less(c, a),
        text::less(c, a) && text::less(a, b) ==> text::less(c, b),
        text::less(b, c) && text::less(c, a) ==> text::less(b, a),
        a != b ==> text::less(a, b) || text::less(b, a),
        b != c ==> text::less(b, c) || text::less(c, b),
        a != c ==> text::less(a, c) || text::less(c, a),
{
    text::lemma_less_irreflexive(a);
    text::lemma_less_irreflexive(b);
    text::lemma_less_irreflexive(c);
    text::lemma_less_total(a, b);
    text::lemma_less_total(b, c);
    text::lemma_less_total(a, c);
    if text::less(a, b) && text::less(b, a) {
        text::lemma_less_transitive(a, b, a);
    }
    if text::less(b, c) && text::less(c, b) {
        text::lemma_less_transitive(b, c, b);
    }
    if text::less(a, c) && text::less(c, a) {
        text::lemma_less_transitive(a, c, a);
    }
    if text::less(a, b) && text::less(b, c) {
        text::lemma_less_transitive(a, b, c);
    }
    if text::less(c, b) && text::less(b, a) {
        text::lemma_less_transitive(c, b, a);
    }
    if text::less(c, a) && text::less(a, b) {
        text::lemma_less_transitive(c, a, b);
    }
    if text::less(b, c) && text::less(c, a) {
        text::lemma_less_transitive(b, c, a);
    }
}

proof fn lemma_with_plan(plans: Seq<PlanView>, plan: PlanView)
    requires
        forall|i: int, j: int|
            0 <= i < j < plans.len() ==> !asked_before(#[trigger] plans[j], #[trigger] plans[i]),
    ensures
        with_plan(plans, plan).to_multiset() == plans.to_multiset().insert(plan),
        forall|i: int, j: int|
            0 <= i < j < with_plan(plans, plan).len() ==> !asked_before(
                #[trigger] with_plan(plans, plan)[j],
                #[trigger] with_plan(plans, plan)[i],
            ),
        forall|i: int|
            0 <= i < with_plan(plans, plan).len() ==> #[trigger] with_plan(plans, plan)[i] == plan
                || plans.contains(with_plan(plans, plan)[i]),
    decreases plans.len(),
{
    broadcast use vstd::seq_lib::group_to_multiset_ensures;

    let out = with_plan(plans, plan);
    if plans.len() == 0 {
        assert(out =~= Seq::<PlanView>::empty().push(plan));
        assert(plans =~= Seq::<PlanView>::empty());
    } else if asked_before(plan, plans.last()) {
        let rest = plans.drop_last();
        let last = plans.last();
        lemma_with_plan(rest, plan);
        assert(rest.push(last) =~= plans);
        let head = with_plan(rest, plan);
        assert(out == head.push(last));
        assert(out.to_multiset() =~= plans.to_multiset().insert(plan));
        assert forall|i: int, j: int| 0 <= i < j < out.len() implies !asked_before(
            #[trigger] out[j],
            #[trigger] out[i],
        ) by {
            if j < head.len() {
                assert(out[j] == head[j] && out[i] == head[i]);
            } else {
                assert(out[j] == last && out[i] == head[i]);
                if head[i] == plan {
                    lemma_asked_before_is_order(plan, last, last);
                } else {
                    let k = choose|k: int| 0 <= k < rest.len() && rest[k] == head[i];
                    assert(rest.contains(head[i]));
                    assert(plans[k] == head[i]);
                    assert(plans[plans.len() - 1] == last);
                }
            }
        }
        assert forall|i: int| 0 <= i < out.len() implies #[trigger] out[i] == plan
            || plans.contains(out[i]) by {
            if i < head.len() {
                assert(out[i] == head[i]);
                if head[i] != plan {
                    let k = choose|k: int| 0 <= k < rest.len() && rest[k] == head[i];
                    assert(rest.contains(head[i]));
                    assert(plans[k] == head[i]);
                }
            } else {
                assert(plans[plans.len() - 1] == last);
            }
        }
    } else {
        let last = plans.last();
        assert(out == plans.push(plan));
        assert forall|i: int, j: int| 0 <= i < j < out.len() implies !asked_before(
            #[trigger] out[j],
            #[trigger] out[i],
        ) by {
            if j == plans.len() {
                assert(out[j] == plan && out[i] == plans[i]);
                if i < plans.len() - 1 {
                    assert(plans[plans.len() - 1] == last);
                    lemma_asked_before_is_order(plans[i], last, plan);
                }
            } else {
                assert(out[j] == plans[j] && out[i] == plans[i]);
            }
        }
        assert forall|i: int| 0 <= i < out.len() implies #[trigger] out[i] == plan
            || plans.contains(out[i]) by {
            if i < plans.len() {
                assert(plans[i] == out[i]);
            }
        }
    }
}

} // verus!
