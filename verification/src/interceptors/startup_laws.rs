//! How interceptors are configured, and what their bindings are planned to be.

use crate::interceptors::config::{
    binding_problem, declares, failure_policy_parsed, first_binding_problem, first_naming_problem,
    first_unknown_override, first_unknown_phase, known_phase, leading_digits, manifest_problem,
    modification_phase, naming_problem, timeout_of, timeout_parsed, BindingView, ConfigErrorView,
    ConfigView, FailurePolicy, ManifestView, OverrideView, TextMap, Timeout,
};
use crate::interceptors::planning::{
    asked_before, binding_planned, bindings_planned, contradicts, disabled, narrowed_labels,
    narrowed_list, override_of, PlanView,
};
use crate::interceptors::startup::{
    service_planned, settings_of, startup_of, DescriptionView, StartupView,
};
use crate::ordered;
use crate::text;
use vstd::prelude::*;

verus! {

// ---------------------------------------------------------------------------
// Values
// ---------------------------------------------------------------------------

/// A policy is named by one of three words, whatever the case and the space around it.
pub proof fn law_named_policies(value: Seq<char>)
    ensures
        ({
            let word = text::lower(text::trimmed(value));
            let parsed = failure_policy_parsed(value);
            &&& parsed == Ok::<FailurePolicy, ConfigErrorView>(FailurePolicy::FailClosed) <==> word
                == "fail_closed"@
            &&& parsed == Ok::<FailurePolicy, ConfigErrorView>(FailurePolicy::FailOpen) <==> word
                == "fail_open"@
            &&& parsed == Ok::<FailurePolicy, ConfigErrorView>(FailurePolicy::Ignore) <==> word
                == "ignore"@
            &&& parsed is Err <==> word != "fail_closed"@ && word != "fail_open"@ && word
                != "ignore"@
        }),
{
    reveal_strlit("");
    reveal_strlit("fail_closed");
    reveal_strlit("fail_open");
    reveal_strlit("ignore");
    assert(""@.len() == 0);
    assert("fail_closed"@.len() == 11);
    assert("fail_open"@.len() == 9);
    assert("ignore"@.len() == 6);
}

/// A number with a unit is a timeout of that many milliseconds, seconds or minutes. Without
/// a setting it is half a second.
pub proof fn law_timeouts(digits: Seq<char>)
    requires
        digits.len() > 0,
        text::all_digits(digits),
        text::digits_value(digits) <= u64::MAX,
    ensures
        timeout_parsed(digits + "ms"@) matches Ok(timeout) && timeout.seconds * 1_000
            + timeout.nanoseconds / 1_000_000 == text::digits_value(digits)
            && timeout.nanoseconds < 1_000_000_000 && timeout.nanoseconds % 1_000_000 == 0,
        timeout_parsed(digits + "s"@) matches Ok(timeout) && timeout.seconds
            == text::digits_value(digits) && timeout.nanoseconds == 0,
        text::digits_value(digits) * 60 <= u64::MAX ==> (timeout_parsed(digits + "m"@) matches Ok(
            timeout,
        ) && timeout.seconds == text::digits_value(digits) * 60 && timeout.nanoseconds == 0),
        timeout_parsed(digits) is Err,
        timeout_of(None) == Ok::<Timeout, ConfigErrorView>(
            Timeout { seconds: 0, nanoseconds: 500_000_000 },
        ),
{
    reveal_strlit("ms");
    reveal_strlit("s");
    reveal_strlit("m");
    reveal_strlit("");
    lemma_amount(digits, "ms"@);
    lemma_amount(digits, "s"@);
    lemma_amount(digits, "m"@);
    lemma_amount(digits, Seq::empty());
    assert(digits + Seq::<char>::empty() =~= digits);
    assert("ms"@.len() == 2);
    assert("s"@.len() == 1);
    assert("m"@.len() == 1);
    assert("s"@[0] != "m"@[0]);
    assert("s"@ != "ms"@ && "m"@ != "ms"@ && "s"@ != "m"@);
    let n = text::digits_value(digits);
    assert((n % 1000) * 1_000_000 < 1_000_000_000);
}

proof fn lemma_amount(digits: Seq<char>, unit: Seq<char>)
    requires
        digits.len() > 0,
        text::all_digits(digits),
        unit.len() > 0 ==> !text::is_space(unit.last()) && !text::is_digit(unit[0]),
    ensures
        text::trimmed(digits + unit) == digits + unit,
        leading_digits(digits + unit) == digits.len(),
        (digits + unit).take(digits.len() as int) == digits,
        (digits + unit).skip(digits.len() as int) == unit,
{
    let s = digits + unit;
    let (from, to) = text::laws::law_trimmed(s);
    assert(text::is_digit(digits[0]));
    assert(s[0] == digits[0]);
    assert(from == 0);
    if unit.len() == 0 {
        assert(s[s.len() - 1] == digits[digits.len() - 1]);
        assert(text::is_digit(digits[digits.len() - 1]));
    } else {
        assert(s[s.len() - 1] == unit.last());
    }
    if to < s.len() {
        assert(text::is_space(s[s.len() - 1]));
    }
    assert(s.subrange(0, s.len() as int) =~= s);
    lemma_leading(digits, unit);
    assert(s.take(digits.len() as int) =~= digits);
    assert(s.skip(digits.len() as int) =~= unit);
}

proof fn lemma_leading(digits: Seq<char>, unit: Seq<char>)
    requires
        text::all_digits(digits),
        unit.len() > 0 ==> !text::is_digit(unit[0]),
    ensures
        leading_digits(digits + unit) == digits.len(),
    decreases digits.len(),
{
    let s = digits + unit;
    if digits.len() > 0 {
        let rest = digits.skip(1);
        assert forall|i: int| 0 <= i < rest.len() implies text::is_digit(#[trigger] rest[i]) by {
            assert(rest[i] == digits[i + 1]);
        }
        lemma_leading(rest, unit);
        assert(text::is_digit(digits[0]));
        assert(s[0] == digits[0]);
        assert(s.skip(1) =~= rest + unit);
    } else {
        assert(s =~= unit);
    }
}

// ---------------------------------------------------------------------------
// Names and manifests
// ---------------------------------------------------------------------------

/// Configurations are accepted exactly where each has an endpoint and a name that no other
/// one has, up to the space around them.
pub proof fn law_accepted_names(configs: Seq<ConfigView>)
    ensures
        first_naming_problem(configs, 0) is None <==> (forall|i: int|
            0 <= i < configs.len() ==> text::trimmed((#[trigger] configs[i]).name).len() > 0
                && text::trimmed(configs[i].endpoint).len() > 0) && (forall|i: int, j: int|
            0 <= i < j < configs.len() ==> text::trimmed((#[trigger] configs[i]).name)
                != text::trimmed((#[trigger] configs[j]).name)),
{
    lemma_names(configs, 0);
    if first_naming_problem(configs, 0) is None {
        assert forall|i: int| 0 <= i < configs.len() implies text::trimmed(
            (#[trigger] configs[i]).name,
        ).len() > 0 && text::trimmed(configs[i].endpoint).len() > 0 by {
            assert(naming_problem(configs, i) is None);
        }
        assert forall|i: int, j: int| 0 <= i < j < configs.len() implies text::trimmed(
            (#[trigger] configs[i]).name,
        ) != text::trimmed((#[trigger] configs[j]).name) by {
            assert(naming_problem(configs, j) is None);
        }
    }
}

proof fn lemma_names(configs: Seq<ConfigView>, from: int)
    requires
        0 <= from <= configs.len(),
    ensures
        first_naming_problem(configs, from) is None <==> (forall|i: int|
            from <= i < configs.len() ==> #[trigger] naming_problem(configs, i) is None),
    decreases configs.len() - from,
{
    if from < configs.len() {
        lemma_names(configs, from + 1);
    }
}

/// Interceptors are asked in five phases, and may change the object in two of them.
pub proof fn law_phases(phase: Seq<char>)
    ensures
        known_phase(phase) <==> phase == "pre_request"@ || phase == "modify_object"@ || phase
            == "validate_object"@ || phase == "validate_driver"@ || phase == "post_commit"@,
        modification_phase(phase) <==> phase == "pre_request"@ || phase == "modify_object"@,
{
}

/// A manifest is accepted exactly where it is of the known version of the interface or says
/// none, each of its bindings has a name of its own and known phases, none that changes
/// objects is asked in another phase than those for that, and every override is of one of
/// its bindings.
pub proof fn law_accepted_manifests(config: ConfigView, manifest: ManifestView)
    ensures
        manifest_problem(config, manifest) is None <==> ({
            let list = manifest.bindings;
            &&& manifest.api_version.len() == 0 || manifest.api_version
                == "gateway.interceptor.openshell.dev/v1"@
            &&& forall|i: int|
                0 <= i < list.len() ==> text::trimmed((#[trigger] list[i]).id).len() > 0
                    && list[i].phases.len() > 0
            &&& forall|i: int, j: int|
                0 <= i < j < list.len() ==> (#[trigger] list[i]).id != (#[trigger] list[j]).id
            &&& forall|i: int, k: int|
                0 <= i < list.len() && 0 <= k < list[i].phases.len() ==> known_phase(
                    #[trigger] list[i].phases[k],
                )
            &&& forall|i: int, k: int|
                0 <= i < list.len() && list[i].modifies && 0 <= k < list[i].phases.len()
                    ==> modification_phase(#[trigger] list[i].phases[k])
            &&& forall|k: int|
                0 <= k < config.overrides.len() ==> exists|i: int|
                    0 <= i < list.len() && (#[trigger] list[i]).id == (
                    #[trigger] config.overrides[k]).binding
        }),
{
    let list = manifest.bindings;
    lemma_bindings(config.name, list, 0);
    lemma_overrides(config.overrides, list);
    assert forall|i: int| 0 <= i < list.len() implies (first_unknown_phase(
        (#[trigger] list[i]).phases,
    ) is None <==> (forall|k: int|
        0 <= k < list[i].phases.len() ==> known_phase(#[trigger] list[i].phases[k]))) by {
        lemma_known_phases(list[i].phases);
    }
    if first_binding_problem(config.name, list, 0) is None {
        assert forall|i: int| 0 <= i < list.len() implies binding_problem(
            config.name,
            list,
            i,
        ) is None && #[trigger] list[i] == list[i] by {}
        assert forall|i: int, j: int| 0 <= i < j < list.len() implies (#[trigger] list[i]).id != (
        #[trigger] list[j]).id by {
            assert(binding_problem(config.name, list, j) is None);
        }
    }
    assert forall|k: int| 0 <= k < config.overrides.len() implies (declares(
        list,
        (#[trigger] config.overrides[k]).binding,
    ) <==> exists|i: int|
        0 <= i < list.len() && (#[trigger] list[i]).id == config.overrides[k].binding) by {}
}

proof fn lemma_bindings(interceptor: Seq<char>, bindings: Seq<BindingView>, from: int)
    requires
        0 <= from <= bindings.len(),
    ensures
        first_binding_problem(interceptor, bindings, from) is None <==> (forall|i: int|
            from <= i < bindings.len() ==> #[trigger] binding_problem(interceptor, bindings, i)
                is None),
    decreases bindings.len() - from,
{
    if from < bindings.len() {
        lemma_bindings(interceptor, bindings, from + 1);
    }
}

proof fn lemma_known_phases(phases: Seq<Seq<char>>)
    ensures
        first_unknown_phase(phases) is None <==> (forall|k: int|
            0 <= k < phases.len() ==> known_phase(#[trigger] phases[k])),
    decreases phases.len(),
{
    if phases.len() > 0 {
        let rest = phases.skip(1);
        lemma_known_phases(rest);
        assert forall|k: int| 1 <= k < phases.len() implies rest[k - 1] == #[trigger] phases[k] by {}
        if first_unknown_phase(phases) is None {
            assert forall|k: int| 0 <= k < phases.len() implies known_phase(
                #[trigger] phases[k],
            ) by {
                if k > 0 {
                    assert(known_phase(rest[k - 1]));
                }
            }
        } else if known_phase(phases[0]) {
            let k = choose|k: int| 0 <= k < rest.len() && !known_phase(#[trigger] rest[k]);
            assert(!known_phase(phases[k + 1]));
        }
    }
}

proof fn lemma_overrides(overrides: Seq<OverrideView>, bindings: Seq<BindingView>)
    ensures
        first_unknown_override(overrides, bindings) is None <==> (forall|k: int|
            0 <= k < overrides.len() ==> declares(bindings, (#[trigger] overrides[k]).binding)),
    decreases overrides.len(),
{
    if overrides.len() > 0 {
        let rest = overrides.skip(1);
        lemma_overrides(rest, bindings);
        if first_unknown_override(overrides, bindings) is None {
            assert forall|k: int| 0 <= k < overrides.len() implies declares(
                bindings,
                (#[trigger] overrides[k]).binding,
            ) by {
                if k > 0 {
                    assert(rest[k - 1] == overrides[k]);
                }
            }
        } else if declares(bindings, overrides[0].binding) {
            let k = choose|k: int|
                0 <= k < rest.len() && !declares(bindings, (#[trigger] rest[k]).binding);
            assert(overrides[k + 1] == rest[k]);
        }
    }
}

// ---------------------------------------------------------------------------
// Plans
// ---------------------------------------------------------------------------

/// An override replaces a declared list by texts of that list, or by any texts where nothing
/// is declared. Without one the declaration stays.
pub proof fn law_narrowed_lists(
    interceptor: Seq<char>,
    binding: Seq<char>,
    field: Seq<char>,
    declared: Seq<Seq<char>>,
    values: Seq<Seq<char>>,
)
    ensures
        narrowed_list(interceptor, binding, field, declared, None) == Ok::<
            Seq<Seq<char>>,
            ConfigErrorView,
        >(declared),
        declared.len() == 0 ==> narrowed_list(interceptor, binding, field, declared, Some(values))
            == Ok::<Seq<Seq<char>>, ConfigErrorView>(values),
        declared.len() > 0 ==> (narrowed_list(interceptor, binding, field, declared, Some(values))
            is Ok <==> forall|i: int|
            0 <= i < values.len() ==> declared.contains(#[trigger] values[i])),
        narrowed_list(interceptor, binding, field, declared, Some(values)) matches Ok(list)
            ==> list == values,
        narrowed_list(interceptor, binding, field, declared, Some(values)) matches Err(error)
            ==> error == (ConfigErrorView::OverrideExpands { interceptor, binding, field }),
{
}

/// An override may add labels to the declared ones, and may not change one.
pub proof fn law_narrowed_labels(
    interceptor: Seq<char>,
    binding: Seq<char>,
    declared: TextMap,
    values: TextMap,
    key: Seq<char>,
)
    requires
        ordered::is_map(declared),
        ordered::is_map(values),
    ensures
        match narrowed_labels(interceptor, binding, declared, Some(values)) {
            Ok(labels) => {
                &&& ordered::lookup(declared, key) is Some ==> ordered::lookup(labels, key)
                    == ordered::lookup(declared, key)
                &&& ordered::lookup(declared, key) is None ==> ordered::lookup(labels, key)
                    == ordered::lookup(values, key)
            },
            Err(_) => exists|other: Seq<char>|
                ordered::lookup(declared, other) is Some && #[trigger] ordered::lookup(
                    values,
                    other,
                ) is Some && ordered::lookup(declared, other) != ordered::lookup(values, other),
        },
        match narrowed_labels(interceptor, binding, declared, None) {
            Ok(labels) => ordered::lookup(labels, key) == ordered::lookup(declared, key),
            Err(_) => false,
        },
{
    let known = ordered::put_all(TextMap::empty(), declared);
    let none = TextMap::empty();
    assert(ordered::is_map(none));
    ordered::law_put_all_map(none, declared);
    lemma_put_all_map(none, declared, key);
    lemma_put_all_map(known, values, key);
    if contradicts(known, values) {
        let i = choose|i: int|
            0 <= i < values.len() && (ordered::lookup(known, (#[trigger] values[i]).0) matches Some(
                value,
            ) && value != values[i].1);
        let other = values[i].0;
        lemma_put_all_map(none, declared, other);
        lemma_entry_is_found(values, i);
    } else if ordered::lookup(declared, key) is Some && ordered::lookup(values, key) is Some {
        ordered::law_lookup(values, key);
        let value = ordered::lookup(values, key)->0;
        let i = choose|i: int| 0 <= i < values.len() && values[i] == (key, value);
        assert(values[i].0 == key);
    }
}

proof fn lemma_entry_is_found(map: TextMap, i: int)
    requires
        ordered::is_map(map),
        0 <= i < map.len(),
    ensures
        ordered::lookup(map, map[i].0) == Some(map[i].1),
{
    ordered::law_lookup(map, map[i].0);
    assert(ordered::keys(map)[i] == map[i].0);
    let value = ordered::lookup(map, map[i].0)->0;
    let k = choose|k: int| 0 <= k < map.len() && map[k] == (map[i].0, value);
    assert(ordered::keys(map)[k] == map[i].0);
    text::lemma_less_irreflexive(map[i].0);
    assert(k == i);
}

proof fn lemma_put_all_map(map: TextMap, entries: TextMap, key: Seq<char>)
    requires
        ordered::is_map(map),
        ordered::is_map(entries),
    ensures
        ordered::lookup(ordered::put_all(map, entries), key) == (if ordered::lookup(entries, key)
            is Some {
            ordered::lookup(entries, key)
        } else {
            ordered::lookup(map, key)
        }),
{
    ordered::law_put_all_lookup(map, entries, key);
    ordered::law_lookup(entries, key);
    if let Some(value) = ordered::lookup(entries, key) {
        let i = choose|i: int| 0 <= i < entries.len() && entries[i] == (key, value);
        assert(entries[i].0 == key);
        assert forall|j: int| i < j < entries.len() implies (#[trigger] entries[j]).0 != key by {
            assert(text::less(ordered::keys(entries)[i], ordered::keys(entries)[j]));
            text::lemma_less_irreflexive(key);
        }
    } else {
        assert forall|i: int| 0 <= i < entries.len() implies (#[trigger] entries[i]).0 != key by {
            assert(ordered::keys(entries)[i] == entries[i].0);
        }
    }
}

/// The override of a binding is the first one that names it.
pub proof fn law_first_override_counts(overrides: Seq<OverrideView>, id: Seq<char>)
    ensures
        match override_of(overrides, id) {
            Some(chosen) => exists|i: int|
                0 <= i < overrides.len() && #[trigger] overrides[i] == chosen && chosen.binding
                    == id && (forall|j: int| 0 <= j < i ==> (#[trigger] overrides[j]).binding != id),
            None => forall|j: int|
                0 <= j < overrides.len() ==> (#[trigger] overrides[j]).binding != id,
        },
    decreases overrides.len(),
{
    if overrides.len() > 0 {
        let rest = overrides.skip(1);
        law_first_override_counts(rest, id);
        if overrides[0].binding == id {
            assert(overrides[0] == override_of(overrides, id)->0);
        } else {
            assert forall|j: int| 1 <= j < overrides.len() implies rest[j - 1]
                == #[trigger] overrides[j] by {}
            if let Some(chosen) = override_of(rest, id) {
                let i = choose|i: int|
                    0 <= i < rest.len() && #[trigger] rest[i] == chosen && chosen.binding == id && (
                    forall|j: int| 0 <= j < i ==> (#[trigger] rest[j]).binding != id);
                assert(overrides[i + 1] == chosen);
                assert forall|j: int| 0 <= j < i + 1 implies (#[trigger] overrides[j]).binding
                    != id by {
                    if j > 0 {
                        assert(rest[j - 1].binding != id);
                    }
                }
            } else {
                assert forall|j: int| 0 <= j < overrides.len() implies (
                #[trigger] overrides[j]).binding != id by {
                    if j > 0 {
                        assert(rest[j - 1].binding != id);
                    }
                }
            }
        }
    }
}

/// A planned binding is for the phases, resources, operations and callers that its manifest
/// declares, or for those that its override narrows them to, and goes by the order of its
/// service and by its own.
pub proof fn law_planned_bindings(
    config: ConfigView,
    binding: BindingView,
    chosen: OverrideView,
)
    ensures
        binding_planned(config, binding, Some(chosen)) matches Ok(plan) ==> {
            &&& plan.interceptor_name == config.name
            &&& plan.binding_id == binding.id
            &&& plan.service_order == config.order
            &&& plan.binding_order == (match chosen.order {
                Some(order) => order,
                None => binding.order,
            })
            &&& plan.phases == (match chosen.match_.phases {
                Some(phases) => phases,
                None => binding.phases,
            })
            &&& plan.resources == (match chosen.match_.resources {
                Some(resources) => resources,
                None => binding.resources,
            })
            &&& plan.operations == (match chosen.match_.operations {
                Some(operations) => operations,
                None => binding.operations,
            })
            &&& plan.selector.principal_kinds == (match chosen.match_.principal_kinds {
                Some(kinds) => kinds,
                None => match binding.selector {
                    Some(selector) => selector.principal_kinds,
                    None => Seq::empty(),
                },
            })
            &&& plan.selector.principal_groups == (match chosen.match_.principal_groups {
                Some(groups) => groups,
                None => match binding.selector {
                    Some(selector) => selector.principal_groups,
                    None => Seq::empty(),
                },
            })
            &&& plan.selector.compute_drivers == (match chosen.match_.compute_drivers {
                Some(drivers) => drivers,
                None => match binding.selector {
                    Some(selector) => selector.compute_drivers,
                    None => Seq::empty(),
                },
            })
        },
        binding_planned(config, binding, None) matches Ok(plan) ==> {
            &&& plan.interceptor_name == config.name
            &&& plan.binding_id == binding.id
            &&& plan.service_order == config.order
            &&& plan.binding_order == binding.order
            &&& plan.phases == binding.phases
            &&& plan.resources == binding.resources
            &&& plan.operations == binding.operations
        },
{
}

/// An override's policy comes before the configured one, that one before the manifest's, and
/// the manifest's before the default: what is asked after the commit alone may fail, and
/// nothing else. No other binding may ignore failures.
pub proof fn law_planned_policies(
    config: ConfigView,
    binding: BindingView,
    chosen: Option<OverrideView>,
)
    ensures
        binding_planned(config, binding, chosen) matches Ok(plan) ==> {
            let overridden = match chosen {
                Some(chosen) => chosen.failure_policy,
                None => None,
            };
            let after_commit = forall|i: int|
                0 <= i < plan.phases.len() ==> #[trigger] plan.phases[i] == "post_commit"@;
            &&& overridden is Some ==> Some(plan.failure_policy) == overridden
            &&& overridden is None && config.failure_policy is Some ==> Some(plan.failure_policy)
                == config.failure_policy
            &&& overridden is None && config.failure_policy is None && text::trimmed(
                binding.default_failure_policy,
            ).len() > 0 ==> Ok::<FailurePolicy, ConfigErrorView>(plan.failure_policy)
                == failure_policy_parsed(binding.default_failure_policy)
            &&& overridden is None && config.failure_policy is None && text::trimmed(
                binding.default_failure_policy,
            ).len() == 0 ==> plan.failure_policy == (if after_commit {
                FailurePolicy::Ignore
            } else {
                FailurePolicy::FailClosed
            })
            &&& plan.failure_policy == FailurePolicy::Ignore ==> after_commit
        },
        text::trimmed(binding.default_failure_policy).len() > 0 && failure_policy_parsed(
            binding.default_failure_policy,
        ) is Err ==> binding_planned(config, binding, chosen) is Err,
{
}

/// Every binding of a manifest is planned unless its override turns it off, in the order of
/// the manifest, and nothing else is.
pub proof fn law_enabled_bindings_are_planned(
    config: ConfigView,
    bindings: Seq<BindingView>,
    n: nat,
)
    requires
        0 < n <= bindings.len(),
    ensures
        ({
            let binding = bindings[n - 1];
            let chosen = override_of(config.overrides, binding.id);
            let off = chosen matches Some(chosen) && chosen.enabled == Some(false);
            match bindings_planned(config, bindings, (n - 1) as nat) {
                Err(error) => bindings_planned(config, bindings, n) == Err::<
                    Seq<PlanView>,
                    ConfigErrorView,
                >(error),
                Ok(before) => {
                    &&& off ==> bindings_planned(config, bindings, n) == Ok::<
                        Seq<PlanView>,
                        ConfigErrorView,
                    >(before)
                    &&& !off ==> match bindings_planned(config, bindings, n) {
                        Ok(plans) => plans.len() == before.len() + 1 && plans.drop_last() == before
                            && plans.last().binding_id == binding.id,
                        Err(_) => binding_planned(config, binding, chosen) is Err,
                    }
                },
            }
        }),
        bindings_planned(config, bindings, 0) == Ok::<Seq<PlanView>, ConfigErrorView>(
            Seq::empty(),
        ),
{
    if let Ok(before) = bindings_planned(config, bindings, (n - 1) as nat) {
        if let Ok(plans) = bindings_planned(config, bindings, n) {
            let chosen = override_of(config.overrides, bindings[n - 1].id);
            if !disabled(chosen) {
                assert(plans.drop_last() =~= before);
            }
        }
    }
}

/// A lower order of the service is asked first, then a lower order of the binding, then the
/// smaller name.
pub proof fn law_order_of_plans(a: PlanView, b: PlanView)
    ensures
        a.service_order < b.service_order ==> asked_before(a, b) && !asked_before(b, a),
        a.service_order == b.service_order && a.binding_order < b.binding_order ==> asked_before(
            a,
            b,
        ) && !asked_before(b, a),
        a.service_order == b.service_order && a.binding_order == b.binding_order && text::less(
            a.interceptor_name,
            b.interceptor_name,
        ) ==> asked_before(a, b),
        a.service_order == b.service_order && a.binding_order == b.binding_order
            && a.interceptor_name == b.interceptor_name ==> (asked_before(a, b) <==> text::less(
            a.binding_id,
            b.binding_id,
        )),
{
    text::lemma_less_irreflexive(a.interceptor_name);
}

// ---------------------------------------------------------------------------
// Starting
// ---------------------------------------------------------------------------

/// A service that cannot be reached, does not answer in time or refuses ends the start, as
/// does one whose manifest is not accepted.
pub proof fn law_failed_descriptions(config: ConfigView, description: DescriptionView)
    ensures
        service_planned(config, description) is Ok ==> (description matches DescriptionView::Answered(
            manifest,
        ) && manifest_problem(config, manifest) is None && settings_of(config) is Ok),
        settings_of(config) is Ok ==> (description matches DescriptionView::Unreachable(message)
            ==> service_planned(config, description) == Err::<Seq<PlanView>, ConfigErrorView>(
            ConfigErrorView::DescribeFailed { interceptor: config.name, message },
        )),
{
}

/// A start is ready only when every service was described, and fails as soon as one of them
/// did. Until then the next service that is not described is connected to, and asked once it
/// is.
pub proof fn law_steps_of_a_start(
    configs: Seq<ConfigView>,
    descriptions: Seq<DescriptionView>,
    connected: bool,
)
    requires
        descriptions.len() <= configs.len() <= usize::MAX,
    ensures
        startup_of(configs, descriptions, connected) matches StartupView::Ready(runtime) ==> {
            &&& descriptions.len() == configs.len()
            &&& runtime.services.len() == configs.len()
            &&& forall|i: int|
                0 <= i < configs.len() ==> #[trigger] runtime.services[i] == configs[i].name
            &&& runtime.max_patch_count == 32
        },
        startup_of(configs, descriptions, connected) matches StartupView::Connect {
            config,
            settings,
        } ==> !connected && config == descriptions.len() && config < configs.len(),
        startup_of(configs, descriptions, connected) matches StartupView::Describe {
            config,
            settings,
            request,
        } ==> connected && config == descriptions.len() && config < configs.len()
            && request.interceptor_name == configs[config as int].name && request.api_version
            == "gateway.interceptor.openshell.dev/v1"@,
{
}

} // verus!
