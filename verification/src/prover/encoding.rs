//! The formula of the actions that a policy allows.
//!
//! Each function builds the solver's formula for one part of a policy. The formula
//! holds under a valuation exactly where the part covers the action that the
//! valuation describes.

use crate::prover::envelope::{
    allow_covers, binary_runs, connects, deny_covers, endpoint_allows, endpoint_denies,
    endpoint_is_printable, endpoint_without_nul, in_domain, method_among, method_and_path_match,
    path_matches, path_or_any, policy_allows, policy_is_printable, policy_without_nul,
    read_only_methods, read_write_methods, rest_allows, rule_allows, rule_denies, rule_is_printable,
    rule_methods, rule_without_nul, ActionView, MaximumView,
};
use crate::prover::glob;
use crate::prover::glob::glob_matches;
use crate::prover::policy::{Endpoint, NetworkPolicyRule, PolicyModel};
use crate::prover::solver;
use crate::prover::solver::{
    all_hold, all_printable, codes, denoted, has_printable_literals, in_alphabet, is_printable,
    over_alphabet, solutions, some_holds, without_nul, Valuation,
};
use crate::text;
use vstd::prelude::*;
use z3::ast::Bool;

verus! {

/// The name of the constant for the binary.
pub const BINARY: &'static str = "maximum_policy_action_binary";

/// The name of the constant for the host.
pub const HOST: &'static str = "maximum_policy_action_host";

/// The name of the constant for the port.
pub const PORT: &'static str = "maximum_policy_action_port";

/// The name of the constant for the layer.
pub const LAYER: &'static str = "maximum_policy_action_layer";

/// The name of the constant for the method.
pub const METHOD: &'static str = "maximum_policy_action_method";

/// The name of the constant for the request path.
pub const PATH: &'static str = "maximum_policy_action_path";

/// The action that a valuation describes.
pub open spec fn action_at(valuation: Valuation) -> ActionView {
    ActionView {
        binary: valuation.texts[BINARY@],
        host: valuation.texts[HOST@],
        port: valuation.numbers[PORT@],
        layer: valuation.texts[LAYER@],
        method: valuation.texts[METHOD@],
        path: valuation.texts[PATH@],
    }
}

/// The formula holds exactly where the action of a valuation is in the set.
pub open spec fn encodes(formula: Bool, actions: spec_fn(ActionView) -> bool) -> bool {
    forall|v: Valuation|
        over_alphabet(v) ==> (#[trigger] solutions(formula).contains(v) <==> actions(action_at(v)))
}

/// Each formula of the list holds exactly where the action of a valuation is in
/// the set at its position.
pub open spec fn encode_all(formulas: Seq<Bool>, sets: spec_fn(int, ActionView) -> bool) -> bool {
    forall|i: int, v: Valuation|
        0 <= i < formulas.len() && over_alphabet(v) ==> (#[trigger] solutions(
            formulas[i],
        ).contains(v) <==> sets(i, action_at(v)))
}

/// Every text of a list is printable ASCII.
spec fn all_texts_printable(list: Seq<Seq<char>>) -> bool {
    forall|i: int| 0 <= i < list.len() ==> is_printable(#[trigger] list[i])
}

proof fn lemma_lower_printable(s: Seq<char>)
    ensures
        is_printable(s) ==> is_printable(text::lower(s)),
        without_nul(s) ==> without_nul(text::lower(s)),
{
    let r = text::lower(s);
    if is_printable(s) {
        assert forall|i: int| 0 <= i < r.len() implies solver::is_printable_char(
            #[trigger] r[i],
        ) by {
            assert(solver::is_printable_char(s[i]));
        }
    }
    if without_nul(s) && r.contains('\0') {
        let i = choose|i: int| 0 <= i < r.len() && r[i] == '\0';
        assert(s[i] == '\0');
    }
}

proof fn lemma_upper_printable(s: Seq<char>)
    ensures
        is_printable(s) ==> is_printable(text::upper(s)),
        without_nul(s) ==> without_nul(text::upper(s)),
{
    let r = text::upper(s);
    if is_printable(s) {
        assert forall|i: int| 0 <= i < r.len() implies solver::is_printable_char(
            #[trigger] r[i],
        ) by {
            assert(solver::is_printable_char(s[i]));
        }
    }
    if without_nul(s) && r.contains('\0') {
        let i = choose|i: int| 0 <= i < r.len() && r[i] == '\0';
        assert(s[i] == '\0');
    }
}

/// The names of the constants are distinct and can stand in a literal.
pub proof fn lemma_names()
    ensures
        without_nul(BINARY@),
        without_nul(HOST@),
        without_nul(PORT@),
        without_nul(LAYER@),
        without_nul(METHOD@),
        without_nul(PATH@),
        BINARY@ != HOST@,
        BINARY@ != LAYER@,
        BINARY@ != METHOD@,
        BINARY@ != PATH@,
        HOST@ != LAYER@,
        HOST@ != METHOD@,
        HOST@ != PATH@,
        LAYER@ != METHOD@,
        LAYER@ != PATH@,
        METHOD@ != PATH@,
{
    reveal_strlit("maximum_policy_action_binary");
    reveal_strlit("maximum_policy_action_host");
    reveal_strlit("maximum_policy_action_port");
    reveal_strlit("maximum_policy_action_layer");
    reveal_strlit("maximum_policy_action_method");
    reveal_strlit("maximum_policy_action_path");
    assert(BINARY@[22] == 'b' && HOST@[22] == 'h' && LAYER@[22] == 'l' && METHOD@[22] == 'm'
        && PATH@[22] == 'p');
}

/// The formula that one of a list of formulas holds. Pairs at the end of the
/// list are joined until the solver takes its length.
fn disjunction(formulas: Vec<Bool>) -> (r: Bool)
    ensures
        all_printable(formulas@) ==> has_printable_literals(r),
        forall|v: Valuation| #[trigger] solutions(r).contains(v) <==> some_holds(formulas@, v),
{
    if formulas.len() == 0 {
        return solver::truth(false);
    }
    let mut rest = formulas;
    while rest.len() > u32::MAX as usize
        invariant
            rest.len() > 0,
            all_printable(formulas@) ==> all_printable(rest@),
            forall|v: Valuation| #[trigger]
                some_holds(rest@, v) <==> some_holds(formulas@, v),
        decreases rest.len(),
    {
        let ghost before = rest@;
        let last = rest.pop().unwrap();
        let second = rest.pop().unwrap();
        let mut pair: Vec<Bool> = Vec::new();
        pair.push(second);
        pair.push(last);
        let ghost ends = pair@;
        let either = solver::any_of(&pair);
        rest.push(either);
        proof {
            let n = before.len() - 2;
            assert forall|v: Valuation| #[trigger]
                some_holds(rest@, v) <==> some_holds(formulas@, v) by {
                assert(some_holds(before, v) <==> some_holds(formulas@, v));
                if some_holds(before, v) {
                    let i = choose|i: int|
                        0 <= i < before.len() && (#[trigger] solutions(before[i])).contains(v);
                    if i < n {
                        assert(solutions(rest@[i]).contains(v));
                    } else {
                        assert(solutions(ends[i - n]).contains(v));
                        assert(solutions(rest@[n]).contains(v));
                    }
                }
                if some_holds(rest@, v) {
                    let i = choose|i: int|
                        0 <= i < rest@.len() && (#[trigger] solutions(rest@[i])).contains(v);
                    if i < n {
                        assert(solutions(before[i]).contains(v));
                    } else {
                        let k = choose|k: int|
                            0 <= k < ends.len() && (#[trigger] solutions(ends[k])).contains(v);
                        assert(before[n + k] == ends[k]);
                        assert(solutions(before[n + k]).contains(v));
                    }
                }
            }
        }
    }
    solver::any_of(&rest)
}

/// The formula that two formulas hold.
fn conjunction(left: Bool, right: Bool) -> (r: Bool)
    ensures
        has_printable_literals(left) && has_printable_literals(right) ==> has_printable_literals(r),
        forall|v: Valuation| #[trigger]
            solutions(r).contains(v) <==> (solutions(left).contains(v) && solutions(
                right,
            ).contains(v)),
{
    let mut pair: Vec<Bool> = Vec::new();
    pair.push(left);
    pair.push(right);
    let ghost list = pair@;
    let r = solver::all_of(&pair);
    proof {
        assert forall|v: Valuation| #[trigger]
            solutions(r).contains(v) <==> (solutions(left).contains(v) && solutions(
                right,
            ).contains(v)) by {
            if all_hold(list, v) {
                assert(solutions(list[0]).contains(v));
                assert(solutions(list[1]).contains(v));
            }
        }
    }
    r
}

/// The formula of one of several sets of actions.
fn some_of(formulas: Vec<Bool>, Ghost(sets): Ghost<spec_fn(int, ActionView) -> bool>) -> (r: Bool)
    ensures
        all_printable(formulas@) ==> has_printable_literals(r),
        encode_all(formulas@, sets) ==> encodes(
            r,
            |a: ActionView| exists|i: int| 0 <= i < formulas@.len() && #[trigger] sets(i, a),
        ),
{
    let ghost list = formulas@;
    let r = disjunction(formulas);
    proof {
        if encode_all(list, sets) {
            let union = |a: ActionView|
                exists|i: int| 0 <= i < list.len() && #[trigger] sets(i, a);
            assert forall|v: Valuation| over_alphabet(v) implies (#[trigger] solutions(r).contains(
                v,
            ) <==> union(action_at(v))) by {
                if some_holds(list, v) {
                    let i = choose|i: int|
                        0 <= i < list.len() && (#[trigger] solutions(list[i])).contains(v);
                    assert(sets(i, action_at(v)));
                }
                if union(action_at(v)) {
                    let i = choose|i: int|
                        0 <= i < list.len() && #[trigger] sets(i, action_at(v));
                    assert(solutions(list[i]).contains(v));
                }
            }
        }
    }
    r
}

/// The formula that the request path matches a pattern.
fn path_formula(pattern: &str) -> (r: Bool)
    requires
        without_nul(pattern@),
    ensures
        is_printable(pattern@) ==> has_printable_literals(r),
        encodes(r, |a: ActionView| path_matches(pattern@, a)),
{
    proof {
        lemma_names();
    }
    let expression = glob::glob_regex(pattern, '/');
    solver::text_in(PATH, &expression)
}

/// The formula that the request path matches a pattern, where an empty pattern
/// stands for any path.
fn path_or_any_formula(pattern: &str) -> (r: Bool)
    requires
        without_nul(pattern@),
    ensures
        is_printable(pattern@) ==> has_printable_literals(r),
        encodes(r, |a: ActionView| path_matches(path_or_any(pattern@), a)),
{
    if pattern.is_empty() {
        proof {
            reveal_strlit("**");
        }
        path_formula("**")
    } else {
        path_formula(pattern)
    }
}

/// The formula that the action is on the REST layer.
fn rest_layer_formula() -> (r: Bool)
    ensures
        has_printable_literals(r),
        encodes(r, |a: ActionView| a.layer == codes("rest"@)),
{
    proof {
        lemma_names();
        reveal_strlit("rest");
    }
    solver::text_is(LAYER, "rest")
}

/// The formula that the method is one of a list, written in capitals.
fn methods_formula(methods: &Vec<String>) -> (r: Bool)
    requires
        forall|i: int| 0 <= i < methods.len() ==> without_nul(#[trigger] methods.deep_view()[i]),
    ensures
        all_texts_printable(methods.deep_view()) ==> has_printable_literals(r),
        encodes(r, |a: ActionView| method_among(methods.deep_view(), a)),
{
    let ghost names = methods.deep_view();
    let ghost sets = |i: int, a: ActionView| a.method == denoted(text::upper(names[i]));
    let mut formulas: Vec<Bool> = Vec::new();
    let mut i: usize = 0;
    while i < methods.len()
        invariant
            i <= methods.len(),
            names == methods.deep_view(),
            sets == (|i: int, a: ActionView| a.method == denoted(text::upper(names[i]))),
            forall|i: int| 0 <= i < methods.len() ==> without_nul(#[trigger] names[i]),
            formulas.len() == i,
            all_texts_printable(names) ==> all_printable(formulas@),
            encode_all(formulas@, sets),
        decreases methods.len() - i,
    {
        let ghost before = formulas@;
        proof {
            lemma_names();
            lemma_upper_printable(names[i as int]);
        }
        let name = text::to_upper(methods[i].as_str());
        let formula = solver::text_is(METHOD, name.as_str());
        formulas.push(formula);
        proof {
            assert forall|j: int, v: Valuation|
                0 <= j < formulas@.len() && over_alphabet(v) implies (#[trigger] solutions(
                formulas@[j],
            ).contains(v) <==> sets(j, action_at(v))) by {
                if j < i {
                    assert(formulas@[j] == before[j]);
                } else {
                    assert(formulas@[j] == formula);
                }
            }
        }
        i += 1;
    }
    let ghost union = |a: ActionView|
        exists|i: int| 0 <= i < formulas@.len() && #[trigger] sets(i, a);
    let r = some_of(formulas, Ghost(sets));
    proof {
        assert forall|v: Valuation| over_alphabet(v) implies (#[trigger] solutions(r).contains(
            v,
        ) <==> method_among(names, action_at(v))) by {
            assert(solutions(r).contains(v) <==> union(action_at(v)));
            if method_among(names, action_at(v)) {
                let i = choose|i: int|
                    0 <= i < names.len() && action_at(v).method == denoted(
                        text::upper(#[trigger] names[i]),
                    );
                assert(sets(i, action_at(v)));
            }
        }
    }
    r
}

/// The formula that a rule's method and path cover the action.
fn rule_formula(method: &str, path: &str) -> (r: Bool)
    requires
        without_nul(method@),
        without_nul(path@),
    ensures
        is_printable(method@) && is_printable(path@) ==> has_printable_literals(r),
        encodes(
            r,
            |a: ActionView| method_and_path_match(method@, path@, a),
        ),
{
    if method.is_empty() {
        return solver::truth(false);
    }
    let on_path = path_or_any_formula(path);
    if text::same(method, "*") {
        return on_path;
    }
    let mut methods: Vec<String> = Vec::new();
    let folded = text::to_lower(method);
    proof {
        reveal_strlit("GET");
        reveal_strlit("HEAD");
    }
    if text::same(folded.as_str(), "get") {
        methods.push("GET".to_owned());
        methods.push("HEAD".to_owned());
    } else {
        methods.push(method.to_owned());
    }
    proof {
        assert(methods.deep_view() =~= rule_methods(method@));
    }
    let by_method = methods_formula(&methods);
    let r = conjunction(by_method, on_path);
    proof {
        assert forall|v: Valuation| over_alphabet(v) implies (#[trigger] solutions(r).contains(
            v,
        ) <==> method_and_path_match(method@, path@, action_at(v))) by {
            assert(solutions(by_method).contains(v) <==> method_among(
                rule_methods(method@),
                action_at(v),
            ));
            assert(solutions(on_path).contains(v) <==> path_matches(
                path_or_any(path@),
                action_at(v),
            ));
        }
    }
    r
}

/// The formula of an access preset: a list of methods on any path.
fn preset_formula(methods: &Vec<String>) -> (r: Bool)
    requires
        forall|i: int| 0 <= i < methods.len() ==> without_nul(#[trigger] methods.deep_view()[i]),
    ensures
        all_texts_printable(methods.deep_view()) ==> has_printable_literals(r),
        encodes(
            r,
            |a: ActionView| method_among(methods.deep_view(), a) && path_matches("**"@, a),
        ),
{
    proof {
        reveal_strlit("**");
    }
    let by_method = methods_formula(methods);
    let on_path = path_formula("**");
    let r = conjunction(by_method, on_path);
    proof {
        assert forall|v: Valuation| over_alphabet(v) implies (#[trigger] solutions(r).contains(v)
            <==> (method_among(methods.deep_view(), action_at(v)) && path_matches(
            "**"@,
            action_at(v),
        ))) by {
            assert(solutions(by_method).contains(v) <==> method_among(
                methods.deep_view(),
                action_at(v),
            ));
            assert(solutions(on_path).contains(v) <==> path_matches("**"@, action_at(v)));
        }
    }
    r
}

/// The formula that one of the allow rules covers the action.
fn allow_rules_formula(endpoint: &Endpoint, view: MaximumView) -> (r: Bool)
    requires
        endpoint_without_nul(endpoint.deep_view()),
    ensures
        endpoint_is_printable(endpoint.deep_view()) ==> has_printable_literals(r),
        encodes(
            r,
            |a: ActionView|
                exists|i: int|
                    0 <= i < endpoint.deep_view().rules.len() && allow_covers(
                        #[trigger] endpoint.deep_view().rules[i],
                        a,
                        view,
                    ),
        ),
{
    let ghost rules = endpoint.deep_view().rules;
    let ghost sets = |i: int, a: ActionView| allow_covers(rules[i], a, view);
    let mut formulas: Vec<Bool> = Vec::new();
    let mut i: usize = 0;
    while i < endpoint.rules.len()
        invariant
            i <= endpoint.rules.len(),
            rules == endpoint.deep_view().rules,
            endpoint_without_nul(endpoint.deep_view()),
            sets == (|i: int, a: ActionView| allow_covers(rules[i], a, view)),
            formulas.len() == i,
            endpoint_is_printable(endpoint.deep_view()) ==> all_printable(formulas@),
            encode_all(formulas@, sets),
        decreases endpoint.rules.len() - i,
    {
        let ghost before = formulas@;
        let rule = &endpoint.rules[i];
        proof {
            assert(rules[i as int] == rule.deep_view());
        }
        let formula = if rule.review.required && view == MaximumView::AutoEligible {
            solver::truth(false)
        } else {
            rule_formula(rule.method.as_str(), rule.path.as_str())
        };
        formulas.push(formula);
        proof {
            assert forall|j: int, v: Valuation|
                0 <= j < formulas@.len() && over_alphabet(v) implies (#[trigger] solutions(
                formulas@[j],
            ).contains(v) <==> sets(j, action_at(v))) by {
                if j < i {
                    assert(formulas@[j] == before[j]);
                } else {
                    assert(formulas@[j] == formula);
                }
            }
        }
        i += 1;
    }
    let ghost union = |a: ActionView|
        exists|i: int| 0 <= i < formulas@.len() && #[trigger] sets(i, a);
    let r = some_of(formulas, Ghost(sets));
    proof {
        assert forall|v: Valuation| over_alphabet(v) implies (#[trigger] solutions(r).contains(
            v,
        ) <==> (exists|i: int|
            0 <= i < rules.len() && allow_covers(#[trigger] rules[i], action_at(v), view))) by {
            assert(solutions(r).contains(v) <==> union(action_at(v)));
            if exists|i: int|
                0 <= i < rules.len() && allow_covers(#[trigger] rules[i], action_at(v), view) {
                let i = choose|i: int|
                    0 <= i < rules.len() && allow_covers(
                        #[trigger] rules[i],
                        action_at(v),
                        view,
                    );
                assert(sets(i, action_at(v)));
            }
        }
    }
    r
}

/// The formula that one of the deny rules covers the action.
fn deny_rules_formula(endpoint: &Endpoint) -> (r: Bool)
    requires
        endpoint_without_nul(endpoint.deep_view()),
    ensures
        endpoint_is_printable(endpoint.deep_view()) ==> has_printable_literals(r),
        encodes(
            r,
            |a: ActionView|
                exists|i: int|
                    0 <= i < endpoint.deep_view().deny_rules.len() && deny_covers(
                        #[trigger] endpoint.deep_view().deny_rules[i],
                        a,
                    ),
        ),
{
    let ghost rules = endpoint.deep_view().deny_rules;
    let ghost sets = |i: int, a: ActionView| deny_covers(rules[i], a);
    let mut formulas: Vec<Bool> = Vec::new();
    let mut i: usize = 0;
    while i < endpoint.deny_rules.len()
        invariant
            i <= endpoint.deny_rules.len(),
            rules == endpoint.deep_view().deny_rules,
            endpoint_without_nul(endpoint.deep_view()),
            sets == (|i: int, a: ActionView| deny_covers(rules[i], a)),
            formulas.len() == i,
            endpoint_is_printable(endpoint.deep_view()) ==> all_printable(formulas@),
            encode_all(formulas@, sets),
        decreases endpoint.deny_rules.len() - i,
    {
        let ghost before = formulas@;
        let rule = &endpoint.deny_rules[i];
        proof {
            assert(rules[i as int] == rule.deep_view());
        }
        let formula = rule_formula(rule.method.as_str(), rule.path.as_str());
        formulas.push(formula);
        proof {
            assert forall|j: int, v: Valuation|
                0 <= j < formulas@.len() && over_alphabet(v) implies (#[trigger] solutions(
                formulas@[j],
            ).contains(v) <==> sets(j, action_at(v))) by {
                if j < i {
                    assert(formulas@[j] == before[j]);
                } else {
                    assert(formulas@[j] == formula);
                }
            }
        }
        i += 1;
    }
    let ghost union = |a: ActionView|
        exists|i: int| 0 <= i < formulas@.len() && #[trigger] sets(i, a);
    let r = some_of(formulas, Ghost(sets));
    proof {
        assert forall|v: Valuation| over_alphabet(v) implies (#[trigger] solutions(r).contains(
            v,
        ) <==> (exists|i: int|
            0 <= i < rules.len() && deny_covers(#[trigger] rules[i], action_at(v)))) by {
            assert(solutions(r).contains(v) <==> union(action_at(v)));
            if exists|i: int|
                0 <= i < rules.len() && deny_covers(#[trigger] rules[i], action_at(v)) {
                let i = choose|i: int|
                    0 <= i < rules.len() && deny_covers(#[trigger] rules[i], action_at(v));
                assert(sets(i, action_at(v)));
            }
        }
    }
    r
}

/// The formula that the access preset or the allow rules of a REST endpoint
/// cover the action.
fn rest_formula(endpoint: &Endpoint, view: MaximumView) -> (r: Bool)
    requires
        endpoint_without_nul(endpoint.deep_view()),
    ensures
        endpoint_is_printable(endpoint.deep_view()) ==> has_printable_literals(r),
        encodes(
            r,
            |a: ActionView| rest_allows(endpoint.deep_view(), a, view),
        ),
{
    let access = endpoint.access.as_str();
    proof {
        reveal_strlit("GET");
        reveal_strlit("HEAD");
        reveal_strlit("OPTIONS");
        reveal_strlit("POST");
        reveal_strlit("PUT");
        reveal_strlit("PATCH");
    }
    if text::same(access, "read-only") {
        let mut methods: Vec<String> = Vec::new();
        methods.push("GET".to_owned());
        methods.push("HEAD".to_owned());
        methods.push("OPTIONS".to_owned());
        assert(methods.deep_view() =~= read_only_methods());
        preset_formula(&methods)
    } else if text::same(access, "read-write") {
        let mut methods: Vec<String> = Vec::new();
        methods.push("GET".to_owned());
        methods.push("HEAD".to_owned());
        methods.push("OPTIONS".to_owned());
        methods.push("POST".to_owned());
        methods.push("PUT".to_owned());
        methods.push("PATCH".to_owned());
        assert(methods.deep_view() =~= read_write_methods());
        preset_formula(&methods)
    } else if text::same(access, "full") {
        proof {
            reveal_strlit("**");
        }
        path_formula("**")
    } else {
        allow_rules_formula(endpoint, view)
    }
}

/// The formula that the action connects to the endpoint.
fn connection_formula(endpoint: &Endpoint) -> (r: Bool)
    requires
        endpoint_without_nul(endpoint.deep_view()),
    ensures
        endpoint_is_printable(endpoint.deep_view()) ==> has_printable_literals(r),
        encodes(
            r,
            |a: ActionView| connects(endpoint.deep_view(), a),
        ),
{
    let ghost shown = endpoint.deep_view();
    let ports = endpoint.effective_ports();
    let ghost sets = |i: int, a: ActionView| a.port == ports@[i];
    let mut formulas: Vec<Bool> = Vec::new();
    let mut i: usize = 0;
    proof {
        lemma_names();
        lemma_lower_printable(shown.host);
    }
    while i < ports.len()
        invariant
            i <= ports.len(),
            without_nul(PORT@),
            sets == (|i: int, a: ActionView| a.port == ports@[i]),
            formulas.len() == i,
            all_printable(formulas@),
            encode_all(formulas@, sets),
        decreases ports.len() - i,
    {
        let ghost before = formulas@;
        let formula = solver::number_is(PORT, ports[i] as u64);
        formulas.push(formula);
        proof {
            assert forall|j: int, v: Valuation|
                0 <= j < formulas@.len() && over_alphabet(v) implies (#[trigger] solutions(
                formulas@[j],
            ).contains(v) <==> sets(j, action_at(v))) by {
                if j < i {
                    assert(formulas@[j] == before[j]);
                } else {
                    assert(formulas@[j] == formula);
                }
            }
        }
        i += 1;
    }
    let ghost union = |a: ActionView|
        exists|i: int| 0 <= i < formulas@.len() && #[trigger] sets(i, a);
    let on_port = some_of(formulas, Ghost(sets));
    let host = text::to_lower(endpoint.host.as_str());
    let expression = glob::glob_regex(host.as_str(), '.');
    let on_host = solver::text_in(HOST, &expression);
    let r = conjunction(on_port, on_host);
    proof {
        assert forall|v: Valuation| over_alphabet(v) implies (#[trigger] solutions(r).contains(
            v,
        ) <==> connects(shown, action_at(v))) by {
            assert(solutions(on_port).contains(v) <==> union(action_at(v)));
            assert(in_alphabet(v.texts[HOST@]));
            assert(solutions(on_host).contains(v) <==> glob_matches(
                text::lower(shown.host),
                '.',
                action_at(v).host,
            ));
            if connects(shown, action_at(v)) {
                let i = choose|i: int|
                    0 <= i < shown.effective_ports().len() && action_at(v).port
                        == #[trigger] shown.effective_ports()[i];
                assert(sets(i, action_at(v)));
            }
            if union(action_at(v)) {
                let i = choose|i: int|
                    0 <= i < ports@.len() && #[trigger] sets(i, action_at(v));
                assert(action_at(v).port == shown.effective_ports()[i]);
            }
        }
    }
    r
}

/// The formula that an endpoint allows the action.
fn endpoint_allows_formula(endpoint: &Endpoint, view: MaximumView) -> (r: Bool)
    requires
        endpoint_without_nul(endpoint.deep_view()),
    ensures
        endpoint_is_printable(endpoint.deep_view()) ==> has_printable_literals(r),
        encodes(
            r,
            |a: ActionView| endpoint_allows(endpoint.deep_view(), a, view),
        ),
{
    let ghost shown = endpoint.deep_view();
    if endpoint.review.required && view == MaximumView::AutoEligible {
        return solver::truth(false);
    }
    let connection = connection_formula(endpoint);
    let protocol = text::to_lower(text::trim(endpoint.protocol.as_str()));
    if text::same(protocol.as_str(), "") {
        return connection;
    }
    if !text::same(protocol.as_str(), "rest") {
        return solver::truth(false);
    }
    let layer = rest_layer_formula();
    let path = path_or_any_formula(endpoint.path.as_str());
    let rest = rest_formula(endpoint, view);
    let r = conjunction(conjunction(connection, layer), conjunction(path, rest));
    proof {
        assert forall|v: Valuation| over_alphabet(v) implies (#[trigger] solutions(r).contains(
            v,
        ) <==> endpoint_allows(shown, action_at(v), view)) by {
            let a = action_at(v);
            assert(solutions(connection).contains(v) <==> connects(shown, a));
            assert(solutions(layer).contains(v) <==> a.layer == codes("rest"@));
            assert(solutions(path).contains(v) <==> path_matches(path_or_any(shown.path), a));
            assert(solutions(rest).contains(v) <==> rest_allows(shown, a, view));
        }
    }
    r
}

/// The formula that an endpoint denies the action.
fn endpoint_denies_formula(endpoint: &Endpoint) -> (r: Bool)
    requires
        endpoint_without_nul(endpoint.deep_view()),
    ensures
        endpoint_is_printable(endpoint.deep_view()) ==> has_printable_literals(r),
        encodes(
            r,
            |a: ActionView| endpoint_denies(endpoint.deep_view(), a),
        ),
{
    let ghost shown = endpoint.deep_view();
    let protocol = text::to_lower(endpoint.protocol.as_str());
    if !text::same(protocol.as_str(), "rest") || endpoint.deny_rules.len() == 0 {
        return solver::truth(false);
    }
    let connection = connection_formula(endpoint);
    let layer = rest_layer_formula();
    let path = path_or_any_formula(endpoint.path.as_str());
    let rules = deny_rules_formula(endpoint);
    let r = conjunction(conjunction(connection, layer), conjunction(path, rules));
    proof {
        assert forall|v: Valuation| over_alphabet(v) implies (#[trigger] solutions(r).contains(
            v,
        ) <==> endpoint_denies(shown, action_at(v))) by {
            let a = action_at(v);
            assert(solutions(connection).contains(v) <==> connects(shown, a));
            assert(solutions(layer).contains(v) <==> a.layer == codes("rest"@));
            assert(solutions(path).contains(v) <==> path_matches(path_or_any(shown.path), a));
            assert(solutions(rules).contains(v) <==> (exists|i: int|
                0 <= i < shown.deny_rules.len() && deny_covers(
                    #[trigger] shown.deny_rules[i],
                    a,
                )));
        }
    }
    r
}

/// The formula that a binary of the rule runs the action.
fn binaries_formula(rule: &NetworkPolicyRule) -> (r: Bool)
    requires
        rule_without_nul(rule.deep_view()),
    ensures
        rule_is_printable(rule.deep_view()) ==> has_printable_literals(r),
        encodes(
            r,
            |a: ActionView| binary_runs(rule.deep_view(), a),
        ),
{
    let ghost shown = rule.deep_view();
    let ghost sets = |i: int, a: ActionView| glob_matches(shown.binaries[i].path, '/', a.binary);
    let mut formulas: Vec<Bool> = Vec::new();
    let mut i: usize = 0;
    proof {
        lemma_names();
    }
    while i < rule.binaries.len()
        invariant
            i <= rule.binaries.len(),
            without_nul(BINARY@),
            shown == rule.deep_view(),
            rule_without_nul(shown),
            sets == (|i: int, a: ActionView| glob_matches(shown.binaries[i].path, '/', a.binary)),
            formulas.len() == i,
            rule_is_printable(shown) ==> all_printable(formulas@),
            encode_all(formulas@, sets),
        decreases rule.binaries.len() - i,
    {
        let ghost before = formulas@;
        let path = rule.binaries[i].path.as_str();
        proof {
            assert(shown.binaries[i as int].path == path@);
        }
        let expression = glob::glob_regex(path, '/');
        let formula = solver::text_in(BINARY, &expression);
        formulas.push(formula);
        proof {
            assert forall|j: int, v: Valuation|
                0 <= j < formulas@.len() && over_alphabet(v) implies (#[trigger] solutions(
                formulas@[j],
            ).contains(v) <==> sets(j, action_at(v))) by {
                if j < i {
                    assert(formulas@[j] == before[j]);
                } else {
                    assert(formulas@[j] == formula);
                    assert(in_alphabet(v.texts[BINARY@]));
                }
            }
        }
        i += 1;
    }
    let ghost union = |a: ActionView|
        exists|i: int| 0 <= i < formulas@.len() && #[trigger] sets(i, a);
    let r = some_of(formulas, Ghost(sets));
    proof {
        assert forall|v: Valuation| over_alphabet(v) implies (#[trigger] solutions(r).contains(
            v,
        ) <==> binary_runs(shown, action_at(v))) by {
            assert(solutions(r).contains(v) <==> union(action_at(v)));
            if binary_runs(shown, action_at(v)) {
                let i = choose|i: int|
                    0 <= i < shown.binaries.len() && glob_matches(
                        (#[trigger] shown.binaries[i]).path,
                        '/',
                        action_at(v).binary,
                    );
                assert(sets(i, action_at(v)));
            }
            if union(action_at(v)) {
                let i = choose|i: int|
                    0 <= i < shown.binaries.len() && #[trigger] sets(i, action_at(v));
                assert(glob_matches(shown.binaries[i].path, '/', action_at(v).binary));
            }
        }
    }
    r
}

/// The formula that a network rule allows the action.
fn rule_allows_formula(rule: &NetworkPolicyRule, view: MaximumView) -> (r: Bool)
    requires
        rule_without_nul(rule.deep_view()),
    ensures
        rule_is_printable(rule.deep_view()) ==> has_printable_literals(r),
        encodes(
            r,
            |a: ActionView| rule_allows(rule.deep_view(), a, view),
        ),
{
    let ghost shown = rule.deep_view();
    let ghost sets = |i: int, a: ActionView| endpoint_allows(shown.endpoints[i], a, view);
    let mut formulas: Vec<Bool> = Vec::new();
    let mut i: usize = 0;
    while i < rule.endpoints.len()
        invariant
            i <= rule.endpoints.len(),
            shown == rule.deep_view(),
            rule_without_nul(shown),
            sets == (|i: int, a: ActionView| endpoint_allows(shown.endpoints[i], a, view)),
            formulas.len() == i,
            rule_is_printable(shown) ==> all_printable(formulas@),
            encode_all(formulas@, sets),
        decreases rule.endpoints.len() - i,
    {
        let ghost before = formulas@;
        let endpoint = &rule.endpoints[i];
        proof {
            assert(shown.endpoints[i as int] == endpoint.deep_view());
        }
        let formula = endpoint_allows_formula(endpoint, view);
        formulas.push(formula);
        proof {
            assert forall|j: int, v: Valuation|
                0 <= j < formulas@.len() && over_alphabet(v) implies (#[trigger] solutions(
                formulas@[j],
            ).contains(v) <==> sets(j, action_at(v))) by {
                if j < i {
                    assert(formulas@[j] == before[j]);
                } else {
                    assert(formulas@[j] == formula);
                }
            }
        }
        i += 1;
    }
    let ghost union = |a: ActionView|
        exists|i: int| 0 <= i < formulas@.len() && #[trigger] sets(i, a);
    let endpoints = some_of(formulas, Ghost(sets));
    let binaries = binaries_formula(rule);
    let r = conjunction(binaries, endpoints);
    proof {
        assert forall|v: Valuation| over_alphabet(v) implies (#[trigger] solutions(r).contains(
            v,
        ) <==> rule_allows(shown, action_at(v), view)) by {
            let a = action_at(v);
            assert(solutions(binaries).contains(v) <==> binary_runs(shown, a));
            assert(solutions(endpoints).contains(v) <==> union(a));
            if exists|i: int|
                0 <= i < shown.endpoints.len() && endpoint_allows(
                    #[trigger] shown.endpoints[i],
                    a,
                    view,
                ) {
                let i = choose|i: int|
                    0 <= i < shown.endpoints.len() && endpoint_allows(
                        #[trigger] shown.endpoints[i],
                        a,
                        view,
                    );
                assert(sets(i, a));
            }
        }
    }
    r
}

/// The formula that a network rule denies the action.
fn rule_denies_formula(rule: &NetworkPolicyRule) -> (r: Bool)
    requires
        rule_without_nul(rule.deep_view()),
    ensures
        rule_is_printable(rule.deep_view()) ==> has_printable_literals(r),
        encodes(
            r,
            |a: ActionView| rule_denies(rule.deep_view(), a),
        ),
{
    let ghost shown = rule.deep_view();
    let ghost sets = |i: int, a: ActionView| endpoint_denies(shown.endpoints[i], a);
    let mut formulas: Vec<Bool> = Vec::new();
    let mut i: usize = 0;
    while i < rule.endpoints.len()
        invariant
            i <= rule.endpoints.len(),
            shown == rule.deep_view(),
            rule_without_nul(shown),
            sets == (|i: int, a: ActionView| endpoint_denies(shown.endpoints[i], a)),
            formulas.len() == i,
            rule_is_printable(shown) ==> all_printable(formulas@),
            encode_all(formulas@, sets),
        decreases rule.endpoints.len() - i,
    {
        let ghost before = formulas@;
        let endpoint = &rule.endpoints[i];
        proof {
            assert(shown.endpoints[i as int] == endpoint.deep_view());
        }
        let formula = endpoint_denies_formula(endpoint);
        formulas.push(formula);
        proof {
            assert forall|j: int, v: Valuation|
                0 <= j < formulas@.len() && over_alphabet(v) implies (#[trigger] solutions(
                formulas@[j],
            ).contains(v) <==> sets(j, action_at(v))) by {
                if j < i {
                    assert(formulas@[j] == before[j]);
                } else {
                    assert(formulas@[j] == formula);
                }
            }
        }
        i += 1;
    }
    let ghost union = |a: ActionView|
        exists|i: int| 0 <= i < formulas@.len() && #[trigger] sets(i, a);
    let endpoints = some_of(formulas, Ghost(sets));
    let binaries = binaries_formula(rule);
    let r = conjunction(binaries, endpoints);
    proof {
        assert forall|v: Valuation| over_alphabet(v) implies (#[trigger] solutions(r).contains(
            v,
        ) <==> rule_denies(shown, action_at(v))) by {
            let a = action_at(v);
            assert(solutions(binaries).contains(v) <==> binary_runs(shown, a));
            assert(solutions(endpoints).contains(v) <==> union(a));
            if exists|i: int|
                0 <= i < shown.endpoints.len() && endpoint_denies(
                    #[trigger] shown.endpoints[i],
                    a,
                ) {
                let i = choose|i: int|
                    0 <= i < shown.endpoints.len() && endpoint_denies(
                        #[trigger] shown.endpoints[i],
                        a,
                    );
                assert(sets(i, a));
            }
        }
    }
    r
}

/// The formula that the policy allows the action.
pub(crate) fn policy_formula(policy: &PolicyModel, view: MaximumView) -> (r: Bool)
    requires
        policy_without_nul(policy.deep_view()),
    ensures
        policy_is_printable(policy.deep_view()) ==> has_printable_literals(r),
        encodes(
            r,
            |a: ActionView| policy_allows(policy.deep_view(), a, view),
        ),
{
    let ghost rules = policy.deep_view().network_policies;
    let ghost allows = |i: int, a: ActionView| rule_allows(rules[i].1, a, view);
    let ghost denies = |i: int, a: ActionView| rule_denies(rules[i].1, a);
    let mut allowing: Vec<Bool> = Vec::new();
    let mut denying: Vec<Bool> = Vec::new();
    let mut i: usize = 0;
    while i < policy.network_policies.len()
        invariant
            i <= policy.network_policies.len(),
            rules == policy.deep_view().network_policies,
            policy_without_nul(policy.deep_view()),
            allows == (|i: int, a: ActionView| rule_allows(rules[i].1, a, view)),
            denies == (|i: int, a: ActionView| rule_denies(rules[i].1, a)),
            allowing.len() == i,
            denying.len() == i,
            policy_is_printable(policy.deep_view()) ==> all_printable(allowing@) && all_printable(
                denying@,
            ),
            encode_all(allowing@, allows),
            encode_all(denying@, denies),
        decreases policy.network_policies.len() - i,
    {
        let ghost allowing_before = allowing@;
        let ghost denying_before = denying@;
        let rule = &policy.network_policies[i].1;
        proof {
            assert(rules[i as int].1 == rule.deep_view());
        }
        let allowed = rule_allows_formula(rule, view);
        let denied = rule_denies_formula(rule);
        allowing.push(allowed);
        denying.push(denied);
        proof {
            assert forall|j: int, v: Valuation|
                0 <= j < allowing@.len() && over_alphabet(v) implies (#[trigger] solutions(
                allowing@[j],
            ).contains(v) <==> allows(j, action_at(v))) by {
                if j < i {
                    assert(allowing@[j] == allowing_before[j]);
                } else {
                    assert(allowing@[j] == allowed);
                }
            }
            assert forall|j: int, v: Valuation|
                0 <= j < denying@.len() && over_alphabet(v) implies (#[trigger] solutions(
                denying@[j],
            ).contains(v) <==> denies(j, action_at(v))) by {
                if j < i {
                    assert(denying@[j] == denying_before[j]);
                } else {
                    assert(denying@[j] == denied);
                }
            }
        }
        i += 1;
    }
    let ghost allow_union = |a: ActionView|
        exists|i: int| 0 <= i < allowing@.len() && #[trigger] allows(i, a);
    let ghost deny_union = |a: ActionView|
        exists|i: int| 0 <= i < denying@.len() && #[trigger] denies(i, a);
    let allowed = some_of(allowing, Ghost(allows));
    let denied = some_of(denying, Ghost(denies));
    let r = conjunction(allowed, solver::negation(&denied));
    proof {
        assert forall|v: Valuation| over_alphabet(v) implies (#[trigger] solutions(r).contains(
            v,
        ) <==> policy_allows(policy.deep_view(), action_at(v), view)) by {
            let a = action_at(v);
            assert(solutions(allowed).contains(v) <==> allow_union(a));
            assert(solutions(denied).contains(v) <==> deny_union(a));
            if exists|i: int|
                0 <= i < rules.len() && rule_allows((#[trigger] rules[i]).1, a, view) {
                let i = choose|i: int|
                    0 <= i < rules.len() && rule_allows((#[trigger] rules[i]).1, a, view);
                assert(allows(i, a));
            }
            if exists|i: int| 0 <= i < rules.len() && rule_denies((#[trigger] rules[i]).1, a) {
                let i = choose|i: int|
                    0 <= i < rules.len() && rule_denies((#[trigger] rules[i]).1, a);
                assert(denies(i, a));
            }
            if allow_union(a) {
                let i = choose|i: int| 0 <= i < rules.len() && #[trigger] allows(i, a);
                assert(rule_allows(rules[i].1, a, view));
            }
            if deny_union(a) {
                let i = choose|i: int| 0 <= i < rules.len() && #[trigger] denies(i, a);
                assert(rule_denies(rules[i].1, a));
            }
        }
    }
    r
}

/// The formula that the action is one that is considered.
pub(crate) fn domain_formula() -> (r: Bool)
    ensures
        has_printable_literals(r),
        encodes(r, |a: ActionView| in_domain(a)),
{
    proof {
        lemma_names();
        reveal_strlit("/**");
        reveal_strlit("l4");
        reveal_strlit("rest");
        reveal_strlit("");
        reveal_strlit("/");
    }
    let absolute = glob::glob_regex("/**", '/');
    let binary = solver::text_in(BINARY, &absolute);
    let anything = solver::any_text();
    let host = solver::text_in(HOST, &anything);
    let below = solver::number_at_most(PORT, 0);
    let above = solver::negation(&below);
    let bounded = solver::number_at_most(PORT, 65_535);
    let mut layers: Vec<Bool> = Vec::new();
    layers.push(solver::text_is(LAYER, "l4"));
    layers.push(solver::text_is(LAYER, "rest"));
    let ghost choices = layers@;
    let layer = disjunction(layers);
    let no_method = solver::text_is(METHOD, "");
    let method = solver::negation(&no_method);
    let path = solver::text_begins(PATH, "/");
    let mut formulas: Vec<Bool> = Vec::new();
    formulas.push(binary);
    formulas.push(host);
    formulas.push(above);
    formulas.push(bounded);
    formulas.push(layer);
    formulas.push(method);
    formulas.push(path);
    let ghost list = formulas@;
    let r = solver::all_of(&formulas);
    proof {
        assert forall|v: Valuation| over_alphabet(v) implies (#[trigger] solutions(r).contains(v)
            <==> in_domain(action_at(v))) by {
            let a = action_at(v);
            assert(in_alphabet(v.texts[BINARY@]));
            assert(in_alphabet(v.texts[HOST@]));
            assert(solutions(list[0]).contains(v) <==> glob_matches("/**"@, '/', a.binary));
            assert(solutions(list[1]).contains(v));
            assert(solutions(list[2]).contains(v) <==> a.port >= 1);
            assert(solutions(list[3]).contains(v) <==> a.port <= 65535);
            assert(solutions(list[4]).contains(v) <==> (a.layer == codes("l4"@) || a.layer == codes("rest"@))) by {
                assert(solutions(choices[0]).contains(v) <==> a.layer == codes("l4"@));
                assert(solutions(choices[1]).contains(v) <==> a.layer == codes("rest"@));
            }
            assert(solutions(list[5]).contains(v) <==> a.method.len() > 0) by {
                if a.method.len() == 0 {
                    assert(a.method =~= codes(""@));
                }
            }
            assert(solutions(list[6]).contains(v) <==> codes("/"@).is_prefix_of(a.path));
            if all_hold(list, v) {
                assert(solutions(list[0]).contains(v));
                assert(solutions(list[2]).contains(v));
                assert(solutions(list[3]).contains(v));
                assert(solutions(list[4]).contains(v));
                assert(solutions(list[5]).contains(v));
                assert(solutions(list[6]).contains(v));
            }
        }
    }
    r
}

} // verus!
