//! What the entries of a chain are asked, what their replies do to a request, and what is
//! taken out of its body.

use crate::middleware;
use crate::middleware::builtins::builtin_bindings;
use crate::middleware::chain;
use crate::middleware::chain::{
    after, answered, comes_to, finished, step, OutcomeView, ReplyView, StateView, StepView,
    SupervisorMiddleware,
};
use crate::middleware::secrets;
use crate::middleware::secrets::{counts, evaluated, mark, marked, matches_in, redacted};
use crate::middleware::{
    evaluation_of, mutation_problem, name_is_appendable, on_error_parsed, safe_text, value_is_safe,
    Decision, EntryView, EvaluationView, InputView, OnError, ResultView, TextMap,
};
use crate::ordered;
use crate::text;
use vstd::prelude::*;
use vstd::utf8::{decode_utf8, encode_utf8, valid_utf8};

verus! {

// ---------------------------------------------------------------------------
// What entries are asked
// ---------------------------------------------------------------------------

/// An entry is asked about the body and the headers that it is given, with its own
/// configuration and for its own implementation, and about the target of the request.
pub proof fn law_evaluations(
    entry: EntryView,
    input: InputView,
    headers: TextMap,
    body: Seq<u8>,
)
    ensures
        ({
            let evaluation = evaluation_of(entry, input, headers, body);
            &&& evaluation.body == body
            &&& evaluation.headers == headers
            &&& evaluation.binding_id == entry.implementation
            &&& evaluation.config == Some(entry.config)
            &&& evaluation.api_version == "openshell.middleware.v1"@
            &&& evaluation.phase == "pre_credentials"@
            &&& evaluation.context matches Some(context) && context.request_id == input.request_id
                && context.sandbox_id == input.sandbox_id
            &&& evaluation.target matches Some(target) && target.scheme == input.scheme
                && target.host == input.host && target.port == input.port && target.method
                == input.method && target.path == input.path && target.query == input.query
        }),
{
}

/// Every entry is asked about the request as the replies before its own left it.
pub proof fn law_entries_see_what_came_before<S: SupervisorMiddleware>(
    service: S,
    entries: Seq<EntryView>,
    input: InputView,
    replies: Seq<ReplyView>,
    k: int,
)
    requires
        answered(service, entries, input, replies),
        0 <= k < replies.len(),
    ensures
        after(entries, input, replies.take(k)) matches StepView::Continue(state) && exists|
            evaluation: EvaluationView,
        | #[trigger]
            service.answers(evaluation, replies[k]) && evaluation.body == state.body
                && evaluation.headers == state.headers && evaluation.binding_id
                == entries[k].implementation && evaluation.config == Some(entries[k].config),
    decreases replies.len(),
{
    let n = replies.len() - 1;
    if k < n {
        law_entries_see_what_came_before(service, entries, input, replies.drop_last(), k);
        assert(replies.drop_last().take(k) =~= replies.take(k));
        assert(replies.drop_last()[k] == replies[k]);
    } else {
        assert(replies.take(k) =~= replies.drop_last());
        match after(entries, input, replies.drop_last()) {
            StepView::Continue(state) => {
                let evaluation = evaluation_of(entries[k], input, state.headers, state.body);
                law_evaluations(entries[k], input, state.headers, state.body);
                assert(service.answers(evaluation, replies[k]));
            },
            StepView::Stop(_) => {},
        }
    }
}

// ---------------------------------------------------------------------------
// What replies do
// ---------------------------------------------------------------------------

/// The body of a request that no entry stopped is the one of the last reply that changed
/// it, and the request's own where none did. There is a record of every entry, in order,
/// and only a reply that was given and holds a body counts as a change.
pub proof fn law_bodies(entries: Seq<EntryView>, input: InputView, replies: Seq<ReplyView>)
    requires
        replies.len() <= entries.len(),
    ensures
        after(entries, input, replies) matches StepView::Continue(state) ==> {
            &&& state.applied.len() == replies.len()
            &&& forall|k: int|
                0 <= k < replies.len() ==> {
                    let record = #[trigger] state.applied[k];
                    &&& record.name == entries[k].name
                    &&& record.implementation == entries[k].implementation
                    &&& record.decision == Decision::Allow
                    &&& record.transformed ==> !record.failed
                    &&& record.transformed <==> !record.failed && (replies[k] matches Ok(result)
                        && result.has_body)
                    &&& record.failed ==> entries[k].on_error == OnError::FailOpen
                    &&& !record.failed ==> (replies[k] matches Ok(result) && result.decision
                        == Decision::Allow)
                }
            &&& (forall|k: int| 0 <= k < replies.len() ==> !(#[trigger] state.applied[k]).transformed)
                ==> state.body == input.body
            &&& forall|k: int|
                0 <= k < replies.len() && (#[trigger] state.applied[k]).transformed && (forall|
                    j: int,
                |
                    k < j < replies.len() ==> !(#[trigger] state.applied[j]).transformed)
                    ==> state.body == replies[k]->Ok_0.body
        },
    decreases replies.len(),
{
    if replies.len() > 0 {
        let before = replies.drop_last();
        law_bodies(entries, input, before);
        let n = before.len() as int;
        match after(entries, input, before) {
            StepView::Continue(old) => {
                match after(entries, input, replies) {
                    StepView::Continue(state) => {
                        assert forall|k: int| 0 <= k < n implies #[trigger] state.applied[k]
                            == old.applied[k] && before[k] == replies[k] by {}
                        if state.applied[n].transformed {
                            assert(state.body == replies[n]->Ok_0.body);
                        } else {
                            assert(state.body == old.body);
                            if forall|k: int|
                                0 <= k < replies.len() ==> !(
                                #[trigger] state.applied[k]).transformed {
                                assert forall|k: int| 0 <= k < n implies !(
                                #[trigger] old.applied[k]).transformed by {
                                    assert(state.applied[k] == old.applied[k]);
                                }
                            }
                            assert forall|k: int|
                                0 <= k < replies.len() && (#[trigger] state.applied[k]).transformed
                                    && (forall|j: int|
                                    k < j < replies.len() ==> !(
                                    #[trigger] state.applied[j]).transformed) implies state.body
                                == replies[k]->Ok_0.body by {
                                assert(k < n);
                                assert(old.applied[k].transformed);
                                assert forall|j: int| k < j < n implies !(
                                #[trigger] old.applied[j]).transformed by {
                                    assert(state.applied[j] == old.applied[j]);
                                }
                            }
                        }
                    },
                    StepView::Stop(_) => {},
                }
            },
            StepView::Stop(_) => {},
        }
    }
}

/// A reply that changes the body is what the next entry is asked about, and what the chain
/// comes to where it is the last.
pub proof fn law_changes_feed_the_next(
    entries: Seq<EntryView>,
    input: InputView,
    replies: Seq<ReplyView>,
    result: ResultView,
)
    requires
        replies.len() < entries.len(),
        result.decision == Decision::Allow,
        result.add_headers.len() == 0,
        result.has_body,
        after(entries, input, replies) is Continue,
    ensures
        after(entries, input, replies.push(Ok(result))) matches StepView::Continue(state)
            && state.body == result.body && finished(state).body == result.body && finished(
            state,
        ).allowed,
{
    assert(replies.push(Ok(result)).drop_last() =~= replies);
}

/// A reply fails where it is an error, where it does not decide, and where it wants to
/// append headers that it may not. An entry that fails closed then stops the chain, and the
/// request is denied. One that fails open leaves the request as it was.
pub proof fn law_failed_replies(state: StateView, entry: EntryView, reply: ReplyView)
    requires
        reply matches Ok(result) ==> result.decision == Decision::Unspecified || mutation_problem(
            state.headers,
            result.add_headers,
            result.add_headers.len(),
        ) is Some,
    ensures
        entry.on_error == OnError::FailClosed ==> (step(state, entry, reply) matches StepView::Stop(
            outcome,
        ) && !outcome.allowed && outcome.body == state.body && outcome.added_headers
            == state.added_headers && outcome.findings == state.findings && text::starts_with(
            outcome.reason,
            "middleware_failed: "@,
        )),
        entry.on_error == OnError::FailOpen ==> (step(state, entry, reply) matches StepView::Continue(
            next,
        ) && next.body == state.body && next.headers == state.headers && next.added_headers
            == state.added_headers && next.findings == state.findings && next.metadata
            == state.metadata),
{
    reveal_strlit("middleware_failed: ");
    let start = "middleware_failed: "@;
    if entry.on_error == OnError::FailClosed {
        match step(state, entry, reply) {
            StepView::Stop(outcome) => {
                assert(outcome.reason.take(start.len() as int) =~= start);
            },
            StepView::Continue(_) => {},
        }
    }
}

/// A reply that decides and appends only what it may is applied: its body where it has one,
/// its headers, and its findings under the name of its entry. A denial then stops the chain
/// with its reason, made safe, and an approval lets it go on.
pub proof fn law_applied_replies(state: StateView, entry: EntryView, result: ResultView)
    requires
        result.decision != Decision::Unspecified,
        mutation_problem(state.headers, result.add_headers, result.add_headers.len()) is None,
    ensures
        result.decision == Decision::Allow ==> (step(state, entry, Ok(result))
            matches StepView::Continue(next) && (result.has_body ==> next.body == result.body) && (
        !result.has_body ==> next.body == state.body) && next.findings.len()
            == state.findings.len() + result.findings.len() && (forall|i: int|
            0 <= i < state.findings.len() ==> #[trigger] next.findings[i] == state.findings[i])
            && (forall|i: int|
            0 <= i < result.findings.len() ==> (#[trigger] next.findings[state.findings.len()
                + i]).middleware == entry.name && next.findings[state.findings.len() + i].finding
                == result.findings[i])),
        result.decision == Decision::Deny ==> (step(state, entry, Ok(result))
            matches StepView::Stop(outcome) && !outcome.allowed && outcome.reason == safe_text(
            result.reason,
        ) && (result.has_body ==> outcome.body == result.body) && (!result.has_body
            ==> outcome.body == state.body) && outcome.findings.len() == state.findings.len()
            + result.findings.len()),
{
}

/// A chain that is allowed has asked every entry, each of which allowed the request or
/// failed open. A chain that is not allowed was stopped by the last entry that it asked.
pub proof fn law_chain_outcomes(
    entries: Seq<EntryView>,
    input: InputView,
    replies: Seq<ReplyView>,
    outcome: OutcomeView,
)
    requires
        comes_to(entries, input, replies, outcome),
    ensures
        outcome.allowed ==> {
            &&& replies.len() == entries.len()
            &&& outcome.reason.len() == 0
            &&& forall|k: int|
                0 <= k < entries.len() ==> {
                    ||| (#[trigger] replies[k] matches Ok(result) && result.decision
                        == Decision::Allow)
                    ||| entries[k].on_error == OnError::FailOpen
                }
            &&& (forall|k: int|
                0 <= k < entries.len() ==> (#[trigger] replies[k] matches Ok(result) ==> !result.has_body))
                ==> outcome.body == input.body
        },
        !outcome.allowed ==> replies.len() > 0 && outcome.applied.len() > 0
            && outcome.applied.last().decision == Decision::Deny,
        entries.len() == 0 ==> outcome.allowed && outcome.body == input.body,
{
    law_bodies(entries, input, replies);
    chain::law_only_a_denial_stops(entries, input, replies);
    match after(entries, input, replies) {
        StepView::Continue(state) => {
            assert forall|k: int| 0 <= k < entries.len() implies ({
                ||| (#[trigger] replies[k] matches Ok(result) && result.decision == Decision::Allow)
                ||| entries[k].on_error == OnError::FailOpen
            }) by {
                let record = state.applied[k];
                assert(record.name == entries[k].name);
            }
            if forall|k: int|
                0 <= k < entries.len() ==> (#[trigger] replies[k] matches Ok(result) ==> !result.has_body) {
                assert forall|k: int| 0 <= k < replies.len() implies !(
                #[trigger] state.applied[k]).transformed by {
                    assert(replies[k] matches Ok(result) ==> !result.has_body);
                }
            }
        },
        StepView::Stop(_) => {},
    }
}

// ---------------------------------------------------------------------------
// Headers and reasons
// ---------------------------------------------------------------------------

/// Headers may be appended exactly where each has a name, up to case, that neither the
/// request nor another of them has, that begins with the prefix for such headers and is of
/// visible ASCII without a colon, and a value without control characters but tabs.
pub proof fn law_appended_headers(existing: TextMap, mutations: TextMap)
    ensures
        mutation_problem(existing, mutations, mutations.len()) is None <==> forall|i: int|
            0 <= i < mutations.len() ==> {
                let name = text::lower((#[trigger] mutations[i]).0);
                let value = mutations[i].1;
                &&& forall|j: int| 0 <= j < i ==> text::lower((#[trigger] mutations[j]).0) != name
                &&& ordered::lookup(existing, name) is None
                &&& text::starts_with(name, "x-openshell-middleware-"@)
                &&& forall|j: int|
                    0 <= j < name.len() ==> 33 <= (#[trigger] name[j]) as u32 && name[j] as u32
                        <= 126 && name[j] != ':'
                &&& forall|j: int|
                    0 <= j < value.len() ==> (#[trigger] value[j]) as u32 == 9 || (32
                        <= value[j] as u32 && value[j] as u32 != 127)
            },
{
    lemma_mutations(existing, mutations, mutations.len());
    assert forall|i: int| 0 <= i < mutations.len() implies (name_is_appendable(
        text::lower((#[trigger] mutations[i]).0),
    ) <==> {
        let name = text::lower(mutations[i].0);
        &&& text::starts_with(name, "x-openshell-middleware-"@)
        &&& forall|j: int|
            0 <= j < name.len() ==> 33 <= (#[trigger] name[j]) as u32 && name[j] as u32 <= 126
                && name[j] != ':'
    }) by {
        let name = text::lower(mutations[i].0);
        assert forall|j: int| 0 <= j < name.len() implies (('!' <= #[trigger] name[j] && name[j]
            <= '~') <==> (33 <= name[j] as u32 && name[j] as u32 <= 126)) by {}
    }
    assert forall|i: int| 0 <= i < mutations.len() implies (value_is_safe(
        (#[trigger] mutations[i]).1,
    ) <==> forall|j: int|
        0 <= j < mutations[i].1.len() ==> (#[trigger] mutations[i].1[j]) as u32 == 9 || (32
            <= mutations[i].1[j] as u32 && mutations[i].1[j] as u32 != 127)) by {
        let value = mutations[i].1;
        assert forall|j: int| 0 <= j < value.len() implies ((#[trigger] value[j] == '\t' || (' '
            <= value[j] && value[j] <= '~') || value[j] >= '\u{80}') <==> (value[j] as u32 == 9
            || (32 <= value[j] as u32 && value[j] as u32 != 127))) by {
            lemma_value_char(value[j]);
        }
    }
}

proof fn lemma_value_char(c: char)
    ensures
        c == '\t' <==> c as u32 == 9,
        ' ' <= c <==> 32 <= c as u32,
        c <= '~' <==> c as u32 <= 126,
        c >= '\u{80}' <==> c as u32 >= 128,
{
}

proof fn lemma_mutations(existing: TextMap, mutations: TextMap, n: nat)
    requires
        n <= mutations.len(),
    ensures
        mutation_problem(existing, mutations, n) is None <==> forall|i: int|
            0 <= i < n ==> {
                let name = text::lower((#[trigger] mutations[i]).0);
                &&& forall|j: int| 0 <= j < i ==> text::lower((#[trigger] mutations[j]).0) != name
                &&& ordered::lookup(existing, name) is None
                &&& name_is_appendable(name)
                &&& value_is_safe(mutations[i].1)
            },
    decreases n,
{
    if n > 0 {
        lemma_mutations(existing, mutations, (n - 1) as nat);
        assert(middleware::repeats(mutations, n - 1) <==> !(forall|j: int|
            0 <= j < n - 1 ==> text::lower((#[trigger] mutations[j]).0) != text::lower(
                mutations[n - 1].0,
            )));
    }
}

/// A reason is made of the letters, digits, underscores, hyphens, colons and spaces of
/// what was given, and of nothing else. One of at most 160 such characters is kept as it
/// is.
pub proof fn law_reasons(reason: Seq<char>)
    ensures
        safe_text(reason).len() <= 160,
        forall|i: int|
            0 <= i < safe_text(reason).len() ==> {
                let c = #[trigger] safe_text(reason)[i];
                ||| 'a' <= c && c <= 'z'
                ||| 'A' <= c && c <= 'Z'
                ||| '0' <= c && c <= '9'
                ||| c == '_'
                ||| c == '-'
                ||| c == ':'
                ||| c == ' '
            },
        reason.len() <= 160 && (forall|i: int|
            0 <= i < reason.len() ==> {
                let c = #[trigger] reason[i];
                ||| 'a' <= c && c <= 'z'
                ||| 'A' <= c && c <= 'Z'
                ||| '0' <= c && c <= '9'
                ||| c == '_'
                ||| c == '-'
                ||| c == ':'
                ||| c == ' '
            }) ==> safe_text(reason) == reason,
{
    middleware::law_safe_reason(reason);
    assert forall|i: int| 0 <= i < safe_text(reason).len() implies ({
        let c = #[trigger] safe_text(reason)[i];
        ||| 'a' <= c && c <= 'z'
        ||| 'A' <= c && c <= 'Z'
        ||| '0' <= c && c <= '9'
        ||| c == '_'
        ||| c == '-'
        ||| c == ':'
        ||| c == ' '
    }) by {
        assert(middleware::is_reason_char(safe_text(reason)[i]));
    }
    if forall|i: int| 0 <= i < reason.len() ==> middleware::is_reason_char(#[trigger] reason[i]) {
        lemma_harmless(reason);
    }
}

proof fn lemma_harmless(s: Seq<char>)
    requires
        forall|i: int| 0 <= i < s.len() ==> middleware::is_reason_char(#[trigger] s[i]),
    ensures
        middleware::reason_chars(s) == s,
    decreases s.len(),
{
    if s.len() > 0 {
        lemma_harmless(s.drop_last());
        assert(middleware::is_reason_char(s[s.len() - 1]));
        assert(s.drop_last().push(s.last()) =~= s);
    } else {
        assert(middleware::reason_chars(s) =~= s);
    }
}

// ---------------------------------------------------------------------------
// Secrets
// ---------------------------------------------------------------------------

/// Every pattern is applied to what the ones before it left, whatever they found: the
/// assignments to names of secrets first, and then the keys with the prefix of a provider.
pub proof fn law_every_pattern_is_applied(input: Seq<char>)
    ensures
        ({
            let keyword =
                "(?i)(api[_-]?key|access[_-]?token|secret|password)([\"']?\\s*[:=]\\s*[\"'])[^\"',\\s}]+([\"']?)"@;
            let openai = "(sk-[A-Za-z0-9_-]{16,})"@;
            let first = marked(input, matches_in(keyword, input), 0);
            redacted(input, 2) == marked(first, matches_in(openai, first), 0)
        }),
{
    reveal_with_fuel(redacted, 3);
}

/// What is reported is how often each pattern matched in what the ones before it left, and
/// a pattern that did not match is not reported.
pub proof fn law_every_match_is_counted(input: Seq<char>)
    ensures
        ({
            let keyword =
                "(?i)(api[_-]?key|access[_-]?token|secret|password)([\"']?\\s*[:=]\\s*[\"'])[^\"',\\s}]+([\"']?)"@;
            let openai = "(sk-[A-Za-z0-9_-]{16,})"@;
            let first = marked(input, matches_in(keyword, input), 0);
            let n = matches_in(keyword, input).len();
            let m = matches_in(openai, first).len();
            let found = counts(input, 2);
            &&& n > 0 && m > 0 ==> found.len() == 2 && found[0].0 == "keyword"@ && found[1].0
                == "openai"@ && (n <= u32::MAX ==> found[0].1 == n) && (m <= u32::MAX
                ==> found[1].1 == m)
            &&& n > 0 && m == 0 ==> found.len() == 1 && found[0].0 == "keyword"@ && (n <= u32::MAX
                ==> found[0].1 == n)
            &&& n == 0 && m > 0 ==> found.len() == 1 && found[0].0 == "openai"@ && (m <= u32::MAX
                ==> found[0].1 == m)
            &&& n == 0 && m == 0 ==> found.len() == 0
        }),
{
    reveal_with_fuel(redacted, 3);
    reveal_with_fuel(counts, 3);
}

/// A match with its groups keeps the name, the sign and the closing quote around the mark.
/// Any other match is replaced by the mark alone.
pub proof fn law_marks(groups: Seq<Seq<char>>)
    ensures
        groups.len() >= 4 ==> mark(groups) == groups[1] + groups[2] + "[REDACTED]"@ + groups[3],
        groups.len() < 4 ==> mark(groups) == "[REDACTED]"@,
{
}

/// What stands before the first match is kept, and so is what stands behind the last.
pub proof fn law_rest_is_kept(input: Seq<char>, matches: Seq<(int, int, Seq<Seq<char>>)>)
    ensures
        matches.len() == 0 ==> marked(input, matches, 0) == input,
        matches.len() == 1 && 0 <= matches[0].0 <= matches[0].1 <= input.len() ==> marked(
            input,
            matches,
            0,
        ) == input.take(matches[0].0) + mark(matches[0].2) + input.skip(matches[0].1),
{
    reveal_with_fuel(marked, 2);
    if matches.len() == 0 {
        assert(input.subrange(0, input.len() as int) =~= input);
    }
    if matches.len() == 1 && 0 <= matches[0].0 <= matches[0].1 <= input.len() {
        assert(input.subrange(0, matches[0].0) =~= input.take(matches[0].0));
        assert(input.subrange(matches[0].1, input.len() as int) =~= input.skip(matches[0].1));
    }
}

/// The built-in middleware never denies. It answers with the body without secrets, which
/// counts as changed exactly where something was found, with one finding for each pattern
/// that matched, and with the number of all matches. A body that is no UTF-8 is an error,
/// and so is a configuration that asks for anything but redaction.
pub proof fn law_redaction_answers(evaluation: EvaluationView)
    ensures
        match evaluated(evaluation) {
            Ok(result) => {
                let input = decode_utf8(evaluation.body);
                let found = counts(input, 2);
                &&& valid_utf8(evaluation.body)
                &&& result.decision == Decision::Allow
                &&& result.reason.len() == 0
                &&& result.body == encode_utf8(redacted(input, 2))
                &&& result.has_body <==> found.len() > 0
                &&& result.add_headers.len() == 0
                &&& result.findings.len() == found.len()
                &&& forall|i: int|
                    0 <= i < found.len() ==> {
                        let finding = #[trigger] result.findings[i];
                        &&& finding.finding_type == "secret."@ + found[i].0
                        &&& finding.label == found[i].0 + " secret pattern"@
                        &&& finding.count == found[i].1
                        &&& finding.confidence == "medium"@
                        &&& finding.severity == "medium"@
                    }
                &&& found.len() == 0 ==> result.metadata.len() == 0
                &&& found.len() == 1 ==> result.metadata == seq![
                    ("secrets_redacted"@, text::decimal(found[0].1 as nat)),
                ]
                &&& found.len() == 2 && found[0].1 + found[1].1 <= u32::MAX ==> result.metadata
                    == seq![
                    ("secrets_redacted"@, text::decimal((found[0].1 + found[1].1) as nat)),
                ]
            },
            Err(error) => {
                ||| !valid_utf8(evaluation.body) && error
                    == "openshell/secrets requires UTF-8 request bodies"@
                ||| error == "openshell/secrets only supports config.secrets: redact in phase 1"@
            },
        },
        !valid_utf8(evaluation.body) ==> evaluated(evaluation) is Err,
        evaluation.config is None && valid_utf8(evaluation.body) ==> evaluated(evaluation) is Ok,
{
    reveal_with_fuel(secrets::total, 3);
}

// ---------------------------------------------------------------------------
// Values
// ---------------------------------------------------------------------------

/// An entry fails open only where it says so, and fails closed where it says nothing. No
/// other word is accepted.
pub proof fn law_named_error_policies(value: Seq<char>)
    ensures
        on_error_parsed(value) == Ok::<OnError, Seq<char>>(OnError::FailOpen) <==> value
            == "fail_open"@,
        on_error_parsed(value) == Ok::<OnError, Seq<char>>(OnError::FailClosed) <==> value.len()
            == 0 || value == "fail_closed"@,
        on_error_parsed(value) is Err <==> value.len() > 0 && value != "fail_open"@ && value
            != "fail_closed"@,
{
    reveal_strlit("");
    reveal_strlit("fail_open");
    reveal_strlit("fail_closed");
    assert("fail_open"@.len() == 9);
    assert("fail_closed"@.len() == 11);
    if value.len() == 0 {
        assert(value =~= ""@);
    }
}

/// Counts are added up, and stay at the greatest count where the sum is greater.
pub proof fn law_totals(counts: Seq<(Seq<char>, u32)>, more: (Seq<char>, u32))
    ensures
        secrets::total(Seq::empty()) == 0,
        secrets::total(counts.push(more)) == (if secrets::total(counts) + more.1 <= u32::MAX {
            secrets::total(counts) + more.1
        } else {
            u32::MAX as int
        }),
{
    assert(counts.push(more).drop_last() =~= counts);
}

/// Every kind that was counted is a finding, with its count.
pub proof fn law_findings_of_secrets(counts: Seq<(Seq<char>, u32)>, i: int)
    requires
        0 <= i < counts.len(),
    ensures
        secrets::findings_of(counts).len() == counts.len(),
        secrets::findings_of(counts)[i].finding_type == "secret."@ + counts[i].0,
        secrets::findings_of(counts)[i].count == counts[i].1,
        secrets::findings_of(counts)[i].severity == "medium"@,
        secrets::findings_of(counts)[i].confidence == "medium"@,
{
}

/// The built-in middleware is asked about requests before credentials are added to them.
pub proof fn law_built_in_bindings()
    ensures
        builtin_bindings().len() == 1,
        builtin_bindings()[0].id == "openshell/secrets"@,
        builtin_bindings()[0].operation == "HttpRequest"@,
        builtin_bindings()[0].phase == "pre_credentials"@,
{
}

} // verus!
