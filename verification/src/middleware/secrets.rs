//! The built-in middleware that takes common secrets out of request bodies.

use crate::digest;
use crate::middleware::config::{config_problem, find_problem};
use crate::middleware::{
    Decision, EvaluationView, Finding, FindingView, HttpRequestEvaluation, HttpRequestResult,
    ResultView,
};
use crate::outcome::shown;
use crate::proto_struct::{FieldsView, Struct};
use crate::text;
use crate::text::{cat2, cat4};
use regex::{Captures, Regex};
use vstd::prelude::*;
use vstd::string::StrSliceExecFns;
use vstd::utf8::{decode_utf8, encode_utf8, valid_utf8};

verus! {

/// Assignments to names that are used for secrets.
pub const KEYWORD_PATTERN: &'static str = "(?i)(api[_-]?key|access[_-]?token|secret|password)([\"']?\\s*[:=]\\s*[\"'])[^\"',\\s}]+([\"']?)";

/// Keys with the prefix of a known provider.
pub const OPENAI_PATTERN: &'static str = "(sk-[A-Za-z0-9_-]{16,})";

// ---------------------------------------------------------------------------
// Matches
// ---------------------------------------------------------------------------

/// One of the patterns of this middleware.
pub open spec fn is_secret_pattern(pattern: Seq<char>) -> bool {
    pattern == KEYWORD_PATTERN@ || pattern == OPENAI_PATTERN@
}

/// The successive non-overlapping matches of a pattern in a text, as
/// `regex::Regex::captures_iter` yields them: where each one starts and ends, and
/// its groups, the whole match first.
pub uninterp spec fn matches_in(pattern: Seq<char>, text: Seq<char>) -> Seq<
    (int, int, Seq<Seq<char>>),
>;

/// What stands in the place of a match: its groups around a mark where it has
/// them, else the mark alone.
pub open spec fn mark(groups: Seq<Seq<char>>) -> Seq<char> {
    if groups.len() >= 4 {
        groups[1] + groups[2] + "[REDACTED]"@ + groups[3]
    } else {
        "[REDACTED]"@
    }
}

/// The text from a place on, with each match replaced by its mark.
pub open spec fn marked(text: Seq<char>, matches: Seq<(int, int, Seq<Seq<char>>)>, from: int) -> Seq<
    char,
>
    decreases matches.len(),
{
    if matches.len() == 0 {
        text.subrange(from, text.len() as int)
    } else {
        text.subrange(from, matches[0].0) + mark(matches[0].2) + marked(
            text,
            matches.skip(1),
            matches[0].1,
        )
    }
}

/// What stands in the place of a match.
pub fn redaction(groups: &Vec<String>) -> (r: String)
    ensures
        r@ == mark(groups.deep_view()),
{
    if groups.len() >= 4 {
        proof {
            assert(groups.deep_view()[1] == groups@[1]@);
            assert(groups.deep_view()[2] == groups@[2]@);
            assert(groups.deep_view()[3] == groups@[3]@);
        }
        cat4(groups[1].as_str(), groups[2].as_str(), "[REDACTED]", groups[3].as_str())
    } else {
        "[REDACTED]".to_owned()
    }
}

/// `regex::Regex::find_iter`: how many successive non-overlapping matches a
/// pattern has in a text. The patterns of this module compile.
#[verifier::external_body]
fn count_matches(pattern: &str, text: &str) -> (r: usize)
    requires
        is_secret_pattern(pattern@),
    ensures
        r == matches_in(pattern@, text@).len(),
{
    Regex::new(pattern).unwrap().find_iter(text).count()
}

/// `regex::Regex::replace_all`: the text with every match of a pattern replaced
/// by what the closure makes of its groups, here its redaction. The patterns of
/// this module compile.
#[verifier::external_body]
fn replace_matches(pattern: &str, text: &str) -> (r: String)
    requires
        is_secret_pattern(pattern@),
    ensures
        r@ == marked(text@, matches_in(pattern@, text@), 0),
{
    Regex::new(pattern).unwrap().replace_all(
        text,
        |captures: &Captures<'_>| redaction(
            &captures.iter().map(|group| group.map_or("", |found| found.as_str()).to_owned()).collect(),
        ),
    ).into_owned()
}

// ---------------------------------------------------------------------------
// Redaction
// ---------------------------------------------------------------------------

/// The kinds of secrets, with the pattern of each.
pub open spec fn kinds() -> Seq<(Seq<char>, Seq<char>)> {
    seq![("keyword"@, KEYWORD_PATTERN@), ("openai"@, OPENAI_PATTERN@)]
}

/// The number of matches, as a count that a finding can hold.
pub open spec fn capped(n: nat) -> u32 {
    if n <= u32::MAX {
        n as u32
    } else {
        u32::MAX
    }
}

/// The text after the first `n` kinds of secrets were taken out of it.
pub open spec fn redacted(text: Seq<char>, n: nat) -> Seq<char>
    decreases n,
{
    if n == 0 {
        text
    } else {
        let before = redacted(text, (n - 1) as nat);
        marked(before, matches_in(kinds()[n - 1].1, before), 0)
    }
}

/// The kinds among the first `n` that matched, each with how often it did. Each
/// kind looks at the text that the ones before it left.
pub open spec fn counts(text: Seq<char>, n: nat) -> Seq<(Seq<char>, u32)>
    decreases n,
{
    if n == 0 {
        Seq::empty()
    } else {
        let before = counts(text, (n - 1) as nat);
        let found = capped(
            matches_in(kinds()[n - 1].1, redacted(text, (n - 1) as nat)).len(),
        );
        if found > 0 {
            before.push((kinds()[n - 1].0, found))
        } else {
            before
        }
    }
}

fn capped_count(n: usize) -> (r: u32)
    ensures
        r == capped(n as nat),
{
    if n <= u32::MAX as usize {
        n as u32
    } else {
        u32::MAX
    }
}

fn redact_kind(
    kind: &str,
    pattern: &str,
    text: &str,
    counts: &mut Vec<(String, u32)>,
) -> (r: String)
    requires
        is_secret_pattern(pattern@),
    ensures
        r@ == marked(text@, matches_in(pattern@, text@), 0),
        final(counts).deep_view() == ({
            let found = capped(matches_in(pattern@, text@).len());
            if found > 0 {
                old(counts).deep_view().push((kind@, found))
            } else {
                old(counts).deep_view()
            }
        }),
{
    let ghost before = counts.deep_view();
    let count = capped_count(count_matches(pattern, text));
    if count > 0 {
        counts.push((kind.to_owned(), count));
        proof {
            assert(counts.deep_view() =~= before.push((kind@, count)));
        }
    }
    replace_matches(pattern, text)
}

/// Takes every kind of secret out of a text: the text that is left, and how
/// often each kind that matched did.
pub fn redact_common_secrets(input: &str) -> (r: (String, Vec<(String, u32)>))
    ensures
        r.0@ == redacted(input@, 2),
        r.1.deep_view() == counts(input@, 2),
{
    let mut found: Vec<(String, u32)> = Vec::new();
    proof {
        reveal_with_fuel(redacted, 3);
        reveal_with_fuel(counts, 3);
        assert(found.deep_view() =~= Seq::<(Seq<char>, u32)>::empty());
    }
    let first = redact_kind("keyword", KEYWORD_PATTERN, input, &mut found);
    let second = redact_kind("openai", OPENAI_PATTERN, first.as_str(), &mut found);
    (second, found)
}

// ---------------------------------------------------------------------------
// Evaluation
// ---------------------------------------------------------------------------

/// The only mode is redaction: a configuration is accepted where policy admission
/// accepts it.
pub open spec fn config_verdict(config: FieldsView) -> Result<(), Seq<char>> {
    if config_problem(config) is None {
        Ok(())
    } else {
        Err("openshell/secrets only supports config.secrets: redact in phase 1"@)
    }
}

/// The sum of counts, up to the greatest one that a count can hold.
pub open spec fn total(counts: Seq<(Seq<char>, u32)>) -> u32
    decreases counts.len(),
{
    if counts.len() == 0 {
        0
    } else {
        capped((total(counts.drop_last()) + counts.last().1) as nat)
    }
}

/// One finding for each kind that matched.
pub open spec fn findings_of(counts: Seq<(Seq<char>, u32)>) -> Seq<FindingView> {
    Seq::new(
        counts.len(),
        |i: int|
            FindingView {
                finding_type: "secret."@ + counts[i].0,
                label: counts[i].0 + " secret pattern"@,
                count: counts[i].1,
                confidence: "medium"@,
                severity: "medium"@,
            },
    )
}

/// The answer for a body and the kinds that matched in it.
pub open spec fn answer_for(body: Seq<u8>, counts: Seq<(Seq<char>, u32)>) -> ResultView {
    ResultView {
        decision: Decision::Allow,
        reason: Seq::empty(),
        body,
        has_body: counts.len() > 0,
        add_headers: Seq::empty(),
        findings: findings_of(counts),
        metadata: if counts.len() > 0 {
            seq![("secrets_redacted"@, text::decimal(total(counts) as nat))]
        } else {
            Seq::empty()
        },
    }
}

/// The answer to an evaluation.
pub open spec fn evaluated(evaluation: EvaluationView) -> Result<ResultView, Seq<char>> {
    let config = match evaluation.config {
        Some(fields) => fields,
        None => FieldsView::empty(),
    };
    match config_verdict(config) {
        Err(error) => Err(error),
        Ok(_) => if !valid_utf8(evaluation.body) {
            Err("openshell/secrets requires UTF-8 request bodies"@)
        } else {
            let text = decode_utf8(evaluation.body);
            Ok(answer_for(encode_utf8(redacted(text, 2)), counts(text, 2)))
        },
    }
}

/// Checks the configuration of this middleware.
pub fn validate_config(config: &Struct) -> (r: Result<(), String>)
    ensures
        shown(r) == config_verdict(config.deep_view()),
{
    if find_problem(config).is_none() {
        Ok(())
    } else {
        Err("openshell/secrets only supports config.secrets: redact in phase 1".to_owned())
    }
}

fn total_of(counts: &Vec<(String, u32)>) -> (r: u32)
    ensures
        r == total(counts.deep_view()),
{
    let ghost list = counts.deep_view();
    let mut sum: u32 = 0;
    let mut i: usize = 0;
    proof {
        assert(list.take(0) =~= Seq::empty());
    }
    while i < counts.len()
        invariant
            i <= counts.len(),
            list == counts.deep_view(),
            sum == total(list.take(i as int)),
        decreases counts.len() - i,
    {
        proof {
            assert(list.take(i + 1).drop_last() =~= list.take(i as int));
            assert(list.take(i + 1).last() == (counts@[i as int].0@, counts@[i as int].1));
        }
        sum = sum.saturating_add(counts[i].1);
        i += 1;
    }
    proof {
        assert(list.take(i as int) =~= list);
    }
    sum
}

/// The answer for a body and the kinds of secrets that matched in it.
pub fn result_for(body: Vec<u8>, counts: &Vec<(String, u32)>) -> (r: HttpRequestResult)
    ensures
        r.deep_view() == answer_for(body@, counts.deep_view()),
{
    let ghost list = counts.deep_view();
    let mut findings: Vec<Finding> = Vec::new();
    let mut i: usize = 0;
    while i < counts.len()
        invariant
            i <= counts.len(),
            findings.len() == i,
            list == counts.deep_view(),
            forall|j: int| 0 <= j < i ==> #[trigger] findings.deep_view()[j] == findings_of(list)[j],
        decreases counts.len() - i,
    {
        let ghost before = findings.deep_view();
        let kind = counts[i].0.as_str();
        assert(list[i as int] == (kind@, counts@[i as int].1));
        findings.push(
            Finding {
                finding_type: cat2("secret.", kind),
                label: cat2(kind, " secret pattern"),
                count: counts[i].1,
                confidence: "medium".to_owned(),
                severity: "medium".to_owned(),
            },
        );
        proof {
            assert forall|j: int| 0 <= j < i + 1 implies #[trigger] findings.deep_view()[j]
                == findings_of(list)[j] by {
                if j < i {
                    assert(findings.deep_view()[j] == before[j]);
                }
            }
        }
        i += 1;
    }
    let mut metadata: Vec<(String, String)> = Vec::new();
    if counts.len() > 0 {
        let sum = text::decimal_of(total_of(counts) as u64);
        metadata.push(("secrets_redacted".to_owned(), sum));
    }
    let r = HttpRequestResult {
        decision: Decision::Allow,
        reason: String::new(),
        body,
        has_body: counts.len() > 0,
        add_headers: Vec::new(),
        findings,
        metadata,
    };
    proof {
        let expected = answer_for(body@, list);
        assert(r.reason@ =~= expected.reason);
        assert(r.add_headers.deep_view() =~= expected.add_headers);
        assert(r.findings.deep_view() =~= expected.findings);
        assert(r.metadata.deep_view() =~= expected.metadata);
    }
    r
}

/// Evaluates a request: its body without secrets, and what was found in it.
pub fn evaluate_http_request(evaluation: &HttpRequestEvaluation) -> (r: Result<
    HttpRequestResult,
    String,
>)
    ensures
        shown(r) == evaluated(evaluation.deep_view()),
{
    let verdict = match &evaluation.config {
        Some(config) => validate_config(config),
        None => validate_config(&Struct::default()),
    };
    match verdict {
        Ok(_) => {},
        Err(error) => {
            return Err(error);
        },
    }
    let body = match digest::utf8_text(&evaluation.body) {
        Some(body) => body,
        None => {
            return Err("openshell/secrets requires UTF-8 request bodies".to_owned());
        },
    };
    proof {
        vstd::utf8::encode_utf8_decode_utf8(body@);
    }
    let (output, found) = redact_common_secrets(body.as_str());
    Ok(result_for(output.as_str().as_bytes_vec(), &found))
}

// ---------------------------------------------------------------------------
// Laws
// ---------------------------------------------------------------------------

/// A text in which no pattern matches is left as it is, and nothing is reported.
pub proof fn law_clean_text_is_kept(text: Seq<char>)
    requires
        matches_in(KEYWORD_PATTERN@, text).len() == 0,
        matches_in(OPENAI_PATTERN@, text).len() == 0,
    ensures
        redacted(text, 2) == text,
        counts(text, 2).len() == 0,
{
    reveal_with_fuel(redacted, 3);
    reveal_with_fuel(counts, 3);
    assert(text.subrange(0, text.len() as int) =~= text);
}

/// The body counts as changed exactly where something is reported.
pub proof fn law_changed_body_is_reported(body: Seq<u8>, counts: Seq<(Seq<char>, u32)>)
    ensures
        answer_for(body, counts).has_body <==> answer_for(body, counts).findings.len() > 0,
        answer_for(body, counts).has_body <==> answer_for(body, counts).metadata.len() > 0,
        answer_for(body, counts).decision == Decision::Allow,
{
}

} // verus!
