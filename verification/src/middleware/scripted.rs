//! A middleware that does what a request's body asks for, to test the others'
//! environment.

use crate::middleware::{
    Decision, Finding, FindingView, HttpRequestResult, ResultView, TextMap, API_VERSION,
    HTTP_REQUEST_OPERATION, PRE_CREDENTIALS_PHASE,
};
use crate::ordered;
use crate::outcome::shown;
use crate::proto_struct::{FieldsView, Struct};
use crate::status::{status, Code, Status, StatusView};
use crate::text;
use vstd::prelude::*;
use vstd::string::StrSliceExecFns;
use vstd::utf8::encode_utf8;

verus! {

/// The name of the middleware's service.
pub const SERVICE_NAME: &'static str = "openshell-e2e-middleware-fixture";

/// The binding of the middleware.
pub const BINDING_ID: &'static str = "e2e/scripted";

/// The longest body that the middleware takes.
pub const MAX_BODY_BYTES: usize = 4096;

/// The member of a body that says what to do.
pub const ACTION_MEMBER: &'static str = "_e2e_action";

/// An operation that the middleware is bound to, with the longest body that it takes.
#[derive(Debug, Clone, PartialEq, Eq)]
pub struct ScriptedBinding {
    pub id: String,
    pub operation: String,
    pub phase: String,
    pub max_body_bytes: u64,
}

/// The content of a binding.
pub struct BindingView {
    pub id: Seq<char>,
    pub operation: Seq<char>,
    pub phase: Seq<char>,
    pub max_body_bytes: u64,
}

impl DeepView for ScriptedBinding {
    type V = BindingView;

    open spec fn deep_view(&self) -> BindingView {
        BindingView {
            id: self.id@,
            operation: self.operation@,
            phase: self.phase@,
            max_body_bytes: self.max_body_bytes,
        }
    }
}

/// What the middleware's service offers.
#[derive(Debug, Clone, PartialEq, Eq)]
pub struct ScriptedManifest {
    pub api_version: String,
    pub name: String,
    pub service_version: String,
    pub bindings: Vec<ScriptedBinding>,
}

/// The content of a manifest.
#[verifier::ext_equal]
pub struct ManifestView {
    pub api_version: Seq<char>,
    pub name: Seq<char>,
    pub service_version: Seq<char>,
    pub bindings: Seq<BindingView>,
}

impl DeepView for ScriptedManifest {
    type V = ManifestView;

    open spec fn deep_view(&self) -> ManifestView {
        ManifestView {
            api_version: self.api_version@,
            name: self.name@,
            service_version: self.service_version@,
            bindings: self.bindings.deep_view(),
        }
    }
}

/// What a given version of the middleware's service offers.
pub open spec fn offered(service_version: Seq<char>) -> ManifestView {
    ManifestView {
        api_version: API_VERSION@,
        name: SERVICE_NAME@,
        service_version,
        bindings: seq![
            BindingView {
                id: BINDING_ID@,
                operation: HTTP_REQUEST_OPERATION@,
                phase: PRE_CREDENTIALS_PHASE@,
                max_body_bytes: MAX_BODY_BYTES as u64,
            },
        ],
    }
}

/// What a given version of the middleware's service offers.
pub fn describe(service_version: &str) -> (r: ScriptedManifest)
    ensures
        r.deep_view() == offered(service_version@),
{
    let mut bindings: Vec<ScriptedBinding> = Vec::new();
    bindings.push(
        ScriptedBinding {
            id: BINDING_ID.to_owned(),
            operation: HTTP_REQUEST_OPERATION.to_owned(),
            phase: PRE_CREDENTIALS_PHASE.to_owned(),
            max_body_bytes: MAX_BODY_BYTES as u64,
        },
    );
    assert(bindings.deep_view() =~= offered(service_version@).bindings);
    ScriptedManifest {
        api_version: API_VERSION.to_owned(),
        name: SERVICE_NAME.to_owned(),
        service_version: service_version.to_owned(),
        bindings,
    }
}

/// The text under a key of the JSON object that bytes encode, where they encode
/// one and it has such a text.
pub uninterp spec fn json_text_member(bytes: Seq<u8>, key: Seq<char>) -> Option<Seq<char>>;

/// `serde_json::from_slice`: the text under a key of the JSON object that bytes
/// encode. Claims only that it depends on the bytes and the key.
#[verifier::external_body]
fn text_member(bytes: &Vec<u8>, key: &str) -> (r: Option<String>)
    ensures
        r.deep_view() == json_text_member(bytes@, key@),
{
    let value = serde_json::from_slice::<serde_json::Value>(bytes).ok()?;
    value.get(key).and_then(serde_json::Value::as_str).map(str::to_owned)
}

/// What the middleware does with a request.
#[derive(Debug, Clone, PartialEq, Eq)]
pub enum ScriptedReply {
    /// It answers.
    Answer(HttpRequestResult),
    /// It answers after the caller's deadline.
    LateAnswer(HttpRequestResult),
    /// It fails.
    Failure(Status),
}

/// The content of what the middleware does.
pub enum ReplyView {
    Answer(ResultView),
    LateAnswer(ResultView),
    Failure(StatusView),
}

impl DeepView for ScriptedReply {
    type V = ReplyView;

    open spec fn deep_view(&self) -> ReplyView {
        match self {
            ScriptedReply::Answer(result) => ReplyView::Answer(result.deep_view()),
            ScriptedReply::LateAnswer(result) => ReplyView::LateAnswer(result.deep_view()),
            ScriptedReply::Failure(status) => ReplyView::Failure(status.deep_view()),
        }
    }
}

/// An answer that only decides.
pub open spec fn decided(decision: Decision) -> ResultView {
    ResultView {
        decision,
        reason: Seq::empty(),
        body: Seq::empty(),
        has_body: false,
        add_headers: Seq::empty(),
        findings: Seq::empty(),
        metadata: Seq::empty(),
    }
}

/// What the middleware does for an action.
pub open spec fn reply_to(action: Option<Seq<char>>) -> ReplyView {
    match action {
        None => ReplyView::Answer(decided(Decision::Allow)),
        Some(name) => if name == "deny"@ {
            ReplyView::Answer(
                ResultView { reason: "blocked by e2e fixture"@, ..decided(Decision::Deny) },
            )
        } else if name == "redact"@ {
            ReplyView::Answer(
                ResultView {
                    body: encode_utf8("{\"payload\":\"[REDACTED]\"}"@),
                    has_body: true,
                    add_headers: seq![("x-openshell-middleware-fixture"@, "redacted"@)],
                    ..decided(Decision::Allow)
                },
            )
        } else if name == "error"@ {
            ReplyView::Failure(status(Code::Unavailable, "fixture evaluation failed"@))
        } else if name == "timeout"@ {
            ReplyView::LateAnswer(decided(Decision::Allow))
        } else if name == "invalid"@ {
            ReplyView::Answer(decided(Decision::Unspecified))
        } else if name == "oversize"@ {
            ReplyView::Answer(
                ResultView {
                    body: Seq::new((MAX_BODY_BYTES + 1) as nat, |i: int| 120u8),
                    has_body: true,
                    ..decided(Decision::Allow)
                },
            )
        } else {
            ReplyView::Answer(decided(Decision::Allow))
        },
    }
}

fn answer(decision: Decision) -> (r: HttpRequestResult)
    ensures
        r.deep_view() == decided(decision),
{
    let reason = String::new();
    let add_headers: Vec<(String, String)> = Vec::new();
    let findings: Vec<Finding> = Vec::new();
    let metadata: Vec<(String, String)> = Vec::new();
    proof {
        assert(reason@ =~= Seq::empty());
        assert(add_headers.deep_view() =~= TextMap::empty());
        assert(findings.deep_view() =~= Seq::<FindingView>::empty());
        assert(metadata.deep_view() =~= TextMap::empty());
    }
    HttpRequestResult {
        decision,
        reason,
        body: Vec::new(),
        has_body: false,
        add_headers,
        findings,
        metadata,
    }
}

fn oversized_body() -> (r: Vec<u8>)
    ensures
        r@ == Seq::new((MAX_BODY_BYTES + 1) as nat, |i: int| 120u8),
{
    let mut body: Vec<u8> = Vec::new();
    while body.len() < MAX_BODY_BYTES + 1
        invariant
            body.len() <= MAX_BODY_BYTES + 1,
            forall|j: int| 0 <= j < body.len() ==> #[trigger] body@[j] == 120u8,
        decreases MAX_BODY_BYTES + 1 - body.len(),
    {
        body.push(120);
    }
    assert(body@ =~= Seq::new((MAX_BODY_BYTES + 1) as nat, |i: int| 120u8));
    body
}

/// What the middleware does for an action.
pub fn scripted_reply(action: Option<&str>) -> (r: ScriptedReply)
    ensures
        r.deep_view() == reply_to(action.deep_view()),
{
    let name = match action {
        Some(name) => name,
        None => {
            return ScriptedReply::Answer(answer(Decision::Allow));
        },
    };
    if text::same(name, "deny") {
        let mut result = answer(Decision::Deny);
        result.reason = "blocked by e2e fixture".to_owned();
        ScriptedReply::Answer(result)
    } else if text::same(name, "redact") {
        let mut result = answer(Decision::Allow);
        result.body = "{\"payload\":\"[REDACTED]\"}".as_bytes_vec();
        result.has_body = true;
        let mut headers: Vec<(String, String)> = Vec::new();
        headers.push(("x-openshell-middleware-fixture".to_owned(), "redacted".to_owned()));
        assert(headers.deep_view() =~= seq![("x-openshell-middleware-fixture"@, "redacted"@)]);
        result.add_headers = headers;
        ScriptedReply::Answer(result)
    } else if text::same(name, "error") {
        ScriptedReply::Failure(
            Status::new(Code::Unavailable, "fixture evaluation failed".to_owned()),
        )
    } else if text::same(name, "timeout") {
        ScriptedReply::LateAnswer(answer(Decision::Allow))
    } else if text::same(name, "invalid") {
        ScriptedReply::Answer(answer(Decision::Unspecified))
    } else if text::same(name, "oversize") {
        let mut result = answer(Decision::Allow);
        result.body = oversized_body();
        result.has_body = true;
        ScriptedReply::Answer(result)
    } else {
        ScriptedReply::Answer(answer(Decision::Allow))
    }
}

/// What the middleware does with a request that has a given body.
pub fn evaluate_http_request(body: &Vec<u8>) -> (r: ScriptedReply)
    ensures
        r.deep_view() == reply_to(json_text_member(body@, ACTION_MEMBER@)),
{
    match text_member(body, ACTION_MEMBER) {
        Some(action) => scripted_reply(Some(action.as_str())),
        None => scripted_reply(None),
    }
}

/// What is said of a configuration of the middleware.
pub open spec fn config_verdict(config: FieldsView) -> Result<(), Seq<char>> {
    if ordered::lookup(config, "reject_fixture_config"@) is Some {
        Err("fixture configuration rejected"@)
    } else {
        Ok(())
    }
}

/// Checks a configuration of the middleware.
pub fn validate_config(config: &Struct) -> (r: Result<(), String>)
    ensures
        shown(r) == config_verdict(config.deep_view()),
{
    broadcast use crate::proto_struct::group_value_views;

    if ordered::get(&config.fields, "reject_fixture_config").is_some() {
        Err("fixture configuration rejected".to_owned())
    } else {
        Ok(())
    }
}

/// The middleware denies only where it is asked to.
pub proof fn law_denies_only_when_asked(action: Option<Seq<char>>)
    ensures
        (reply_to(action) matches ReplyView::Answer(result) && result.decision == Decision::Deny)
            <==> action == Some("deny"@),
{
    reveal_strlit("deny");
    reveal_strlit("redact");
    reveal_strlit("error");
    reveal_strlit("timeout");
    reveal_strlit("invalid");
    reveal_strlit("oversize");
}

} // verus!
