//! The middlewares that are built into the supervisor.

use crate::middleware::config::builtin_verdict;
use crate::middleware::secrets;
use crate::middleware::{
    EvaluationView, HttpRequestEvaluation, HttpRequestResult, ResultView, API_VERSION,
    BUILTIN_SECRETS, HTTP_REQUEST_OPERATION, PRE_CREDENTIALS_PHASE,
};
use crate::outcome::shown;
use crate::proto_struct::{FieldsView, Struct};
use crate::text;
use crate::text::cat3;
use vstd::prelude::*;

verus! {

/// An operation that a middleware can be bound to.
#[derive(Debug, Clone, PartialEq, Eq)]
pub struct MiddlewareBinding {
    pub id: String,
    pub operation: String,
    pub phase: String,
}

/// The content of a binding.
pub struct BindingView {
    pub id: Seq<char>,
    pub operation: Seq<char>,
    pub phase: Seq<char>,
}

impl DeepView for MiddlewareBinding {
    type V = BindingView;

    open spec fn deep_view(&self) -> BindingView {
        BindingView { id: self.id@, operation: self.operation@, phase: self.phase@ }
    }
}

/// What a middleware service offers.
#[derive(Debug, Clone, PartialEq, Eq)]
pub struct MiddlewareManifest {
    pub api_version: String,
    pub bindings: Vec<MiddlewareBinding>,
}

/// The bindings of the built-in middlewares.
pub open spec fn builtin_bindings() -> Seq<BindingView> {
    seq![
        BindingView {
            id: BUILTIN_SECRETS@,
            operation: HTTP_REQUEST_OPERATION@,
            phase: PRE_CREDENTIALS_PHASE@,
        },
    ]
}

/// The bindings of the built-in middlewares.
pub fn describe() -> (r: Vec<MiddlewareBinding>)
    ensures
        r.deep_view() == builtin_bindings(),
{
    let mut bindings: Vec<MiddlewareBinding> = Vec::new();
    bindings.push(
        MiddlewareBinding {
            id: BUILTIN_SECRETS.to_owned(),
            operation: HTTP_REQUEST_OPERATION.to_owned(),
            phase: PRE_CREDENTIALS_PHASE.to_owned(),
        },
    );
    assert(bindings.deep_view() =~= builtin_bindings());
    bindings
}

/// What the built-in middlewares offer.
pub fn manifest() -> (r: MiddlewareManifest)
    ensures
        r.api_version@ == API_VERSION@,
        r.bindings.deep_view() == builtin_bindings(),
{
    MiddlewareManifest { api_version: API_VERSION.to_owned(), bindings: describe() }
}

/// What is said of an implementation that is not built in.
pub open spec fn unavailable(implementation: Seq<char>) -> Seq<char> {
    "middleware implementation '"@ + implementation + "' is not available in phase 1"@
}

/// What is said of the configuration of a built-in middleware.
pub open spec fn config_verdict(implementation: Seq<char>, config: FieldsView) -> Result<
    (),
    Seq<char>,
> {
    if implementation == BUILTIN_SECRETS@ {
        secrets::config_verdict(config)
    } else {
        Err(unavailable(implementation))
    }
}

/// What the built-in middlewares answer to an evaluation.
pub open spec fn evaluated(evaluation: EvaluationView) -> Result<ResultView, Seq<char>> {
    if evaluation.binding_id == BUILTIN_SECRETS@ {
        secrets::evaluated(evaluation)
    } else {
        Err(unavailable(evaluation.binding_id))
    }
}

/// Checks the configuration of a built-in middleware, as policy admission does
/// before a configuration can reach the request path.
pub fn validate_config(binding_id: &str, config: &Struct) -> (r: Result<(), String>)
    ensures
        shown(r) == config_verdict(binding_id@, config.deep_view()),
{
    if text::same(binding_id, BUILTIN_SECRETS) {
        secrets::validate_config(config)
    } else {
        Err(
            cat3(
                "middleware implementation '",
                binding_id,
                "' is not available in phase 1",
            ),
        )
    }
}

/// Evaluates a request with a built-in middleware.
pub fn evaluate_http_request(evaluation: &HttpRequestEvaluation) -> (r: Result<
    HttpRequestResult,
    String,
>)
    ensures
        shown(r) == evaluated(evaluation.deep_view()),
{
    if text::same(evaluation.binding_id.as_str(), BUILTIN_SECRETS) {
        secrets::evaluate_http_request(evaluation)
    } else {
        Err(
            cat3(
                "middleware implementation '",
                evaluation.binding_id.as_str(),
                "' is not available in phase 1",
            ),
        )
    }
}

/// One validation serves policy admission and the request path: a configuration that
/// the one accepts, the other accepts too.
pub proof fn law_admission_and_requests_agree(implementation: Seq<char>, config: FieldsView)
    ensures
        config_verdict(implementation, config) is Ok <==> builtin_verdict(
            implementation,
            config,
        ) is Ok,
{
}

} // verus!
