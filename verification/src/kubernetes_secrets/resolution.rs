//! Resolution of many credentials at once.

use crate::kubernetes_secrets::{
    data_view, invalid, kube_error_to_status, read_problem, resolved, value_of, CredentialHandle,
    HandleView, KubeFailure, KubeFailureView, KubernetesSecretReference,
    KubernetesSecretsCredentialDriver, ReferenceView,
};
use crate::outcome::shown;
use crate::status::{Status, StatusView};
use vstd::prelude::*;
use vstd::utf8::encode_utf8;

verus! {

/// A request for a credential.
#[derive(Debug, Clone, PartialEq, Eq)]
pub struct ResolveCredentialRequest {
    pub request_id: String,
    pub credential_key: String,
    pub handle: Option<CredentialHandle>,
}

/// The content of a request for a credential.
#[verifier::ext_equal]
pub struct RequestView {
    pub request_id: Seq<char>,
    pub credential_key: Seq<char>,
    pub handle: Option<HandleView>,
}

impl DeepView for ResolveCredentialRequest {
    type V = RequestView;

    open spec fn deep_view(&self) -> RequestView {
        RequestView {
            request_id: self.request_id@,
            credential_key: self.credential_key@,
            handle: self.handle.deep_view(),
        }
    }
}

/// A credential that was resolved.
#[derive(Debug, Clone, PartialEq, Eq)]
pub struct ResolvedCredential {
    pub request_id: String,
    pub value: String,
    pub expires_at_ms: i64,
}

/// The content of a credential that was resolved, with the value as it is encoded.
#[verifier::ext_equal]
pub struct ResolvedView {
    pub request_id: Seq<char>,
    pub value: Seq<u8>,
    pub expires_at_ms: i64,
}

impl DeepView for ResolvedCredential {
    type V = ResolvedView;

    open spec fn deep_view(&self) -> ResolvedView {
        ResolvedView {
            request_id: self.request_id@,
            value: encode_utf8(self.value@),
            expires_at_ms: self.expires_at_ms,
        }
    }
}

/// What reading a Secret gave: its data, or a failure.
pub type Fetched = Result<Option<Vec<(String, Vec<u8>)>>, KubeFailure>;

/// The content of what reading a Secret gave.
pub type FetchedView = Result<Option<Seq<(Seq<char>, Seq<u8>)>>, KubeFailureView>;

/// The content of what reading a Secret gave.
pub open spec fn fetched_view(fetched: Fetched) -> FetchedView {
    match fetched {
        Ok(data) => Ok(data_view(data)),
        Err(failure) => Err(failure.deep_view()),
    }
}

/// The content of what reading Secrets gave.
pub open spec fn all_fetched(fetched: Seq<Fetched>) -> Seq<FetchedView> {
    Seq::new(fetched.len(), |i: int| fetched_view(fetched[i]))
}

/// Where the credential of a request is.
pub open spec fn reference_of(request: RequestView) -> Result<ReferenceView, StatusView> {
    match request.handle {
        None => Err(
            invalid(
                "kubernetes-secrets credential request '"@ + request.request_id
                    + "' is missing handle"@,
            ),
        ),
        Some(handle) => resolved(handle.handle, request.credential_key),
    }
}

/// What a request is answered, given what reading the Secret gave.
pub open spec fn resolution(request: RequestView, fetched: FetchedView) -> Result<
    ResolvedView,
    StatusView,
> {
    match reference_of(request) {
        Err(error) => Err(error),
        Ok(reference) => match fetched {
            Err(failure) => Err(
                read_problem(reference.namespace, reference.secret_name, failure),
            ),
            Ok(data) => match value_of(reference, data) {
                Err(error) => Err(error),
                Ok(value) => Ok(
                    ResolvedView { request_id: request.request_id, value, expires_at_ms: 0 },
                ),
            },
        },
    }
}

/// What the first `n` requests are answered: a credential for each of them, or the
/// first problem.
pub open spec fn resolutions(
    requests: Seq<RequestView>,
    fetched: Seq<FetchedView>,
    n: int,
) -> Result<Seq<ResolvedView>, StatusView>
    decreases n,
{
    if n <= 0 {
        Ok(Seq::empty())
    } else {
        match resolutions(requests, fetched, n - 1) {
            Err(error) => Err(error),
            Ok(done) => match resolution(requests[n - 1], fetched[n - 1]) {
                Err(error) => Err(error),
                Ok(credential) => Ok(done.push(credential)),
            },
        }
    }
}

proof fn lemma_problem_stays(
    requests: Seq<RequestView>,
    fetched: Seq<FetchedView>,
    i: int,
    n: int,
)
    requires
        i <= n,
        resolutions(requests, fetched, i) is Err,
    ensures
        resolutions(requests, fetched, n) == resolutions(requests, fetched, i),
    decreases n - i,
{
    if i < n && n > 0 {
        lemma_problem_stays(requests, fetched, i, n - 1);
    }
}

impl KubernetesSecretsCredentialDriver {
    /// Where the credential of a request is.
    pub fn credential_reference(request: &ResolveCredentialRequest) -> (r: Result<
        KubernetesSecretReference,
        Status,
    >)
        ensures
            shown(r) == reference_of(request.deep_view()),
    {
        match &request.handle {
            Some(handle) => KubernetesSecretsCredentialDriver::resolve_handle(
                handle,
                request.credential_key.as_str(),
            ),
            None => match KubernetesSecretsCredentialDriver::handle_from_request(
                request.request_id.as_str(),
                None,
            ) {
                Ok(handle) => KubernetesSecretsCredentialDriver::resolve_handle(
                    &handle,
                    request.credential_key.as_str(),
                ),
                Err(error) => Err(error),
            },
        }
    }

    /// What a request is answered, given what reading the Secret gave.
    pub fn resolve_credential(request: &ResolveCredentialRequest, fetched: &Fetched) -> (r: Result<
        ResolvedCredential,
        Status,
    >)
        ensures
            shown(r) == resolution(request.deep_view(), fetched_view(*fetched)),
    {
        let reference = match KubernetesSecretsCredentialDriver::credential_reference(request) {
            Ok(reference) => reference,
            Err(error) => {
                return Err(error);
            },
        };
        let data = match fetched {
            Ok(data) => data,
            Err(failure) => {
                return Err(
                    kube_error_to_status(
                        reference.namespace.as_str(),
                        reference.secret_name.as_str(),
                        failure,
                    ),
                );
            },
        };
        match KubernetesSecretsCredentialDriver::resolve_secret_value(&reference, data) {
            Ok(value) => Ok(
                ResolvedCredential {
                    request_id: request.request_id.clone(),
                    value,
                    expires_at_ms: 0,
                },
            ),
            Err(error) => Err(error),
        }
    }

    /// What requests are answered, given what reading the Secret of each gave: a
    /// credential for each of them, or the first problem.
    pub fn resolve_credentials(
        requests: &Vec<ResolveCredentialRequest>,
        fetched: &Vec<Fetched>,
    ) -> (r: Result<Vec<ResolvedCredential>, Status>)
        requires
            fetched.len() == requests.len(),
        ensures
            shown(r) == resolutions(
                requests.deep_view(),
                all_fetched(fetched@),
                requests@.len() as int,
            ),
    {
        let ghost asked = requests.deep_view();
        let ghost given = all_fetched(fetched@);
        let mut responses: Vec<ResolvedCredential> = Vec::new();
        let mut i: usize = 0;
        assert(responses.deep_view() =~= Seq::empty());
        while i < requests.len()
            invariant
                i <= requests.len(),
                fetched.len() == requests.len(),
                asked == requests.deep_view(),
                given == all_fetched(fetched@),
                resolutions(asked, given, i as int) == Ok::<Seq<ResolvedView>, StatusView>(
                    responses.deep_view(),
                ),
            decreases requests.len() - i,
        {
            let ghost before = responses.deep_view();
            assert(asked[i as int] == requests@[i as int].deep_view());
            match KubernetesSecretsCredentialDriver::resolve_credential(&requests[i], &fetched[i]) {
                Ok(credential) => {
                    responses.push(credential);
                    assert(responses.deep_view() =~= before.push(credential.deep_view()));
                },
                Err(error) => {
                    proof {
                        lemma_problem_stays(asked, given, i + 1, requests@.len() as int);
                    }
                    return Err(error);
                },
            }
            i += 1;
        }
        Ok(responses)
    }
}

/// Every request is answered in its turn, and each answer is what its own Secret
/// gave.
pub proof fn law_credentials_answer_requests(
    requests: Seq<RequestView>,
    fetched: Seq<FetchedView>,
    n: int,
    i: int,
)
    requires
        resolutions(requests, fetched, n) is Ok,
        0 <= i < n,
    ensures
        resolutions(requests, fetched, n)->Ok_0.len() == n,
        resolution(requests[i], fetched[i]) == Ok::<ResolvedView, StatusView>(
            resolutions(requests, fetched, n)->Ok_0[i],
        ),
    decreases n,
{
    if i < n - 1 {
        law_credentials_answer_requests(requests, fetched, n - 1, i);
    } else if n > 1 {
        law_credentials_answer_requests(requests, fetched, n - 1, n - 2);
    } else {
        reveal_with_fuel(resolutions, 2);
    }
}

} // verus!
