//! The control channel between a network sidecar and the process supervisor:
//! messages, the state that a sidecar publishes, and what each side makes of what
//! it receives.
//!
//! Policies travel as encoded messages.

use crate::outcome::shown;
use crate::text::cat2;
use vstd::prelude::*;

verus! {

/// Pairs of texts.
pub type TextMap = Seq<(Seq<char>, Seq<char>)>;

/// What a sidecar tells a supervisor when it connects.
#[derive(Debug, Clone, PartialEq, Eq)]
pub struct BootstrapData {
    pub policy_proto: Vec<u8>,
    pub provider_env_revision: u64,
    pub provider_child_env: Vec<(String, String)>,
    pub proxy_ca_cert_path: Option<String>,
    pub proxy_ca_bundle_path: Option<String>,
}

/// The content of what a sidecar tells.
#[verifier::ext_equal]
pub struct BootstrapView {
    pub policy_proto: Seq<u8>,
    pub provider_env_revision: u64,
    pub provider_child_env: TextMap,
    pub proxy_ca_cert_path: Option<Seq<char>>,
    pub proxy_ca_bundle_path: Option<Seq<char>>,
}

impl DeepView for BootstrapData {
    type V = BootstrapView;

    open spec fn deep_view(&self) -> BootstrapView {
        BootstrapView {
            policy_proto: self.policy_proto@,
            provider_env_revision: self.provider_env_revision,
            provider_child_env: self.provider_child_env.deep_view(),
            proxy_ca_cert_path: self.proxy_ca_cert_path.deep_view(),
            proxy_ca_bundle_path: self.proxy_ca_bundle_path.deep_view(),
        }
    }
}

/// A process that a supervisor started. A session is to be started for it, unless
/// it is the supervisor itself.
#[derive(Debug, Clone, PartialEq, Eq)]
pub struct EntrypointStarted {
    pub pid: u32,
    pub ssh_socket_path: String,
    pub start_session: bool,
}

/// The content of a started process.
pub struct EntrypointView {
    pub pid: u32,
    pub ssh_socket_path: Seq<char>,
    pub start_session: bool,
}

impl DeepView for EntrypointStarted {
    type V = EntrypointView;

    open spec fn deep_view(&self) -> EntrypointView {
        EntrypointView {
            pid: self.pid,
            ssh_socket_path: self.ssh_socket_path@,
            start_session: self.start_session,
        }
    }
}

/// A change that a supervisor learns of.
#[derive(Debug, Clone, PartialEq, Eq)]
pub enum ControlUpdate {
    ProviderEnvUpdated { revision: u64, provider_child_env: Vec<(String, String)> },
    PolicyUpdated { policy_proto: Vec<u8>, policy_hash: String, config_revision: u64 },
}

/// The content of a change.
pub enum UpdateView {
    ProviderEnvUpdated { revision: u64, provider_child_env: TextMap },
    PolicyUpdated { policy_proto: Seq<u8>, policy_hash: Seq<char>, config_revision: u64 },
}

impl DeepView for ControlUpdate {
    type V = UpdateView;

    open spec fn deep_view(&self) -> UpdateView {
        match self {
            ControlUpdate::ProviderEnvUpdated {
                revision,
                provider_child_env,
            } => UpdateView::ProviderEnvUpdated {
                revision: *revision,
                provider_child_env: provider_child_env.deep_view(),
            },
            ControlUpdate::PolicyUpdated {
                policy_proto,
                policy_hash,
                config_revision,
            } => UpdateView::PolicyUpdated {
                policy_proto: policy_proto@,
                policy_hash: policy_hash@,
                config_revision: *config_revision,
            },
        }
    }
}

/// A message of a supervisor.
#[derive(Debug, Clone, PartialEq, Eq)]
pub enum WireClientMessage {
    BootstrapRequest { supervisor_pid: Option<u32> },
    EntrypointStarted { pid: u32, ssh_socket_path: String },
}

/// The content of a supervisor's message.
pub enum ClientView {
    BootstrapRequest { supervisor_pid: Option<u32> },
    EntrypointStarted { pid: u32, ssh_socket_path: Seq<char> },
}

impl DeepView for WireClientMessage {
    type V = ClientView;

    open spec fn deep_view(&self) -> ClientView {
        match self {
            WireClientMessage::BootstrapRequest { supervisor_pid } => ClientView::BootstrapRequest {
                supervisor_pid: *supervisor_pid,
            },
            WireClientMessage::EntrypointStarted {
                pid,
                ssh_socket_path,
            } => ClientView::EntrypointStarted { pid: *pid, ssh_socket_path: ssh_socket_path@ },
        }
    }
}

/// A message of a sidecar.
#[derive(Debug, Clone, PartialEq, Eq)]
pub enum WireServerMessage {
    BootstrapResponse {
        policy_proto: Vec<u8>,
        provider_env_revision: u64,
        provider_child_env: Vec<(String, String)>,
        proxy_ca_cert_path: Option<String>,
        proxy_ca_bundle_path: Option<String>,
    },
    ProviderEnvUpdated { revision: u64, provider_child_env: Vec<(String, String)> },
    PolicyUpdated { policy_proto: Vec<u8>, policy_hash: String, config_revision: u64 },
}

/// The content of a sidecar's message.
pub enum ServerView {
    BootstrapResponse(BootstrapView),
    Update(UpdateView),
}

impl DeepView for WireServerMessage {
    type V = ServerView;

    open spec fn deep_view(&self) -> ServerView {
        match self {
            WireServerMessage::BootstrapResponse {
                policy_proto,
                provider_env_revision,
                provider_child_env,
                proxy_ca_cert_path,
                proxy_ca_bundle_path,
            } => ServerView::BootstrapResponse(
                BootstrapView {
                    policy_proto: policy_proto@,
                    provider_env_revision: *provider_env_revision,
                    provider_child_env: provider_child_env.deep_view(),
                    proxy_ca_cert_path: proxy_ca_cert_path.deep_view(),
                    proxy_ca_bundle_path: proxy_ca_bundle_path.deep_view(),
                },
            ),
            WireServerMessage::ProviderEnvUpdated {
                revision,
                provider_child_env,
            } => ServerView::Update(
                UpdateView::ProviderEnvUpdated {
                    revision: *revision,
                    provider_child_env: provider_child_env.deep_view(),
                },
            ),
            WireServerMessage::PolicyUpdated {
                policy_proto,
                policy_hash,
                config_revision,
            } => ServerView::Update(
                UpdateView::PolicyUpdated {
                    policy_proto: policy_proto@,
                    policy_hash: policy_hash@,
                    config_revision: *config_revision,
                },
            ),
        }
    }
}

fn copy_pairs(pairs: &Vec<(String, String)>) -> (r: Vec<(String, String)>)
    ensures
        r.deep_view() == pairs.deep_view(),
{
    let mut out: Vec<(String, String)> = Vec::new();
    let mut i: usize = 0;
    while i < pairs.len()
        invariant
            i <= pairs.len(),
            out.len() == i,
            forall|j: int|
                0 <= j < i ==> #[trigger] out.deep_view()[j] == pairs.deep_view()[j],
        decreases pairs.len() - i,
    {
        let ghost before = out.deep_view();
        out.push((pairs[i].0.clone(), pairs[i].1.clone()));
        proof {
            assert forall|j: int| 0 <= j < i + 1 implies #[trigger] out.deep_view()[j]
                == pairs.deep_view()[j] by {
                if j < i {
                    assert(out.deep_view()[j] == before[j]);
                }
            }
        }
        i += 1;
    }
    assert(out.deep_view() =~= pairs.deep_view());
    out
}

fn copy_bytes(bytes: &Vec<u8>) -> (r: Vec<u8>)
    ensures
        r@ == bytes@,
{
    let r = bytes.clone();
    assert(r@ =~= bytes@);
    r
}

fn copy_text(value: &Option<String>) -> (r: Option<String>)
    ensures
        r.deep_view() == value.deep_view(),
{
    match value {
        Some(value) => Some(value.clone()),
        None => None,
    }
}

// ---------------------------------------------------------------------------
// Messages
// ---------------------------------------------------------------------------

/// What a message tells, given whether the policy in it can be decoded.
pub open spec fn bootstrap_of(message: ServerView, policy_decodes: bool) -> Result<
    BootstrapView,
    Seq<char>,
> {
    match message {
        ServerView::BootstrapResponse(bootstrap) => if policy_decodes {
            Ok(bootstrap)
        } else {
            Err("failed to decode sidecar bootstrap policy"@)
        },
        ServerView::Update(_) => Err(
            "expected sidecar bootstrap response, received update message"@,
        ),
    }
}

/// A message as a change.
pub open spec fn update_of(message: ServerView, policy_decodes: bool) -> Result<
    UpdateView,
    Seq<char>,
> {
    match message {
        ServerView::BootstrapResponse(_) => Err(
            "unexpected sidecar bootstrap response after initial handshake"@,
        ),
        ServerView::Update(update) => match update {
            UpdateView::ProviderEnvUpdated { .. } => Ok(update),
            UpdateView::PolicyUpdated { .. } => if policy_decodes {
                Ok(update)
            } else {
                Err("failed to decode sidecar policy update"@)
            },
        },
    }
}

impl BootstrapData {
    /// The message that tells it.
    pub fn to_wire(&self) -> (r: WireServerMessage)
        ensures
            r.deep_view() == ServerView::BootstrapResponse(self.deep_view()),
    {
        WireServerMessage::BootstrapResponse {
            policy_proto: copy_bytes(&self.policy_proto),
            provider_env_revision: self.provider_env_revision,
            provider_child_env: copy_pairs(&self.provider_child_env),
            proxy_ca_cert_path: copy_text(&self.proxy_ca_cert_path),
            proxy_ca_bundle_path: copy_text(&self.proxy_ca_bundle_path),
        }
    }

    /// What a message tells, given whether the policy in it can be decoded.
    pub fn try_from(message: WireServerMessage, policy_decodes: bool) -> (r: Result<
        BootstrapData,
        String,
    >)
        ensures
            shown(r) == bootstrap_of(message.deep_view(), policy_decodes),
    {
        match message {
            WireServerMessage::BootstrapResponse {
                policy_proto,
                provider_env_revision,
                provider_child_env,
                proxy_ca_cert_path,
                proxy_ca_bundle_path,
            } => {
                if !policy_decodes {
                    return Err("failed to decode sidecar bootstrap policy".to_owned());
                }
                Ok(
                    BootstrapData {
                        policy_proto,
                        provider_env_revision,
                        provider_child_env,
                        proxy_ca_cert_path,
                        proxy_ca_bundle_path,
                    },
                )
            },
            _ => Err("expected sidecar bootstrap response, received update message".to_owned()),
        }
    }
}

impl ControlUpdate {
    /// A message as a change, given whether the policy in it can be decoded.
    pub fn try_from(message: WireServerMessage, policy_decodes: bool) -> (r: Result<
        ControlUpdate,
        String,
    >)
        ensures
            shown(r) == update_of(message.deep_view(), policy_decodes),
    {
        match message {
            WireServerMessage::ProviderEnvUpdated { revision, provider_child_env } => Ok(
                ControlUpdate::ProviderEnvUpdated { revision, provider_child_env },
            ),
            WireServerMessage::PolicyUpdated { policy_proto, policy_hash, config_revision } => {
                if !policy_decodes {
                    return Err("failed to decode sidecar policy update".to_owned());
                }
                Ok(ControlUpdate::PolicyUpdated { policy_proto, policy_hash, config_revision })
            },
            WireServerMessage::BootstrapResponse { .. } => Err(
                "unexpected sidecar bootstrap response after initial handshake".to_owned(),
            ),
        }
    }
}

/// A supervisor's message, from what decoding its line gave.
pub fn decode_client_message(decoded: Result<WireClientMessage, String>) -> (r: Result<
    WireClientMessage,
    String,
>)
    ensures
        shown(r) == (match shown(decoded) {
            Ok(message) => Ok(message),
            Err(_) => Err("failed to decode sidecar client message"@),
        }),
{
    match decoded {
        Ok(message) => Ok(message),
        Err(_) => Err("failed to decode sidecar client message".to_owned()),
    }
}

/// A sidecar's message, from what decoding its line gave.
pub fn decode_server_message(decoded: Result<WireServerMessage, String>) -> (r: Result<
    WireServerMessage,
    String,
>)
    ensures
        shown(r) == (match shown(decoded) {
            Ok(message) => Ok(message),
            Err(_) => Err("failed to decode sidecar server message"@),
        }),
{
    match decoded {
        Ok(message) => Ok(message),
        Err(_) => Err("failed to decode sidecar server message".to_owned()),
    }
}

// ---------------------------------------------------------------------------
// Publishing
// ---------------------------------------------------------------------------

/// What a sidecar publishes: the state that new connections get.
pub struct Publisher {
    pub state: BootstrapData,
}

impl Publisher {
    /// Publishes a new environment of a provider, unless a revision as new is
    /// published already. What it gives is to be sent to all connections.
    pub fn publish_provider_env(
        &mut self,
        revision: u64,
        provider_child_env: Vec<(String, String)>,
    ) -> (r: Option<WireServerMessage>)
        ensures
            revision <= old(self).state.provider_env_revision ==> r is None && *final(self) == *old(
                self,
            ),
            revision > old(self).state.provider_env_revision ==> {
                &&& r.deep_view() == Some(
                    ServerView::Update(
                        UpdateView::ProviderEnvUpdated {
                            revision,
                            provider_child_env: provider_child_env.deep_view(),
                        },
                    ),
                )
                &&& final(self).state.deep_view() == (BootstrapView {
                    provider_env_revision: revision,
                    provider_child_env: provider_child_env.deep_view(),
                    ..old(self).state.deep_view()
                })
            },
    {
        if revision <= self.state.provider_env_revision {
            return None;
        }
        self.state.provider_env_revision = revision;
        self.state.provider_child_env = copy_pairs(&provider_child_env);
        Some(WireServerMessage::ProviderEnvUpdated { revision, provider_child_env })
    }

    /// Publishes a new policy. What it gives is to be sent to all connections.
    pub fn publish_policy(
        &mut self,
        policy_proto: Vec<u8>,
        policy_hash: String,
        config_revision: u64,
    ) -> (r: WireServerMessage)
        ensures
            r.deep_view() == ServerView::Update(
                UpdateView::PolicyUpdated {
                    policy_proto: policy_proto@,
                    policy_hash: policy_hash@,
                    config_revision,
                },
            ),
            final(self).state.deep_view() == (BootstrapView {
                policy_proto: policy_proto@,
                ..old(self).state.deep_view()
            }),
    {
        self.state.policy_proto = copy_bytes(&policy_proto);
        WireServerMessage::PolicyUpdated { policy_proto, policy_hash, config_revision }
    }
}

// ---------------------------------------------------------------------------
// Connections
// ---------------------------------------------------------------------------

/// What a sidecar makes of the first line of a connection: the process to anchor
/// to, where the supervisor named one, or why the connection ends.
pub open spec fn first_line_outcome(line: Option<Result<ClientView, Seq<char>>>) -> Result<
    Option<EntrypointView>,
    Seq<char>,
> {
    match line {
        None => Err("sidecar control client disconnected before bootstrap"@),
        Some(Err(_)) => Err("failed to decode sidecar client message"@),
        Some(Ok(message)) => match message {
            ClientView::BootstrapRequest { supervisor_pid } => Ok(
                match supervisor_pid {
                    Some(pid) => if pid != 0 {
                        Some(
                            EntrypointView {
                                pid,
                                ssh_socket_path: Seq::empty(),
                                start_session: false,
                            },
                        )
                    } else {
                        None
                    },
                    None => None,
                },
            ),
            ClientView::EntrypointStarted { .. } => Err(
                "sidecar control client sent entrypoint event before bootstrap"@,
            ),
        },
    }
}

/// What a sidecar makes of a later line: the process that was started, where it
/// says so, or why the connection ends.
pub open spec fn later_line_outcome(line: Result<ClientView, Seq<char>>) -> Result<
    Option<EntrypointView>,
    Seq<char>,
> {
    match line {
        Err(_) => Err("failed to decode sidecar client message"@),
        Ok(message) => Ok(
            match message {
                ClientView::BootstrapRequest { .. } => None,
                ClientView::EntrypointStarted { pid, ssh_socket_path } => if pid == 0 {
                    None
                } else {
                    Some(EntrypointView { pid, ssh_socket_path, start_session: true })
                },
            },
        ),
    }
}

/// The content of what decoding a line gave, where there was a line.
pub open spec fn line_view(line: Option<Result<WireClientMessage, String>>) -> Option<
    Result<ClientView, Seq<char>>,
> {
    match line {
        Some(decoded) => Some(shown(decoded)),
        None => None,
    }
}

/// What a sidecar makes of the first line of a connection. There is none where the
/// supervisor disconnected.
pub fn first_client_line(line: Option<Result<WireClientMessage, String>>) -> (r: Result<
    Option<EntrypointStarted>,
    String,
>)
    ensures
        shown(r) == first_line_outcome(line_view(line)),
{
    let decoded = match line {
        Some(decoded) => decoded,
        None => {
            return Err("sidecar control client disconnected before bootstrap".to_owned());
        },
    };
    match decode_client_message(decoded) {
        Err(problem) => Err(problem),
        Ok(WireClientMessage::BootstrapRequest { supervisor_pid }) => {
            match supervisor_pid {
                Some(pid) => {
                    if pid != 0 {
                        let ssh_socket_path = String::new();
                        assert(ssh_socket_path@ =~= Seq::empty());
                        Ok(
                            Some(
                                EntrypointStarted { pid, ssh_socket_path, start_session: false },
                            ),
                        )
                    } else {
                        Ok(None)
                    }
                },
                None => Ok(None),
            }
        },
        Ok(WireClientMessage::EntrypointStarted { .. }) => Err(
            "sidecar control client sent entrypoint event before bootstrap".to_owned(),
        ),
    }
}

/// What a sidecar makes of a later line of a connection.
pub fn later_client_line(decoded: Result<WireClientMessage, String>) -> (r: Result<
    Option<EntrypointStarted>,
    String,
>)
    ensures
        shown(r) == later_line_outcome(shown(decoded)),
{
    match decode_client_message(decoded) {
        Err(problem) => Err(problem),
        Ok(WireClientMessage::BootstrapRequest { .. }) => Ok(None),
        Ok(WireClientMessage::EntrypointStarted { pid, ssh_socket_path }) => {
            if pid == 0 {
                Ok(None)
            } else {
                Ok(Some(EntrypointStarted { pid, ssh_socket_path, start_session: true }))
            }
        },
    }
}

/// What a supervisor says when it connects.
pub fn bootstrap_request(supervisor_pid: u32) -> (r: WireClientMessage)
    ensures
        r.deep_view() == (ClientView::BootstrapRequest { supervisor_pid: Some(supervisor_pid) }),
{
    WireClientMessage::BootstrapRequest { supervisor_pid: Some(supervisor_pid) }
}

/// What a supervisor says when it started a process.
pub fn entrypoint_started(pid: u32, ssh_socket_path: &str) -> (r: WireClientMessage)
    ensures
        r.deep_view() == (ClientView::EntrypointStarted {
            pid,
            ssh_socket_path: ssh_socket_path@,
        }),
{
    WireClientMessage::EntrypointStarted { pid, ssh_socket_path: ssh_socket_path.to_owned() }
}

/// What a supervisor makes of the first line of a sidecar. There is none where the
/// sidecar closed the connection.
pub open spec fn first_answer(
    line: Option<Result<ServerView, Seq<char>>>,
    policy_decodes: bool,
) -> Result<BootstrapView, Seq<char>> {
    match line {
        None => Err("sidecar control closed before bootstrap response"@),
        Some(Err(_)) => Err("failed to decode sidecar server message"@),
        Some(Ok(message)) => bootstrap_of(message, policy_decodes),
    }
}

/// What a supervisor makes of the first line of a sidecar.
pub fn connect_process_client(
    line: Option<Result<WireServerMessage, String>>,
    policy_decodes: bool,
) -> (r: Result<BootstrapData, String>)
    ensures
        shown(r) == first_answer(
            match line {
                Some(decoded) => Some(shown(decoded)),
                None => None,
            },
            policy_decodes,
        ),
{
    let decoded = match line {
        Some(decoded) => decoded,
        None => {
            return Err("sidecar control closed before bootstrap response".to_owned());
        },
    };
    match decode_server_message(decoded) {
        Err(problem) => Err(problem),
        Ok(message) => BootstrapData::try_from(message, policy_decodes),
    }
}

/// What follows a failed attempt to connect.
#[derive(Debug, Clone, PartialEq, Eq)]
pub enum ConnectStep {
    /// Wait, and try again.
    Retry,
    /// Give up, for a reason.
    GiveUp(String),
}

/// The content of what follows.
pub enum ConnectView {
    Retry,
    GiveUp(Seq<char>),
}

impl DeepView for ConnectStep {
    type V = ConnectView;

    open spec fn deep_view(&self) -> ConnectView {
        match self {
            ConnectStep::Retry => ConnectView::Retry,
            ConnectStep::GiveUp(reason) => ConnectView::GiveUp(reason@),
        }
    }
}

/// What follows a failed attempt to connect, at a time and with a deadline.
pub fn connect_with_retry(path: &str, now_ms: u64, deadline_ms: u64) -> (r: ConnectStep)
    ensures
        r.deep_view() == (if now_ms < deadline_ms {
            ConnectView::Retry
        } else {
            ConnectView::GiveUp("timed out waiting for sidecar control socket "@ + path@)
        }),
{
    if now_ms < deadline_ms {
        ConnectStep::Retry
    } else {
        ConnectStep::GiveUp(cat2("timed out waiting for sidecar control socket ", path))
    }
}

// ---------------------------------------------------------------------------
// Laws
// ---------------------------------------------------------------------------

/// A supervisor learns exactly what the sidecar told it.
pub proof fn law_bootstrap_round_trip(bootstrap: BootstrapView)
    ensures
        first_answer(
            Some(Ok::<ServerView, Seq<char>>(ServerView::BootstrapResponse(bootstrap))),
            true,
        ) == Ok::<BootstrapView, Seq<char>>(bootstrap),
{
}

/// A bootstrap answer is never taken for a change, nor a change for a bootstrap
/// answer.
pub proof fn law_messages_are_not_confused(message: ServerView, policy_decodes: bool)
    ensures
        bootstrap_of(message, policy_decodes) is Err || update_of(message, policy_decodes) is Err,
        policy_decodes ==> bootstrap_of(message, policy_decodes) is Ok || update_of(
            message,
            policy_decodes,
        ) is Ok,
{
}

/// No process without an identity is ever reported, and a session is started only
/// for a process that a supervisor said it started.
pub proof fn law_reported_processes(
    first: Option<Result<ClientView, Seq<char>>>,
    later: Result<ClientView, Seq<char>>,
)
    ensures
        first_line_outcome(first) matches Ok(Some(started)) ==> started.pid != 0
            && !started.start_session,
        later_line_outcome(later) matches Ok(Some(started)) ==> started.pid != 0
            && started.start_session && later == Ok::<ClientView, Seq<char>>(
            ClientView::EntrypointStarted {
                pid: started.pid,
                ssh_socket_path: started.ssh_socket_path,
            },
        ),
{
}

/// A connection begins with a request for the state, and nothing else. A supervisor that
/// names itself by another number than zero is anchored to, and no session is started for it.
pub proof fn law_first_lines(line: Option<Result<ClientView, Seq<char>>>)
    ensures
        first_line_outcome(line) is Ok <==> (line matches Some(Ok(message)) && message
            is BootstrapRequest),
        line matches Some(Ok(ClientView::BootstrapRequest { supervisor_pid })) ==> match supervisor_pid {
            Some(pid) if pid != 0 => first_line_outcome(line) matches Ok(Some(started))
                && started.pid == pid && started.ssh_socket_path.len() == 0
                && !started.start_session,
            _ => first_line_outcome(line) matches Ok(started) && started is None,
        },
{
}

/// After that, every line that can be decoded is accepted. One that tells of a process by
/// another number than zero starts a session for it at the path that it tells.
pub proof fn law_later_lines(line: Result<ClientView, Seq<char>>)
    ensures
        later_line_outcome(line) is Ok <==> line is Ok,
        line matches Ok(ClientView::BootstrapRequest { .. }) ==> (later_line_outcome(line)
            matches Ok(started) && started is None),
        line matches Ok(ClientView::EntrypointStarted { pid, ssh_socket_path }) ==> match later_line_outcome(
            line,
        ) {
            Ok(Some(started)) => pid != 0 && started.pid == pid && started.ssh_socket_path
                == ssh_socket_path && started.start_session,
            Ok(None) => pid == 0,
            Err(_) => false,
        },
{
}

/// A change is learned as it was told. A change of the policy is learned only where the
/// policy can be decoded, a change of the environment in any case.
pub proof fn law_changes_are_learned(update: UpdateView, policy_decodes: bool)
    ensures
        update_of(ServerView::Update(update), policy_decodes) matches Ok(learned) ==> learned
            == update,
        update_of(ServerView::Update(update), policy_decodes) is Ok <==> policy_decodes || update
            is ProviderEnvUpdated,
{
}

/// A state is learned only where its policy can be decoded.
pub proof fn law_states_are_learned(bootstrap: BootstrapView, policy_decodes: bool)
    ensures
        bootstrap_of(ServerView::BootstrapResponse(bootstrap), policy_decodes) is Ok
            <==> policy_decodes,
        bootstrap_of(ServerView::BootstrapResponse(bootstrap), policy_decodes) matches Ok(learned)
            ==> learned == bootstrap,
        first_answer(None, policy_decodes) is Err,
{
}

} // verus!
