use vstd::prelude::*;

use crate::ids::{
    AgentId, ConnectionId, DeviceId, DeviceToken, LeaseHolderId, OperationId, PairingId,
    PairingSecret, RequestId, RunId, ServerId,
};
use crate::rpc::{
    clone_images, ExtensionUiRequestFrame, ExtensionUiResponseFrame, ImageContent, StreamingBehavior,
};
use crate::state::{
    AgentSnapshot, EventSequence, InteractionLease, StateDelta, StateRevision, SubscriptionCursor,
};
use crate::text::texts;

verus! {

/// The capability of receiving state deltas after a snapshot.
pub const CAPABILITY_STATE_DELTAS: &'static str = "state_deltas";

/// The capability of resuming a subscription by replaying missed updates.
pub const CAPABILITY_EVENT_REPLAY: &'static str = "event_replay";

/// The capability of taking exclusive leases on agent interactions.
pub const CAPABILITY_INTERACTION_LEASES: &'static str = "interaction_leases";

/// A version of the control protocol.
#[derive(Clone, Copy, Debug, PartialEq, Eq, PartialOrd, Ord, Hash)]
pub struct ProtocolVersion(pub u16);

impl ProtocolVersion {
    /// The first version of the protocol.
    pub fn v1() -> (r: ProtocolVersion)
        ensures
            r.0 == 1,
    {
        ProtocolVersion(1)
    }

    /// The version this build speaks.
    pub fn current() -> (r: ProtocolVersion)
        ensures
            r.0 == 1,
    {
        ProtocolVersion(1)
    }
}

/// The protocol versions this build supports, oldest first.
pub open spec fn supported_versions() -> Seq<u16> {
    seq![1u16]
}

/// The newest supported version that the client also offers, if any.
pub open spec fn newest_common_version(supported: Seq<u16>, offered: Seq<u16>) -> Option<u16>
    decreases supported.len(),
{
    if supported.len() == 0 {
        None
    } else if offered.contains(supported.last()) {
        Some(supported.last())
    } else {
        newest_common_version(supported.drop_last(), offered)
    }
}

/// The version numbers of a list of versions.
pub open spec fn version_numbers(versions: Seq<ProtocolVersion>) -> Seq<u16> {
    versions.map_values(|v: ProtocolVersion| v.0)
}

/// Why a client's hello could not be answered.
#[derive(Clone, Copy, Debug, PartialEq, Eq)]
pub enum ProtocolNegotiationError {
    UnsupportedVersions,
    ExpectedHello,
}

impl ProtocolNegotiationError {
    /// The human-readable message of the error.
    pub fn to_string(&self) -> (r: String)
        ensures
            r@ == (match self {
                ProtocolNegotiationError::UnsupportedVersions =>
                    "client and server have no supported protocol version in common"@,
                ProtocolNegotiationError::ExpectedHello => "first client frame must be hello"@,
            }),
    {
        match self {
            ProtocolNegotiationError::UnsupportedVersions => String::from_str(
                "client and server have no supported protocol version in common",
            ),
            ProtocolNegotiationError::ExpectedHello => String::from_str(
                "first client frame must be hello",
            ),
        }
    }
}

/// Whether `version` occurs in `versions`.
fn offers(versions: &[ProtocolVersion], version: u16) -> (r: bool)
    ensures
        r == version_numbers(versions@).contains(version),
{
    let mut i: usize = 0;
    while i < versions.len()
        invariant
            i <= versions.len(),
            forall|j: int| 0 <= j < i ==> versions@[j].0 != version,
        decreases versions.len() - i,
    {
        if versions[i].0 == version {
            proof {
                assert(version_numbers(versions@)[i as int] == version);
            }
            return true;
        }
        i = i + 1;
    }
    proof {
        if version_numbers(versions@).contains(version) {
            let k = choose|k: int|
                0 <= k < version_numbers(versions@).len() && version_numbers(versions@)[k]
                    == version;
            assert(versions@[k].0 == version);
        }
    }
    false
}

/// Picks the newest protocol version both sides support.
pub fn negotiate_version(client_versions: &[ProtocolVersion]) -> (r: Result<
    ProtocolVersion,
    ProtocolNegotiationError,
>)
    ensures
        match newest_common_version(supported_versions(), version_numbers(client_versions@)) {
            Some(v) => (r matches Ok(version) && version.0 == v),
            None => r matches Err(ProtocolNegotiationError::UnsupportedVersions),
        },
{
    proof {
        assert(supported_versions().last() == 1u16);
        assert(supported_versions().drop_last() =~= Seq::<u16>::empty());
        reveal_with_fuel(newest_common_version, 2);
    }
    if offers(client_versions, 1) {
        Ok(ProtocolVersion(1))
    } else {
        Err(ProtocolNegotiationError::UnsupportedVersions)
    }
}

/// Answers the first client frame: it must be a hello offering a supported version.
pub fn negotiate_client_hello(frame: &ClientFrame) -> (r: Result<
    (&ClientHello, ProtocolVersion),
    ProtocolNegotiationError,
>)
    ensures
        match frame {
            ClientFrame::Hello(hello) => match newest_common_version(
                supported_versions(),
                version_numbers(hello.supported_versions@),
            ) {
                Some(v) => r matches Ok((h, version)) && *h == *hello && version.0 == v,
                None => r matches Err(ProtocolNegotiationError::UnsupportedVersions),
            },
            _ => r matches Err(ProtocolNegotiationError::ExpectedHello),
        },
{
    match frame {
        ClientFrame::Hello(hello) => {
            let version = negotiate_version(hello.supported_versions.as_slice())?;
            Ok((hello, version))
        },
        _ => Err(ProtocolNegotiationError::ExpectedHello),
    }
}

/// A frame a client sends to the server.
#[derive(PartialEq)]
pub enum ClientFrame {
    Hello(ClientHello),
    Request(RequestEnvelope),
    Subscribe(SubscribeRequest),
    Unsubscribe(UnsubscribeRequest),
    UiResponse(UiResponseEnvelope),
    Ping(Ping),
}

/// A frame the server sends to a client; `E` is the agent event payload.
#[derive(PartialEq)]
pub enum ServerFrame<E> {
    Welcome(ServerWelcome),
    Response(ResponseEnvelope),
    Snapshot(StateSnapshot),
    Delta(DeltaEnvelope),
    Event(EventEnvelope<E>),
    ReplayGap(ReplayGap),
    InteractionRequest(UiInteractionEnvelope),
    Error(ProtocolError),
    Pong(Pong),
    ServerShutdown(ServerShutdown),
}

/// The first frame of a client: its versions, identity, credentials and the
/// subscriptions it wants to resume.
#[derive(PartialEq, Eq)]
pub struct ClientHello {
    pub supported_versions: Vec<ProtocolVersion>,
    pub client: ClientDescriptor,
    pub authentication: ClientAuthentication,
    pub resume: ResumeState,
}

/// What a client says about itself.
#[derive(Clone, Debug, PartialEq, Eq)]
pub struct ClientDescriptor {
    pub name: String,
    pub version: String,
    pub platform: ClientPlatform,
    pub capabilities: ClientCapabilities,
}

/// The kind of platform a client runs on.
#[derive(Clone, Copy, Debug, PartialEq, Eq)]
pub enum ClientPlatform {
    Web,
    Mobile,
    Desktop,
    Cli,
    Service,
}

/// The capabilities a client asks for; each name occurs once.
#[derive(Clone, Debug, PartialEq, Eq)]
pub struct ClientCapabilities {
    pub requested: Vec<String>,
}

/// How a client proves who it is: with a one-time pairing secret or with a
/// device token issued earlier.
#[derive(PartialEq, Eq)]
pub enum ClientAuthentication {
    Pair { pairing_id: PairingId, secret: PairingSecret, device: DeviceDescriptor },
    Device { device_id: DeviceId, token: DeviceToken },
}

/// The device a pairing client registers.
#[derive(Clone, Debug, PartialEq, Eq)]
pub struct DeviceDescriptor {
    pub name: String,
    pub platform: ClientPlatform,
}

/// The subscriptions a reconnecting client wants to resume.
#[derive(PartialEq, Eq)]
pub struct ResumeState {
    pub subscriptions: Vec<SubscriptionCursor>,
}

/// The server's answer to an accepted hello.
#[derive(PartialEq, Eq)]
pub struct ServerWelcome {
    pub protocol_version: ProtocolVersion,
    pub server_id: ServerId,
    pub connection_id: ConnectionId,
    pub device_id: DeviceId,
    pub capabilities: ServerCapabilities,
    pub heartbeat_interval_ms: u64,
    pub issued_credential: Option<DeviceCredential>,
}

/// The capabilities enabled for a connection and its frame limit.
#[derive(Clone, Debug, PartialEq, Eq)]
pub struct ServerCapabilities {
    pub enabled: Vec<String>,
    pub max_frame_bytes: u32,
}

/// The texts of `available` that also occur in `requested`, in the order of `available`.
pub open spec fn common_texts(available: Seq<Seq<char>>, requested: Seq<Seq<char>>) -> Seq<
    Seq<char>,
>
    decreases available.len(),
{
    if available.len() == 0 {
        available
    } else {
        let rest = common_texts(available.drop_last(), requested);
        if requested.contains(available.last()) {
            rest.push(available.last())
        } else {
            rest
        }
    }
}

impl ServerCapabilities {
    /// Enables exactly the available capabilities that the client requested.
    pub fn negotiate(
        available: &Vec<String>,
        requested: &ClientCapabilities,
        max_frame_bytes: u32,
    ) -> (r: Self)
        ensures
            texts(r.enabled@) == common_texts(texts(available@), texts(requested.requested@)),
            texts(available@).no_duplicates() ==> texts(r.enabled@).no_duplicates(),
            r.max_frame_bytes == max_frame_bytes,
    {
        let mut enabled: Vec<String> = Vec::new();
        let mut i: usize = 0;
        while i < available.len()
            invariant
                i <= available.len(),
                texts(enabled@) == common_texts(
                    texts(available@).take(i as int),
                    texts(requested.requested@),
                ),
            decreases available.len() - i,
        {
            let ghost before = enabled@;
            proof {
                assert(texts(available@).take(i + 1).drop_last() =~= texts(available@).take(
                    i as int,
                ));
            }
            if crate::text::contains_text(&requested.requested, &available[i]) {
                enabled.push(available[i].clone());
                proof {
                    assert(texts(enabled@) =~= texts(before).push(available@[i as int]@));
                }
            }
            i = i + 1;
        }
        proof {
            assert(texts(available@).take(available.len() as int) =~= texts(available@));
        }
        proof {
            lemma_common_texts(texts(available@), texts(requested.requested@));
        }
        ServerCapabilities { enabled, max_frame_bytes }
    }
}

/// A control request with its wire identifier and, for mutations, the
/// operation identifier that stays the same across retries.
#[derive(Clone, Debug, PartialEq)]
pub struct RequestEnvelope {
    pub request_id: RequestId,
    pub operation_id: Option<OperationId>,
    pub request: ControlRequest,
}

/// Why a request envelope is malformed.
#[derive(Clone, Copy, Debug, PartialEq, Eq)]
pub enum RequestValidationError {
    MissingOperationId,
    UnexpectedOperationId,
}

impl RequestValidationError {
    /// The human-readable message of the error.
    pub fn to_string(&self) -> (r: String)
        ensures
            r@ == (match self {
                RequestValidationError::MissingOperationId =>
                    "mutating requests require an operation ID"@,
                RequestValidationError::UnexpectedOperationId =>
                    "read-only requests cannot carry an operation ID"@,
            }),
    {
        match self {
            RequestValidationError::MissingOperationId => String::from_str(
                "mutating requests require an operation ID",
            ),
            RequestValidationError::UnexpectedOperationId => String::from_str(
                "read-only requests cannot carry an operation ID",
            ),
        }
    }
}

impl RequestEnvelope {
    /// A mutating request must carry an operation identifier and a read-only
    /// request must not.
    pub fn validate(&self) -> (r: Result<(), RequestValidationError>)
        ensures
            self.request.mutating() && self.operation_id is None ==> r matches Err(
                RequestValidationError::MissingOperationId,
            ),
            !self.request.mutating() && self.operation_id is Some ==> r matches Err(
                RequestValidationError::UnexpectedOperationId,
            ),
            r is Ok <==> (self.request.mutating() == self.operation_id is Some),
    {
        if self.request.is_mutating() && self.operation_id.is_none() {
            return Err(RequestValidationError::MissingOperationId);
        }
        if !self.request.is_mutating() && self.operation_id.is_some() {
            return Err(RequestValidationError::UnexpectedOperationId);
        }
        Ok(())
    }
}

/// A request a client makes of the control server.
#[derive(Debug, PartialEq)]
pub enum ControlRequest {
    ListAgents,
    GetAgent { agent_id: AgentId },
    LaunchAgent { agent_id: AgentId },
    StopAgent { agent_id: AgentId },
    Prompt {
        agent_id: AgentId,
        message: String,
        images: Vec<ImageContent>,
        streaming_behavior: Option<StreamingBehavior>,
    },
    Steer { agent_id: AgentId, message: String, images: Vec<ImageContent> },
    FollowUp { agent_id: AgentId, message: String, images: Vec<ImageContent> },
    Abort { agent_id: AgentId },
    SwitchSession { agent_id: AgentId, session_path: String },
    RespondToUi { agent_id: AgentId, holder: LeaseHolderId, response: ExtensionUiResponseFrame },
    AcquireInteractionLease { agent_id: AgentId, holder: LeaseHolderId, ttl_ms: u64 },
    ReleaseInteractionLease { agent_id: AgentId, holder: LeaseHolderId },
}

/// Two requests are the same request: equal fields, images compared by content.
pub open spec fn same_control_request(a: ControlRequest, b: ControlRequest) -> bool {
    match (a, b) {
        (
            ControlRequest::Prompt {
                agent_id: agent_a,
                message: message_a,
                images: images_a,
                streaming_behavior: behavior_a,
            },
            ControlRequest::Prompt {
                agent_id: agent_b,
                message: message_b,
                images: images_b,
                streaming_behavior: behavior_b,
            },
        ) => agent_a == agent_b && message_a == message_b && images_a@ == images_b@ && behavior_a
            == behavior_b,
        (
            ControlRequest::Steer { agent_id: agent_a, message: message_a, images: images_a },
            ControlRequest::Steer { agent_id: agent_b, message: message_b, images: images_b },
        ) => agent_a == agent_b && message_a == message_b && images_a@ == images_b@,
        (
            ControlRequest::FollowUp { agent_id: agent_a, message: message_a, images: images_a },
            ControlRequest::FollowUp { agent_id: agent_b, message: message_b, images: images_b },
        ) => agent_a == agent_b && message_a == message_b && images_a@ == images_b@,
        _ => a == b,
    }
}

impl Clone for ControlRequest {
    fn clone(&self) -> (r: Self)
        ensures
            same_control_request(r, *self),
    {
        match self {
            ControlRequest::ListAgents => ControlRequest::ListAgents,
            ControlRequest::GetAgent { agent_id } => ControlRequest::GetAgent {
                agent_id: agent_id.clone(),
            },
            ControlRequest::LaunchAgent { agent_id } => ControlRequest::LaunchAgent {
                agent_id: agent_id.clone(),
            },
            ControlRequest::StopAgent { agent_id } => ControlRequest::StopAgent {
                agent_id: agent_id.clone(),
            },
            ControlRequest::Prompt { agent_id, message, images, streaming_behavior } =>
                ControlRequest::Prompt {
                agent_id: agent_id.clone(),
                message: message.clone(),
                images: clone_images(images),
                streaming_behavior: *streaming_behavior,
            },
            ControlRequest::Steer { agent_id, message, images } => ControlRequest::Steer {
                agent_id: agent_id.clone(),
                message: message.clone(),
                images: clone_images(images),
            },
            ControlRequest::FollowUp { agent_id, message, images } => ControlRequest::FollowUp {
                agent_id: agent_id.clone(),
                message: message.clone(),
                images: clone_images(images),
            },
            ControlRequest::Abort { agent_id } => ControlRequest::Abort {
                agent_id: agent_id.clone(),
            },
            ControlRequest::SwitchSession { agent_id, session_path } =>
                ControlRequest::SwitchSession {
                agent_id: agent_id.clone(),
                session_path: session_path.clone(),
            },
            ControlRequest::RespondToUi { agent_id, holder, response } =>
                ControlRequest::RespondToUi {
                agent_id: agent_id.clone(),
                holder: holder.clone(),
                response: response.clone(),
            },
            ControlRequest::AcquireInteractionLease { agent_id, holder, ttl_ms } =>
                ControlRequest::AcquireInteractionLease {
                agent_id: agent_id.clone(),
                holder: holder.clone(),
                ttl_ms: *ttl_ms,
            },
            ControlRequest::ReleaseInteractionLease { agent_id, holder } =>
                ControlRequest::ReleaseInteractionLease {
                agent_id: agent_id.clone(),
                holder: holder.clone(),
            },
        }
    }
}

impl ControlRequest {
    /// Every request but listing and reading agents changes something.
    pub open spec fn mutating(&self) -> bool {
        !(self is ListAgents || self is GetAgent)
    }

    /// Whether the request changes something.
    pub fn is_mutating(&self) -> (r: bool)
        ensures
            r == self.mutating(),
    {
        match self {
            ControlRequest::ListAgents | ControlRequest::GetAgent { .. } => false,
            _ => true,
        }
    }
}

/// Only listing agents and reading one agent leave the daemon as it was:
/// launching and stopping agents, prompting, steering, following up,
/// aborting, switching sessions, answering the user interface and taking or
/// releasing an interaction lease all change something, so each of them must
/// carry an operation identifier and the two reads must not.
pub proof fn lemma_which_requests_mutate(request: ControlRequest)
    ensures
        request is ListAgents ==> !request.mutating(),
        request is GetAgent ==> !request.mutating(),
        request is LaunchAgent ==> request.mutating(),
        request is StopAgent ==> request.mutating(),
        request is Prompt ==> request.mutating(),
        request is Steer ==> request.mutating(),
        request is FollowUp ==> request.mutating(),
        request is Abort ==> request.mutating(),
        request is SwitchSession ==> request.mutating(),
        request is RespondToUi ==> request.mutating(),
        request is AcquireInteractionLease ==> request.mutating(),
        request is ReleaseInteractionLease ==> request.mutating(),
{
}

/// The server's answer to one request.
#[derive(Clone, Debug, PartialEq)]
pub struct ResponseEnvelope {
    pub request_id: RequestId,
    pub outcome: ResponseOutcome,
}

/// Whether a request succeeded, with its result or error.
#[derive(Clone, Debug, PartialEq)]
pub enum ResponseOutcome {
    Success(Box<ControlResponse>),
    Error(ProtocolError),
}

/// The result of a successful request.
#[derive(Clone, Debug, PartialEq)]
pub enum ControlResponse {
    Accepted,
    Agents { agents: Vec<AgentSnapshot> },
    Agent { agent: Box<AgentSnapshot> },
    PromptAccepted { run_id: RunId },
    InteractionLease { lease: InteractionLease },
    InteractionReleased,
}

/// Starts or resumes following one agent.
#[derive(Clone, Debug, PartialEq, Eq)]
pub struct SubscribeRequest {
    pub agent_id: AgentId,
    pub cursor: Option<SubscriptionCursor>,
}

/// Stops following one agent.
#[derive(Debug, PartialEq, Eq)]
pub struct UnsubscribeRequest {
    pub agent_id: AgentId,
}

/// A client's answer to an agent's interactive question, sent under its lease.
#[derive(Clone, Debug, PartialEq)]
pub struct UiResponseEnvelope {
    pub agent_id: AgentId,
    pub request_id: RequestId,
    pub operation_id: OperationId,
    pub holder: LeaseHolderId,
    pub response: ExtensionUiResponseFrame,
}

/// An agent's interactive question, at its place in the agent's update stream.
#[derive(Clone, Debug, PartialEq)]
pub struct UiInteractionEnvelope {
    pub agent_id: AgentId,
    pub event_sequence: EventSequence,
    pub request: ExtensionUiRequestFrame,
}

/// The full state of some agents.
#[derive(Clone, Debug, PartialEq)]
pub struct StateSnapshot {
    pub agents: Vec<AgentSnapshot>,
}

/// One state delta at its place in the agent's update stream.
#[derive(Clone, Debug, PartialEq)]
pub struct DeltaEnvelope {
    pub event_sequence: EventSequence,
    pub delta: StateDelta,
}

/// One agent event at its place in the agent's update stream.
#[derive(Clone, Debug, PartialEq)]
pub struct EventEnvelope<E> {
    pub agent_id: AgentId,
    pub event_sequence: EventSequence,
    pub event: E,
}

/// Notice that a subscriber missed updates and must take a fresh snapshot.
#[derive(Clone, Debug, PartialEq, Eq)]
pub struct ReplayGap {
    pub agent_id: AgentId,
    pub current_revision: StateRevision,
    pub current_event_sequence: EventSequence,
    pub reason: ReplayGapReason,
}

/// Why updates could not be replayed.
#[derive(Clone, Copy, Debug, PartialEq, Eq)]
pub enum ReplayGapReason {
    BufferExpired,
    NonContiguousCursor,
    SlowConsumer,
}

/// An error the server reports.
#[derive(Clone, Debug, PartialEq, Eq)]
pub struct ProtocolError {
    pub code: String,
    pub message: String,
    pub retryable: bool,
}

/// A liveness probe.
#[derive(Clone, Copy, Debug, PartialEq, Eq)]
pub struct Ping {
    pub nonce: u64,
}

/// The answer to a liveness probe.
#[derive(Clone, Copy, Debug, PartialEq, Eq)]
pub struct Pong {
    pub nonce: u64,
}

/// Notice that the server is going away, with when to come back.
#[derive(Clone, Debug, PartialEq, Eq)]
pub struct ServerShutdown {
    pub reason: String,
    pub reconnect_after_ms: Option<u64>,
}

/// What a paired device may do.
#[derive(Clone, Copy, Debug, PartialEq, Eq)]
pub struct DeviceScopes {
    pub observe: bool,
    pub prompt: bool,
    pub mutate_session: bool,
    pub stop_agent: bool,
    pub answer_ui: bool,
    pub administer_devices: bool,
}

impl DeviceScopes {
    /// Every scope granted.
    pub fn all() -> (r: Self)
        ensures
            r.observe && r.prompt && r.mutate_session && r.stop_agent && r.answer_ui
                && r.administer_devices,
    {
        DeviceScopes {
            observe: true,
            prompt: true,
            mutate_session: true,
            stop_agent: true,
            answer_ui: true,
            administer_devices: true,
        }
    }
}

/// A paired device as the server lists it.
#[derive(Clone, Debug, PartialEq, Eq)]
pub struct DeviceSummary {
    pub device_id: DeviceId,
    pub name: String,
    pub platform: ClientPlatform,
    pub scopes: DeviceScopes,
    pub created_at_ms: u64,
    pub last_seen_at_ms: Option<u64>,
    pub revoked_at_ms: Option<u64>,
}

/// The credential a server issues to a newly paired device.
#[derive(PartialEq, Eq)]
pub struct DeviceCredential {
    pub server_id: ServerId,
    pub device_id: DeviceId,
    pub token: DeviceToken,
    pub scopes: DeviceScopes,
}

impl Clone for DeviceCredential {
    fn clone(&self) -> (r: Self)
        ensures
            r == *self,
    {
        DeviceCredential {
            server_id: self.server_id.clone(),
            device_id: self.device_id.clone(),
            token: self.token.clone(),
            scopes: self.scopes,
        }
    }
}

/// Everything a client needs to pair with a server once.
#[derive(PartialEq, Eq)]
pub struct PairingBundle {
    pub format_version: u16,
    pub server_id: ServerId,
    pub endpoint: String,
    pub pairing_id: PairingId,
    pub secret: PairingSecret,
    pub expires_at_ms: u64,
    pub tls_identity: TlsIdentityHint,
}

/// How a client should trust the server's TLS identity.
#[derive(Debug, PartialEq, Eq)]
pub enum TlsIdentityHint {
    PubliclyTrusted,
    InsecureDevelopment,
    Sha256Fingerprint(String),
}

/// The content of a TLS identity hint.
pub enum TlsIdentityHintView {
    PubliclyTrusted,
    InsecureDevelopment,
    Sha256Fingerprint(Seq<char>),
}

impl View for TlsIdentityHint {
    type V = TlsIdentityHintView;

    open spec fn view(&self) -> TlsIdentityHintView {
        match self {
            TlsIdentityHint::PubliclyTrusted => TlsIdentityHintView::PubliclyTrusted,
            TlsIdentityHint::InsecureDevelopment => TlsIdentityHintView::InsecureDevelopment,
            TlsIdentityHint::Sha256Fingerprint(f) => TlsIdentityHintView::Sha256Fingerprint(f@),
        }
    }
}

impl Clone for TlsIdentityHint {
    fn clone(&self) -> (r: Self)
        ensures
            r@ == self@,
    {
        match self {
            TlsIdentityHint::PubliclyTrusted => TlsIdentityHint::PubliclyTrusted,
            TlsIdentityHint::InsecureDevelopment => TlsIdentityHint::InsecureDevelopment,
            TlsIdentityHint::Sha256Fingerprint(f) => TlsIdentityHint::Sha256Fingerprint(
                f.clone(),
            ),
        }
    }
}

/// The common texts are those of `available` that `requested` holds, and
/// they repeat none when `available` repeats none.
pub proof fn lemma_common_texts(available: Seq<Seq<char>>, requested: Seq<Seq<char>>)
    ensures
        forall|x: Seq<char>|
            common_texts(available, requested).contains(x) <==> available.contains(x)
                && requested.contains(x),
        available.no_duplicates() ==> common_texts(available, requested).no_duplicates(),
    decreases available.len(),
{
    if available.len() > 0 {
        let rest = available.drop_last();
        lemma_common_texts(rest, requested);
        let last = available.last();
        assert forall|x: Seq<char>| available.contains(x) <==> rest.contains(x) || x == last by {
            if available.contains(x) {
                let k = choose|k: int| 0 <= k < available.len() && available[k] == x;
                if k < available.len() - 1 {
                    assert(rest[k] == x);
                }
            }
            if rest.contains(x) {
                let k = choose|k: int| 0 <= k < rest.len() && rest[k] == x;
                assert(available[k] == x);
            }
            if x == last {
                assert(available[available.len() - 1] == x);
            }
        }
        let common = common_texts(available, requested);
        let before = common_texts(rest, requested);
        assert forall|x: Seq<char>| common.contains(x) <==> available.contains(x) && requested.contains(x) by {
            if requested.contains(last) {
                assert(common == before.push(last));
                if common.contains(x) {
                    let k = choose|k: int| 0 <= k < common.len() && common[k] == x;
                    if k < before.len() {
                        assert(before[k] == x);
                    }
                }
                if before.contains(x) {
                    let k = choose|k: int| 0 <= k < before.len() && before[k] == x;
                    assert(common[k] == x);
                }
                if x == last {
                    assert(common[common.len() - 1] == x);
                }
            }
        }
        if available.no_duplicates() {
            assert(rest.no_duplicates()) by {
                assert forall|i: int, j: int| 0 <= i < rest.len() && 0 <= j < rest.len() && i != j implies rest[i] != rest[j] by {
                    assert(rest[i] == available[i] && rest[j] == available[j]);
                }
            }
            if requested.contains(last) {
                assert(!rest.contains(last)) by {
                    if rest.contains(last) {
                        let k = choose|k: int| 0 <= k < rest.len() && rest[k] == last;
                        assert(available[k] == available[available.len() - 1]);
                    }
                }
                assert(!before.contains(last));
                assert forall|i: int, j: int| 0 <= i < common.len() && 0 <= j < common.len() && i != j implies common[i] != common[j] by {
                    if i < before.len() && j < before.len() {
                    } else if i < before.len() {
                        assert(common[i] == before[i]);
                    } else {
                        assert(common[j] == before[j]);
                    }
                }
            }
        }
    }
}

} // verus!
