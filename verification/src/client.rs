use vstd::prelude::*;

use base64::engine::general_purpose::URL_SAFE_NO_PAD;
use base64::Engine;

use crate::ids::{AgentId, DeviceId, LeaseHolderId, OperationId, RequestId, ServerId};
use crate::protocol::{
    ClientAuthentication, ClientFrame, ControlRequest, ControlResponse, DeviceCredential,
    EventEnvelope, ProtocolError, ProtocolVersion, RequestEnvelope, ResponseOutcome, ServerFrame,
    ResponseEnvelope, ServerWelcome, StateSnapshot, UiInteractionEnvelope, UiResponseEnvelope,
};
use crate::reducer::{ReplicationEffect, ReplicationError};
use crate::rpc::ExtensionUiResponseFrame;
use crate::text::{decimal, digit_char, push_decimal};

verus! {

/// Where the client's connection stands.
#[derive(Clone, Debug, PartialEq, Eq)]
pub enum ConnectionStatus {
    Disconnected { reason: Option<String> },
    Connecting,
    Connected { server_id: ServerId, device_id: DeviceId, protocol_version: ProtocolVersion },
    Stopped { reason: Option<String> },
}

/// What the client tells its subscribers; `E` is the agent event payload.
pub enum ClientEvent<E> {
    ConnectionChanged(ConnectionStatus),
    StateChanged(AgentId),
    AgentEvent(EventEnvelope<E>),
    InteractionRequest(UiInteractionEnvelope),
    ResyncRequired(AgentId),
    ProtocolError(ProtocolError),
    ReplicationError(ReplicationError),
}

/// Why a request through the client failed.
#[derive(Clone, Debug, PartialEq, Eq)]
pub enum RequestError {
    ClientStopped,
    IdentifierSpaceExhausted,
    InvalidRequest(String),
    Protocol(ProtocolError),
}

/// The human-readable message of a request error.
pub open spec fn request_error_text(error: RequestError) -> Seq<char> {
    match error {
        RequestError::ClientStopped => "control client has stopped"@,
        RequestError::IdentifierSpaceExhausted => "control client identifier space is exhausted"@,
        RequestError::InvalidRequest(message) => message@,
        RequestError::Protocol(error) => error.message@,
    }
}

impl RequestError {
    /// The human-readable message of the error.
    pub fn to_string(&self) -> (r: String)
        ensures
            r@ == request_error_text(*self),
    {
        match self {
            RequestError::ClientStopped => String::from_str("control client has stopped"),
            RequestError::IdentifierSpaceExhausted => String::from_str(
                "control client identifier space is exhausted",
            ),
            RequestError::InvalidRequest(message) => message.clone(),
            RequestError::Protocol(error) => error.message.clone(),
        }
    }
}

/// Why the client stopped running.
#[derive(Clone, Debug, PartialEq, Eq)]
pub enum ClientRunError {
    CredentialUnavailable,
    CredentialServerMismatch,
    CredentialStorage(String),
    ServerIdentityMismatch,
    Protocol(String),
    Transport(String),
}

/// The content of a run error.
pub enum ClientRunErrorView {
    CredentialUnavailable,
    CredentialServerMismatch,
    CredentialStorage(Seq<char>),
    ServerIdentityMismatch,
    Protocol(Seq<char>),
    Transport(Seq<char>),
}

impl View for ClientRunError {
    type V = ClientRunErrorView;

    open spec fn view(&self) -> ClientRunErrorView {
        match self {
            ClientRunError::CredentialUnavailable => ClientRunErrorView::CredentialUnavailable,
            ClientRunError::CredentialServerMismatch =>
                ClientRunErrorView::CredentialServerMismatch,
            ClientRunError::CredentialStorage(e) => ClientRunErrorView::CredentialStorage(e@),
            ClientRunError::ServerIdentityMismatch => ClientRunErrorView::ServerIdentityMismatch,
            ClientRunError::Protocol(e) => ClientRunErrorView::Protocol(e@),
            ClientRunError::Transport(e) => ClientRunErrorView::Transport(e@),
        }
    }
}

impl ClientRunError {
    /// The human-readable message of the error.
    pub fn to_string(&self) -> (r: String)
        ensures
            r@ == match self {
                ClientRunError::CredentialUnavailable =>
                    "no device credential is stored for this server"@,
                ClientRunError::CredentialServerMismatch =>
                    "device credential does not match the connected server"@,
                ClientRunError::CredentialStorage(error) => "device credential storage failed: "@
                    + error@,
                ClientRunError::ServerIdentityMismatch =>
                    "connected server identity does not match the configured server"@,
                ClientRunError::Protocol(error) => "control protocol failed: "@ + error@,
                ClientRunError::Transport(error) => "WebSocket transport failed: "@ + error@,
            },
    {
        match self {
            ClientRunError::CredentialUnavailable => String::from_str(
                "no device credential is stored for this server",
            ),
            ClientRunError::CredentialServerMismatch => String::from_str(
                "device credential does not match the connected server",
            ),
            ClientRunError::CredentialStorage(error) => {
                let mut out = String::from_str("device credential storage failed: ");
                out.append(error.as_str());
                out
            },
            ClientRunError::ServerIdentityMismatch => String::from_str(
                "connected server identity does not match the configured server",
            ),
            ClientRunError::Protocol(error) => {
                let mut out = String::from_str("control protocol failed: ");
                out.append(error.as_str());
                out
            },
            ClientRunError::Transport(error) => {
                let mut out = String::from_str("WebSocket transport failed: ");
                out.append(error.as_str());
                out
            },
        }
    }
}

/// Why a client could not be built.
#[derive(Clone, Debug, PartialEq, Eq)]
pub enum ClientBuildError {
    Random(String),
}

impl ClientBuildError {
    /// The human-readable message of the error.
    pub fn to_string(&self) -> (r: String)
        ensures
            match self {
                ClientBuildError::Random(error) => r@ == "secure client ID generation failed: "@
                    + error@,
            },
    {
        match self {
            ClientBuildError::Random(error) => {
                let mut out = String::from_str("secure client ID generation failed: ");
                out.append(error.as_str());
                out
            },
        }
    }
}

/// A mutating request must carry an operation identifier and a read-only one
/// must not.
pub fn validate_operation_id(request: &ControlRequest, operation_id: Option<&OperationId>) -> (r:
    Result<(), RequestError>)
    ensures
        request.mutating() && operation_id is None ==> (r matches Err(
            RequestError::InvalidRequest(message),
        ) && message@ == "mutating requests require an operation ID"@),
        !request.mutating() && operation_id is Some ==> (r matches Err(
            RequestError::InvalidRequest(message),
        ) && message@ == "read-only requests cannot carry an operation ID"@),
        r is Ok <==> (request.mutating() == operation_id is Some),
{
    let mutating = request.is_mutating();
    let present = operation_id.is_some();
    if mutating && !present {
        return Err(
            RequestError::InvalidRequest(
                String::from_str("mutating requests require an operation ID"),
            ),
        );
    }
    if !mutating && present {
        return Err(
            RequestError::InvalidRequest(
                String::from_str("read-only requests cannot carry an operation ID"),
            ),
        );
    }
    Ok(())
}

/// The agent a replicated frame is about, where it names exactly one.
pub fn frame_agent_id<E>(frame: &ServerFrame<E>) -> (r: Option<AgentId>)
    ensures
        match frame {
            ServerFrame::Delta(envelope) => r == Some(envelope.delta.agent_id),
            ServerFrame::Event(envelope) => r == Some(envelope.agent_id),
            ServerFrame::InteractionRequest(envelope) => r == Some(envelope.agent_id),
            ServerFrame::ReplayGap(gap) => r == Some(gap.agent_id),
            ServerFrame::Snapshot(snapshot) => if snapshot.agents.len() == 1 {
                r == Some(snapshot.agents@[0].agent_id)
            } else {
                r is None
            },
            _ => r is None,
        },
{
    match frame {
        ServerFrame::Delta(envelope) => Some(envelope.delta.agent_id.clone()),
        ServerFrame::Event(envelope) => Some(envelope.agent_id.clone()),
        ServerFrame::InteractionRequest(envelope) => Some(envelope.agent_id.clone()),
        ServerFrame::ReplayGap(gap) => Some(gap.agent_id.clone()),
        ServerFrame::Snapshot(snapshot) => {
            if snapshot.agents.len() == 1 {
                Some(snapshot.agents[0].agent_id.clone())
            } else {
                None
            }
        },
        _ => None,
    }
}

/// How a device authenticates with the credential it was issued.
pub fn device_authentication(credential: &DeviceCredential) -> (r: ClientAuthentication)
    ensures
        r == (ClientAuthentication::Device {
            device_id: credential.device_id,
            token: credential.token,
        }),
{
    ClientAuthentication::Device {
        device_id: credential.device_id.clone(),
        token: credential.token.clone(),
    }
}

/// Decides how a client with a stored credential authenticates, given what
/// its credential store returned for `server_id` (or the text of the store's
/// error): a store error, a missing credential and a credential of another
/// server each fail the run.
pub fn stored_authentication(
    server_id: &ServerId,
    loaded: Result<Option<DeviceCredential>, String>,
) -> (r: Result<(ClientAuthentication, DeviceCredential), ClientRunError>)
    ensures
        match loaded {
            Err(text) => (r matches Err(e) && e@ == ClientRunErrorView::CredentialStorage(text@)),
            Ok(None) => (r matches Err(e) && e@ == ClientRunErrorView::CredentialUnavailable),
            Ok(Some(credential)) => if credential.server_id@ == server_id@ {
                r matches Ok((authentication, kept)) && kept == credential && authentication
                    == (ClientAuthentication::Device {
                    device_id: credential.device_id,
                    token: credential.token,
                })
            } else {
                r matches Err(e) && e@ == ClientRunErrorView::CredentialServerMismatch
            },
        },
{
    match loaded {
        Err(text) => Err(ClientRunError::CredentialStorage(text)),
        Ok(None) => Err(ClientRunError::CredentialUnavailable),
        Ok(Some(credential)) => {
            if !(credential.server_id == *server_id) {
                return Err(ClientRunError::CredentialServerMismatch);
            }
            let authentication = device_authentication(&credential);
            Ok((authentication, credential))
        },
    }
}

/// Why a server's welcome is refused, if it is: another protocol version,
/// another server, a pairing welcome without a credential for this server
/// and device, or a device welcome for another device.
pub open spec fn welcome_fault(
    server_id: Seq<char>,
    authentication: ClientAuthentication,
    welcome: ServerWelcome,
) -> Option<ClientRunErrorView> {
    if welcome.protocol_version.0 != 1 {
        Some(ClientRunErrorView::Protocol("server selected an unsupported protocol version"@))
    } else if welcome.server_id@ != server_id {
        Some(ClientRunErrorView::ServerIdentityMismatch)
    } else {
        match authentication {
            ClientAuthentication::Pair { .. } => match welcome.issued_credential {
                None => Some(
                    ClientRunErrorView::Protocol(
                        "pairing welcome did not include a device credential"@,
                    ),
                ),
                Some(credential) => if credential.server_id@ != server_id
                    || credential.device_id@ != welcome.device_id@ {
                    Some(ClientRunErrorView::CredentialServerMismatch)
                } else {
                    None
                },
            },
            ClientAuthentication::Device { device_id, .. } => if device_id@
                != welcome.device_id@ {
                Some(ClientRunErrorView::CredentialServerMismatch)
            } else {
                None
            },
        }
    }
}

/// Checks a server's welcome against the configured server and the way the
/// client authenticated. On success, says whether the welcome's issued
/// credential is to be stored: exactly when the client paired.
pub fn review_welcome(
    server_id: &ServerId,
    authentication: &ClientAuthentication,
    welcome: &ServerWelcome,
) -> (r: Result<bool, ClientRunError>)
    ensures
        match welcome_fault(server_id@, *authentication, *welcome) {
            Some(e) => (r matches Err(err) && err@ == e),
            None => r == Ok::<bool, ClientRunError>(authentication is Pair),
        },
{
    if welcome.protocol_version.0 != 1 {
        return Err(
            ClientRunError::Protocol(
                String::from_str("server selected an unsupported protocol version"),
            ),
        );
    }
    if !(welcome.server_id == *server_id) {
        return Err(ClientRunError::ServerIdentityMismatch);
    }
    match authentication {
        ClientAuthentication::Pair { .. } => match &welcome.issued_credential {
            None => Err(
                ClientRunError::Protocol(
                    String::from_str("pairing welcome did not include a device credential"),
                ),
            ),
            Some(credential) => {
                if !(credential.server_id == *server_id) || !(credential.device_id
                    == welcome.device_id) {
                    return Err(ClientRunError::CredentialServerMismatch);
                }
                Ok(true)
            },
        },
        ClientAuthentication::Device { device_id, .. } => {
            if !(*device_id == welcome.device_id) {
                return Err(ClientRunError::CredentialServerMismatch);
            }
            Ok(false)
        },
    }
}

/// The frame limit of an authenticated connection: the smaller of what the
/// server advertised and the client's own limit, which must not be zero.
pub fn negotiated_frame_limit(advertised: u32, own_limit: u32) -> (r: Result<u32, ClientRunError>)
    ensures
        ({
            let limit = if advertised <= own_limit {
                advertised
            } else {
                own_limit
            };
            if limit == 0 {
                r matches Err(e) && e@ == ClientRunErrorView::Protocol(
                    "server advertised a zero-byte frame limit"@,
                )
            } else {
                r == Ok::<u32, ClientRunError>(limit)
            }
        }),
{
    let limit = if advertised <= own_limit {
        advertised
    } else {
        own_limit
    };
    if limit == 0 {
        return Err(
            ClientRunError::Protocol(String::from_str("server advertised a zero-byte frame limit")),
        );
    }
    Ok(limit)
}

/// What a client keeps of a welcome it accepted: the welcome without its
/// issued credential, the credential to store (exactly when the client
/// paired), and the connection's frame limit or why there is none.
pub struct AcceptedWelcome {
    pub welcome: ServerWelcome,
    pub credential_to_save: Option<DeviceCredential>,
    pub frame_limit: Result<u32, ClientRunError>,
}

/// The smaller of the server's advertised frame limit and the client's own.
pub open spec fn smaller_limit(advertised: u32, own_limit: u32) -> u32 {
    if advertised <= own_limit {
        advertised
    } else {
        own_limit
    }
}

/// The handshake's decision on the server's welcome: it is refused as
/// `welcome_fault` says; otherwise the credential a pairing welcome issued is
/// handed over to be stored before anything else, the welcome is kept
/// without it, and the frame limit is the smaller of the server's and the
/// client's own, refused when it is zero.
pub fn accept_welcome(
    server_id: &ServerId,
    authentication: &ClientAuthentication,
    welcome: ServerWelcome,
    own_limit: u32,
) -> (r: Result<AcceptedWelcome, ClientRunError>)
    ensures
        match welcome_fault(server_id@, *authentication, welcome) {
            Some(e) => (r matches Err(err) && err@ == e),
            None => (r matches Ok(accepted) && accepted.welcome == (ServerWelcome {
                issued_credential: None,
                ..welcome
            }) && accepted.credential_to_save == (if authentication is Pair {
                welcome.issued_credential
            } else {
                None::<DeviceCredential>
            }) && (if smaller_limit(welcome.capabilities.max_frame_bytes, own_limit) == 0 {
                accepted.frame_limit matches Err(e) && e@ == ClientRunErrorView::Protocol(
                    "server advertised a zero-byte frame limit"@,
                )
            } else {
                accepted.frame_limit == Ok::<u32, ClientRunError>(
                    smaller_limit(welcome.capabilities.max_frame_bytes, own_limit),
                )
            })),
        },
{
    let paired = review_welcome(server_id, authentication, &welcome)?;
    let frame_limit = negotiated_frame_limit(welcome.capabilities.max_frame_bytes, own_limit);
    let mut kept = welcome;
    let issued = kept.issued_credential.take();
    let credential_to_save = if paired {
        issued
    } else {
        None
    };
    Ok(AcceptedWelcome { welcome: kept, credential_to_save, frame_limit })
}

/// The status of a connection the server welcomed.
pub fn connected_status(welcome: &ServerWelcome) -> (r: ConnectionStatus)
    ensures
        r == (ConnectionStatus::Connected {
            server_id: welcome.server_id,
            device_id: welcome.device_id,
            protocol_version: welcome.protocol_version,
        }),
{
    ConnectionStatus::Connected {
        server_id: welcome.server_id.clone(),
        device_id: welcome.device_id.clone(),
        protocol_version: welcome.protocol_version,
    }
}

/// What a request's caller receives for the server's outcome.
pub fn response_result(outcome: ResponseOutcome) -> (r: Result<ControlResponse, RequestError>)
    ensures
        match outcome {
            ResponseOutcome::Success(response) => r == Ok::<ControlResponse, RequestError>(
                *response,
            ),
            ResponseOutcome::Error(error) => r == Err::<ControlResponse, RequestError>(
                RequestError::Protocol(error),
            ),
        },
{
    match outcome {
        ResponseOutcome::Success(response) => Ok(*response),
        ResponseOutcome::Error(error) => Err(RequestError::Protocol(error)),
    }
}

/// The error reported for a response that matches no request in flight.
pub fn unexpected_response() -> (r: ProtocolError)
    ensures
        r.code@ == "unexpected_response"@,
        r.message@ == "server response did not match an in-flight request"@,
        !r.retryable,
{
    ProtocolError {
        code: String::from_str("unexpected_response"),
        message: String::from_str("server response did not match an in-flight request"),
        retryable: false,
    }
}

/// The identifier a client gives its `counter`-th request or operation of
/// kind `kind`: the kind, the client's random prefix and the counter.
pub open spec fn generated_id(kind: Seq<char>, prefix: Seq<char>, counter: u64) -> Seq<char> {
    kind + "-"@ + prefix + "-"@ + decimal(counter as nat)
}

/// What base64's `URL_SAFE_NO_PAD` engine encodes `bytes` to.
pub uninterp spec fn url_safe_base64_encoding(bytes: Seq<u8>) -> Seq<char>;

/// Encodes `bytes` with base64's `URL_SAFE_NO_PAD` engine (`Engine::encode`);
/// the result is named, not described.
#[verifier::external_body]
fn encode_url_safe_base64(bytes: &[u8]) -> (r: String)
    ensures
        r@ == url_safe_base64_encoding(bytes@),
{
    URL_SAFE_NO_PAD.encode(bytes)
}

/// Fills `bytes` from the operating system's secure random source with
/// `getrandom::fill`, or gives the text of its error. What the bytes are is
/// left open: they are chance.
#[verifier::external_body]
fn fill_random(bytes: &mut [u8; 16]) -> (r: Result<(), String>) {
    match getrandom::fill(bytes) {
        Ok(()) => Ok(()),
        Err(error) => Err(error.to_string()),
    }
}

/// The generator ran out of identifiers.
#[derive(Clone, Copy, Debug, PartialEq, Eq)]
pub enum IdGenerationError {
    Exhausted,
}

impl IdGenerationError {
    /// The human-readable message of the error.
    pub fn to_string(&self) -> (r: String)
        ensures
            r@ == "control client identifier space is exhausted"@,
    {
        String::from_str("control client identifier space is exhausted")
    }
}

/// Hands out request and operation identifiers that share a random prefix
/// and count up.
#[derive(Debug)]
pub struct IdGenerator {
    prefix: String,
    counter: u64,
}

impl IdGenerator {
    /// The random prefix of the identifiers.
    pub closed spec fn prefix_text(&self) -> Seq<char> {
        self.prefix@
    }

    /// The counter of the next identifier.
    pub closed spec fn next_counter(&self) -> u64 {
        self.counter
    }

    /// A generator whose prefix is the base64url text of `random`.
    pub fn from_random(random: &[u8; 16]) -> (r: Self)
        ensures
            r.prefix_text() == url_safe_base64_encoding(random@),
            r.next_counter() == 0,
    {
        IdGenerator { prefix: encode_url_safe_base64(random.as_slice()), counter: 0 }
    }

    /// A generator with a fresh random prefix: the base64url text of sixteen
    /// bytes from the secure random source.
    pub fn new() -> (r: Result<Self, ClientBuildError>)
        ensures
            r matches Ok(generator) ==> generator.next_counter() == 0 && exists|random: Seq<u8>|
                random.len() == 16 && generator.prefix_text() == url_safe_base64_encoding(random),
            r is Err ==> r matches Err(ClientBuildError::Random(_)),
    {
        let mut random: [u8; 16] = [0u8; 16];
        match fill_random(&mut random) {
            Ok(()) => {
                let generator = IdGenerator::from_random(&random);
                proof {
                    assert(random@.len() == 16);
                }
                Ok(generator)
            },
            Err(error) => Err(ClientBuildError::Random(error)),
        }
    }

    /// The next identifier of kind `kind`, `<kind>-<prefix>-<counter>`, or an
    /// error once the counter cannot advance.
    pub fn next(&mut self, kind: &str) -> (r: Result<String, IdGenerationError>)
        ensures
            final(self).prefix_text() == old(self).prefix_text(),
            old(self).next_counter() == u64::MAX ==> r == Err::<String, IdGenerationError>(
                IdGenerationError::Exhausted,
            ) && final(self).next_counter() == old(self).next_counter(),
            old(self).next_counter() < u64::MAX ==> (r matches Ok(id) && id@ == generated_id(
                kind@,
                old(self).prefix_text(),
                old(self).next_counter(),
            ) && final(self).next_counter() == old(self).next_counter() + 1),
    {
        let counter = self.counter;
        if counter == u64::MAX {
            return Err(IdGenerationError::Exhausted);
        }
        self.counter = counter + 1;
        let mut out = String::from_str(kind);
        out.append("-");
        out.append(self.prefix.as_str());
        out.append("-");
        push_decimal(&mut out, counter);
        Ok(out)
    }
}

/// The number of decimal digits of `n` is at least one.
proof fn lemma_decimal_nonempty(n: nat)
    ensures
        decimal(n).len() >= 1,
        n >= 10 ==> decimal(n).len() >= 2,
    decreases n,
{
    if n >= 10 {
        lemma_decimal_nonempty(n / 10);
    }
}

/// Different digits have different characters.
proof fn lemma_digit_char_injective(x: nat, y: nat)
    requires
        x < 10,
        y < 10,
        digit_char(x) == digit_char(y),
    ensures
        x == y,
{
}

/// Different numbers have different decimal renderings.
pub proof fn lemma_decimal_injective(a: nat, b: nat)
    requires
        decimal(a) == decimal(b),
    ensures
        a == b,
    decreases a + b,
{
    lemma_decimal_nonempty(a);
    lemma_decimal_nonempty(b);
    if a < 10 && b < 10 {
        assert(decimal(a)[0] == digit_char(a));
        assert(decimal(b)[0] == digit_char(b));
        lemma_digit_char_injective(a, b);
    } else if a >= 10 && b >= 10 {
        let da = decimal(a);
        let db = decimal(b);
        assert(da.drop_last() =~= decimal(a / 10));
        assert(db.drop_last() =~= decimal(b / 10));
        lemma_decimal_injective(a / 10, b / 10);
        assert(da.last() == digit_char(a % 10));
        assert(db.last() == digit_char(b % 10));
        lemma_digit_char_injective(a % 10, b % 10);
    }
}

/// The generator never hands out one identifier twice: identifiers of one
/// kind and prefix with different counters differ.
pub proof fn lemma_generated_ids_differ(kind: Seq<char>, prefix: Seq<char>, first: u64, second: u64)
    requires
        first != second,
    ensures
        generated_id(kind, prefix, first) != generated_id(kind, prefix, second),
{
    let head = kind + "-"@ + prefix + "-"@;
    if generated_id(kind, prefix, first) == generated_id(kind, prefix, second) {
        assert(generated_id(kind, prefix, first).subrange(
            head.len() as int,
            generated_id(kind, prefix, first).len() as int,
        ) =~= decimal(first as nat));
        assert(generated_id(kind, prefix, second).subrange(
            head.len() as int,
            generated_id(kind, prefix, second).len() as int,
        ) =~= decimal(second as nat));
        lemma_decimal_injective(first as nat, second as nat);
    }
}

/// What a connected client does with a frame from the server.
pub enum FrameAction<E> {
    /// Completes the request the response answers.
    Complete(ResponseEnvelope),
    /// Tells subscribers about a protocol error.
    Report(ProtocolError),
    /// Nothing.
    Ignore,
    /// Drops the connection and reconnects, after `after_ms` when the server said so.
    Reconnect { reason: Option<String>, after_ms: Option<u64> },
    /// Stops the client.
    Fatal(ClientRunError),
    /// Applies the frame to the replicated state.
    Replicate(ServerFrame<E>),
}

/// Decides what a connected client does with `frame`: responses complete
/// requests, errors are reported, pongs ignored, a shutdown notice ends the
/// connection, a second welcome stops the client, and the rest is state to
/// replicate.
pub fn server_frame_action<E>(frame: ServerFrame<E>) -> (r: FrameAction<E>)
    ensures
        match frame {
            ServerFrame::Response(response) => r == FrameAction::<E>::Complete(response),
            ServerFrame::Error(error) => r == FrameAction::<E>::Report(error),
            ServerFrame::Pong(_) => r is Ignore,
            ServerFrame::ServerShutdown(shutdown) => (r matches FrameAction::Reconnect {
                reason,
                after_ms,
            } && reason == Some(shutdown.reason) && after_ms == shutdown.reconnect_after_ms),
            ServerFrame::Welcome(_) => (r matches FrameAction::Fatal(e) && e@
                == ClientRunErrorView::Protocol("server sent a second welcome frame"@)),
            _ => r == FrameAction::<E>::Replicate(frame),
        },
{
    match frame {
        ServerFrame::Response(response) => FrameAction::Complete(response),
        ServerFrame::Error(error) => FrameAction::Report(error),
        ServerFrame::Pong(_) => FrameAction::Ignore,
        ServerFrame::ServerShutdown(shutdown) => FrameAction::Reconnect {
            reason: Some(shutdown.reason),
            after_ms: shutdown.reconnect_after_ms,
        },
        ServerFrame::Welcome(_) => {
            let message = String::from_str("server sent a second welcome frame");
            proof {
                reveal_strlit("server sent a second welcome frame");
            }
            FrameAction::Fatal(ClientRunError::Protocol(message))
        },
        other => FrameAction::Replicate(other),
    }
}

/// The welcome a handshake expects as the server's first frame; any other
/// frame stops the client.
pub fn expect_welcome<E>(frame: ServerFrame<E>) -> (r: Result<ServerWelcome, ClientRunError>)
    ensures
        match frame {
            ServerFrame::Welcome(welcome) => r == Ok::<ServerWelcome, ClientRunError>(welcome),
            _ => (r matches Err(e) && e@ == ClientRunErrorView::Protocol(
                "server did not send welcome as its first frame"@,
            )),
        },
{
    match frame {
        ServerFrame::Welcome(welcome) => Ok(welcome),
        _ => {
            proof {
                reveal_strlit("server did not send welcome as its first frame");
            }
            Err(
                ClientRunError::Protocol(
                    String::from_str("server did not send welcome as its first frame"),
                ),
            )
        },
    }
}

/// What subscribers hear of a replication effect, and the agent to
/// subscribe to again, without resuming, when the effect asks for a resync.
pub fn effect_event<E>(effect: ReplicationEffect<E>) -> (r: (ClientEvent<E>, Option<AgentId>))
    ensures
        match effect {
            ReplicationEffect::StateChanged(agent_id) => r == (
            ClientEvent::<E>::StateChanged(agent_id),
            None::<AgentId>,
            ),
            ReplicationEffect::Event(event) => r == (ClientEvent::<E>::AgentEvent(event), None::<AgentId>),
            ReplicationEffect::Interaction(interaction) => r == (
            ClientEvent::<E>::InteractionRequest(interaction),
            None::<AgentId>,
            ),
            ReplicationEffect::ResyncRequired(agent_id) => r == (
            ClientEvent::<E>::ResyncRequired(agent_id),
            Some(agent_id),
            ),
        },
{
    match effect {
        ReplicationEffect::StateChanged(agent_id) => (ClientEvent::StateChanged(agent_id), None),
        ReplicationEffect::Event(event) => (ClientEvent::AgentEvent(event), None),
        ReplicationEffect::Interaction(interaction) => (
            ClientEvent::InteractionRequest(interaction),
            None,
        ),
        ReplicationEffect::ResyncRequired(agent_id) => {
            let again = agent_id.clone();
            (ClientEvent::ResyncRequired(agent_id), Some(again))
        },
    }
}

/// The wait before the next connection attempt: what the server asked for
/// when it did, else the current backoff delay.
pub fn reconnect_wait_ms(after_ms: Option<u64>, current_ms: u64) -> (r: u64)
    ensures
        r == match after_ms {
            Some(ms) => ms,
            None => current_ms,
        },
{
    match after_ms {
        Some(ms) => ms,
        None => current_ms,
    }
}

} // verus!
