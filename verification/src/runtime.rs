use vstd::prelude::*;

use crate::assoc::{
    assoc_map, distinct_keys, lemma_assoc_domain, lemma_assoc_get, lemma_assoc_len, lemma_assoc_push,
    lemma_assoc_remove, lemma_assoc_update,
};
use crate::rpc::{same_request_id, RequestId};
use crate::text::{decimal, push_decimal};

verus! {

/// How the agent process ended.
#[derive(Clone, Copy, Debug, PartialEq, Eq)]
pub struct RuntimeExit {
    pub code: Option<i32>,
    pub success: bool,
    pub forced: bool,
}

/// Whether the agent process runs, has exited or has failed.
#[derive(Clone, Debug, PartialEq, Eq)]
pub enum RuntimeStatus {
    Running { process_id: u32 },
    Exited(RuntimeExit),
    Failed(String),
}

/// Who completed a prompt: the process itself, without the agent, or the agent.
#[derive(Clone, Copy, Debug, PartialEq, Eq)]
pub enum PromptCompletion {
    Local,
    Agent,
}

/// Where the latest prompt stands.
#[derive(Clone, Debug, PartialEq, Eq)]
pub enum PromptPhase {
    Submitted,
    Running,
    Completed(PromptCompletion),
    Failed(String),
}

/// The content of a prompt phase.
pub enum PromptPhaseView {
    Submitted,
    Running,
    Completed(PromptCompletion),
    Failed(Seq<char>),
}

impl View for PromptPhase {
    type V = PromptPhaseView;

    open spec fn view(&self) -> PromptPhaseView {
        match self {
            PromptPhase::Submitted => PromptPhaseView::Submitted,
            PromptPhase::Running => PromptPhaseView::Running,
            PromptPhase::Completed(completion) => PromptPhaseView::Completed(*completion),
            PromptPhase::Failed(error) => PromptPhaseView::Failed(error@),
        }
    }
}

/// The latest prompt and where it stands.
#[derive(Debug, PartialEq, Eq)]
pub struct PromptStatus {
    pub request_id: RequestId,
    pub phase: PromptPhase,
}

/// The content of a prompt status.
pub struct PromptStatusView {
    pub request_id: Seq<char>,
    pub phase: PromptPhaseView,
}

impl View for PromptStatus {
    type V = PromptStatusView;

    open spec fn view(&self) -> PromptStatusView {
        PromptStatusView { request_id: self.request_id@, phase: self.phase@ }
    }
}

impl Clone for PromptStatus {
    fn clone(&self) -> (r: Self)
        ensures
            r@ == self@,
    {
        let phase = match &self.phase {
            PromptPhase::Submitted => PromptPhase::Submitted,
            PromptPhase::Running => PromptPhase::Running,
            PromptPhase::Completed(completion) => PromptPhase::Completed(*completion),
            PromptPhase::Failed(error) => PromptPhase::Failed(error.clone()),
        };
        PromptStatus { request_id: self.request_id.clone(), phase }
    }
}

/// What a frame from the agent process says about the latest prompt.
#[derive(Debug, PartialEq, Eq)]
pub enum PromptSignal {
    /// An error response, with the request it answers.
    ResponseError { id: Option<RequestId>, error: String },
    /// A success response, with the request it answers and, for an
    /// acknowledged prompt, whether the agent was invoked.
    ResponseSuccess { id: Option<RequestId>, prompt_acknowledged: Option<bool> },
    /// The late hint of how a prompt was handled.
    PromptResult { id: Option<RequestId>, agent_invoked: bool },
    /// The agent started working.
    AgentStart,
    /// The agent finished working.
    AgentEnd,
    /// Anything else.
    Other,
}

/// The content of a prompt signal.
pub enum PromptSignalView {
    ResponseError { id: Option<Seq<char>>, error: Seq<char> },
    ResponseSuccess { id: Option<Seq<char>>, prompt_acknowledged: Option<bool> },
    PromptResult { id: Option<Seq<char>>, agent_invoked: bool },
    AgentStart,
    AgentEnd,
    Other,
}

/// The text of an optional request identifier.
pub open spec fn opt_request_id(id: Option<RequestId>) -> Option<Seq<char>> {
    match id {
        Some(id) => Some(id@),
        None => None,
    }
}

impl View for PromptSignal {
    type V = PromptSignalView;

    open spec fn view(&self) -> PromptSignalView {
        match self {
            PromptSignal::ResponseError { id, error } => PromptSignalView::ResponseError {
                id: opt_request_id(*id),
                error: error@,
            },
            PromptSignal::ResponseSuccess { id, prompt_acknowledged } =>
                PromptSignalView::ResponseSuccess {
                id: opt_request_id(*id),
                prompt_acknowledged: *prompt_acknowledged,
            },
            PromptSignal::PromptResult { id, agent_invoked } => PromptSignalView::PromptResult {
                id: opt_request_id(*id),
                agent_invoked: *agent_invoked,
            },
            PromptSignal::AgentStart => PromptSignalView::AgentStart,
            PromptSignal::AgentEnd => PromptSignalView::AgentEnd,
            PromptSignal::Other => PromptSignalView::Other,
        }
    }
}

/// The phase the latest prompt moves to on `signal`, if it moves: an answer
/// to the prompt's own request fails it, completes it locally or marks it
/// running; the agent's start marks a submitted prompt running and its end
/// completes a submitted or running prompt.
pub open spec fn next_prompt_phase(current: PromptStatusView, signal: PromptSignalView) -> Option<
    PromptPhaseView,
> {
    match signal {
        PromptSignalView::ResponseError { id: Some(id), error } => if id == current.request_id {
            Some(PromptPhaseView::Failed(error))
        } else {
            None
        },
        PromptSignalView::ResponseSuccess { id: Some(id), prompt_acknowledged } => if id
            == current.request_id {
            match prompt_acknowledged {
                Some(false) => Some(PromptPhaseView::Completed(PromptCompletion::Local)),
                Some(true) => if current.phase is Submitted {
                    Some(PromptPhaseView::Running)
                } else {
                    None
                },
                None => None,
            }
        } else {
            None
        },
        PromptSignalView::PromptResult { id: Some(id), agent_invoked } => if id
            == current.request_id {
            if agent_invoked {
                Some(PromptPhaseView::Running)
            } else {
                Some(PromptPhaseView::Completed(PromptCompletion::Local))
            }
        } else {
            None
        },
        PromptSignalView::AgentStart => if current.phase is Submitted {
            Some(PromptPhaseView::Running)
        } else {
            None
        },
        PromptSignalView::AgentEnd => if current.phase is Submitted || current.phase is Running {
            Some(PromptPhaseView::Completed(PromptCompletion::Agent))
        } else {
            None
        },
        _ => None,
    }
}

/// How the latest prompt moves:
/// - answers to other requests, or to no request, never move it;
/// - it fails exactly on an error answering its own request, with that error;
/// - it completes locally exactly when an answer to its own request says the
///   agent was not invoked;
/// - it completes by the agent exactly when the agent ends while the prompt is
///   submitted or running;
/// - it runs only when the agent starts on a submitted prompt or an answer to
///   its own request says the agent was invoked, and such a late prompt
///   result always marks it running, never completed;
/// - the agent starting or ending never moves a prompt that has completed or
///   failed, and other frames never move it.
pub proof fn lemma_prompt_phase_moves(current: PromptStatusView, signal: PromptSignalView)
    ensures
        (signal matches PromptSignalView::ResponseError { id, .. } && id != Some(current.request_id))
            ==> next_prompt_phase(current, signal) is None,
        (signal matches PromptSignalView::ResponseSuccess { id, .. } && id != Some(current.request_id))
            ==> next_prompt_phase(current, signal) is None,
        (signal matches PromptSignalView::PromptResult { id, .. } && id != Some(current.request_id))
            ==> next_prompt_phase(current, signal) is None,
        next_prompt_phase(current, signal) matches Some(PromptPhaseView::Failed(e))
            ==> signal matches PromptSignalView::ResponseError { id, error } && id == Some(
            current.request_id,
        ) && error == e,
        signal matches PromptSignalView::ResponseError { id, error } ==> (id == Some(
            current.request_id,
        ) ==> next_prompt_phase(current, signal) == Some(PromptPhaseView::Failed(error))),
        (next_prompt_phase(current, signal) == Some(PromptPhaseView::Completed(
            PromptCompletion::Local,
        ))) <==> ((signal matches PromptSignalView::PromptResult { id, agent_invoked }
            && id == Some(current.request_id) && !agent_invoked) || (
        signal matches PromptSignalView::ResponseSuccess { id, prompt_acknowledged }
            && id == Some(current.request_id) && prompt_acknowledged == Some(false))),
        (next_prompt_phase(current, signal) == Some(PromptPhaseView::Completed(
            PromptCompletion::Agent,
        ))) <==> (signal is AgentEnd && (current.phase is Submitted || current.phase is Running)),
        (signal matches PromptSignalView::PromptResult { id, agent_invoked } && id == Some(
            current.request_id,
        ) && agent_invoked) ==> next_prompt_phase(current, signal) == Some(PromptPhaseView::Running),
        (signal matches PromptSignalView::ResponseSuccess { id, prompt_acknowledged }
            && id == Some(current.request_id) && prompt_acknowledged == Some(true)) ==> next_prompt_phase(
            current,
            signal,
        ) == (if current.phase is Submitted {
            Some(PromptPhaseView::Running)
        } else {
            None
        }),
        next_prompt_phase(current, signal) == Some(PromptPhaseView::Running) ==> (signal is AgentStart
            && current.phase is Submitted) || (signal matches PromptSignalView::PromptResult {
            id,
            agent_invoked,
        } && id == Some(current.request_id) && agent_invoked) || (
        signal matches PromptSignalView::ResponseSuccess { id, prompt_acknowledged }
            && id == Some(current.request_id) && prompt_acknowledged == Some(true)
            && current.phase is Submitted),
        signal is AgentStart ==> next_prompt_phase(current, signal) == (if current.phase is Submitted {
            Some(PromptPhaseView::Running)
        } else {
            None
        }),
        (current.phase is Completed || current.phase is Failed) && (signal is AgentStart
            || signal is AgentEnd) ==> next_prompt_phase(current, signal) is None,
        signal is Other ==> next_prompt_phase(current, signal) is None,
{
}

/// The latest prompt's new status on `signal`, or `None` when it does not
/// change (or there is no prompt yet).
pub fn next_prompt_status(current: &Option<PromptStatus>, signal: &PromptSignal) -> (r: Option<
    PromptStatus,
>)
    ensures
        match current {
            None => r is None,
            Some(status) => match next_prompt_phase(status@, signal@) {
                None => r is None,
                Some(phase) => (r matches Some(next) && next@ == (PromptStatusView {
                    request_id: status@.request_id,
                    phase,
                })),
            },
        },
{
    let status = match current {
        Some(status) => status,
        None => return None,
    };
    let submitted = match status.phase {
        PromptPhase::Submitted => true,
        _ => false,
    };
    let running = match status.phase {
        PromptPhase::Running => true,
        _ => false,
    };
    let phase = match signal {
        PromptSignal::ResponseError { id: Some(id), error } => {
            if same_request_id(id, &status.request_id) {
                Some(PromptPhase::Failed(error.clone()))
            } else {
                None
            }
        },
        PromptSignal::ResponseSuccess { id: Some(id), prompt_acknowledged } => {
            if same_request_id(id, &status.request_id) {
                match prompt_acknowledged {
                    Some(false) => Some(PromptPhase::Completed(PromptCompletion::Local)),
                    Some(true) => if submitted {
                        Some(PromptPhase::Running)
                    } else {
                        None
                    },
                    None => None,
                }
            } else {
                None
            }
        },
        PromptSignal::PromptResult { id: Some(id), agent_invoked } => {
            if same_request_id(id, &status.request_id) {
                if *agent_invoked {
                    Some(PromptPhase::Running)
                } else {
                    Some(PromptPhase::Completed(PromptCompletion::Local))
                }
            } else {
                None
            }
        },
        PromptSignal::AgentStart => if submitted {
            Some(PromptPhase::Running)
        } else {
            None
        },
        PromptSignal::AgentEnd => if submitted || running {
            Some(PromptPhase::Completed(PromptCompletion::Agent))
        } else {
            None
        },
        _ => None,
    };
    match phase {
        Some(phase) => Some(PromptStatus { request_id: status.request_id.clone(), phase }),
        None => None,
    }
}

/// The status of a prompt just sent under `request_id`.
pub fn submitted_prompt(request_id: &RequestId) -> (r: PromptStatus)
    ensures
        r@ == (PromptStatusView { request_id: request_id@, phase: PromptPhaseView::Submitted }),
{
    PromptStatus { request_id: request_id.clone(), phase: PromptPhase::Submitted }
}

/// The latest prompt marked failed with `error`, when it is the one sent
/// under `request_id`; `None` when nothing changes.
pub fn failed_prompt(current: &Option<PromptStatus>, request_id: &RequestId, error: String) -> (r:
    Option<PromptStatus>)
    ensures
        match current {
            Some(status) => if status.request_id@ == request_id@ {
                r matches Some(next) && next@ == (PromptStatusView {
                    request_id: request_id@,
                    phase: PromptPhaseView::Failed(error@),
                })
            } else {
                r is None
            },
            None => r is None,
        },
{
    match current {
        Some(status) => {
            if same_request_id(&status.request_id, request_id) {
                Some(PromptStatus { request_id: status.request_id.clone(), phase: PromptPhase::Failed(error) })
            } else {
                None
            }
        },
        None => None,
    }
}

/// Why a request to the agent process failed.
#[derive(Debug, PartialEq, Eq)]
pub enum RequestError {
    RuntimeStopped,
    TimedOut { request_id: RequestId },
    FrameTooLarge { bytes: usize, limit: usize },
    Transport(String),
}

/// The content of a request error.
pub enum RequestErrorView {
    RuntimeStopped,
    TimedOut { request_id: Seq<char> },
    FrameTooLarge { bytes: usize, limit: usize },
    Transport(Seq<char>),
}

impl View for RequestError {
    type V = RequestErrorView;

    open spec fn view(&self) -> RequestErrorView {
        match self {
            RequestError::RuntimeStopped => RequestErrorView::RuntimeStopped,
            RequestError::TimedOut { request_id } => RequestErrorView::TimedOut {
                request_id: request_id@,
            },
            RequestError::FrameTooLarge { bytes, limit } => RequestErrorView::FrameTooLarge {
                bytes: *bytes,
                limit: *limit,
            },
            RequestError::Transport(message) => RequestErrorView::Transport(message@),
        }
    }
}

/// The message of a request error.
pub open spec fn request_error_message(e: RequestErrorView) -> Seq<char> {
    match e {
        RequestErrorView::RuntimeStopped => "OMP runtime is not running"@,
        RequestErrorView::TimedOut { request_id } => "request "@ + request_id + " timed out"@,
        RequestErrorView::FrameTooLarge { bytes, limit } => "RPC command is "@ + decimal(
            bytes as nat,
        ) + " bytes; limit is "@ + decimal(limit as nat) + " bytes"@,
        RequestErrorView::Transport(message) => "OMP transport failed: "@ + message,
    }
}

impl RequestError {
    /// The human-readable message of the error.
    pub fn to_string(&self) -> (r: String)
        ensures
            r@ == request_error_message(self@),
    {
        match self {
            RequestError::RuntimeStopped => String::from_str("OMP runtime is not running"),
            RequestError::TimedOut { request_id } => {
                let mut out = String::from_str("request ");
                out.append(request_id.as_str());
                out.append(" timed out");
                out
            },
            RequestError::FrameTooLarge { bytes, limit } => {
                let mut out = String::from_str("RPC command is ");
                push_decimal(&mut out, *bytes as u64);
                out.append(" bytes; limit is ");
                push_decimal(&mut out, *limit as u64);
                out.append(" bytes");
                out
            },
            RequestError::Transport(message) => {
                let mut out = String::from_str("OMP transport failed: ");
                out.append(message.as_str());
                out
            },
        }
    }
}

impl Clone for RequestError {
    fn clone(&self) -> (r: Self)
        ensures
            r@ == self@,
    {
        match self {
            RequestError::RuntimeStopped => RequestError::RuntimeStopped,
            RequestError::TimedOut { request_id } => RequestError::TimedOut {
                request_id: request_id.clone(),
            },
            RequestError::FrameTooLarge { bytes, limit } => RequestError::FrameTooLarge {
                bytes: *bytes,
                limit: *limit,
            },
            RequestError::Transport(message) => RequestError::Transport(message.clone()),
        }
    }
}

/// Refuses an encoded command longer than the frame limit.
pub fn check_command_size(bytes: usize, limit: usize) -> (r: Result<(), RequestError>)
    ensures
        r is Ok <==> bytes <= limit,
        r matches Err(e) ==> e@ == (RequestErrorView::FrameTooLarge { bytes, limit }),
{
    if bytes > limit {
        return Err(RequestError::FrameTooLarge { bytes, limit });
    }
    Ok(())
}

/// Why the agent process could not be started.
#[derive(Debug, PartialEq, Eq)]
pub enum RuntimeSpawnError {
    Spawn { program: String, source: String },
    MissingPipe(&'static str),
    StartupTimedOut,
    StartupEof,
    StartupIo(String),
    StartupProtocol(String),
    ExpectedReadyFrame,
    ProtocolNegotiation(String),
}

/// The content of a spawn error's message.
pub open spec fn spawn_error_message(e: RuntimeSpawnError) -> Seq<char> {
    match e {
        RuntimeSpawnError::Spawn { program, .. } => "failed to spawn "@ + program@,
        RuntimeSpawnError::MissingPipe(pipe) => "spawned OMP process has no "@ + pipe@ + " pipe"@,
        RuntimeSpawnError::StartupTimedOut => "OMP RPC startup timed out"@,
        RuntimeSpawnError::StartupEof => "OMP RPC process exited before its ready frame"@,
        RuntimeSpawnError::StartupIo(_) => "failed to communicate with OMP during startup"@,
        RuntimeSpawnError::StartupProtocol(message) => "invalid OMP startup frame: "@ + message@,
        RuntimeSpawnError::ExpectedReadyFrame => "first OMP RPC frame was not ready"@,
        RuntimeSpawnError::ProtocolNegotiation(message) =>
            "OMP RPC protocol-v2 negotiation failed: "@ + message@,
    }
}

impl RuntimeSpawnError {
    /// The human-readable message of the error.
    pub fn to_string(&self) -> (r: String)
        ensures
            r@ == spawn_error_message(*self),
    {
        match self {
            RuntimeSpawnError::Spawn { program, .. } => {
                let mut out = String::from_str("failed to spawn ");
                out.append(program.as_str());
                out
            },
            RuntimeSpawnError::MissingPipe(pipe) => {
                let mut out = String::from_str("spawned OMP process has no ");
                out.append(pipe);
                out.append(" pipe");
                out
            },
            RuntimeSpawnError::StartupTimedOut => String::from_str("OMP RPC startup timed out"),
            RuntimeSpawnError::StartupEof => String::from_str(
                "OMP RPC process exited before its ready frame",
            ),
            RuntimeSpawnError::StartupIo(_) => String::from_str(
                "failed to communicate with OMP during startup",
            ),
            RuntimeSpawnError::StartupProtocol(message) => {
                let mut out = String::from_str("invalid OMP startup frame: ");
                out.append(message.as_str());
                out
            },
            RuntimeSpawnError::ExpectedReadyFrame => String::from_str(
                "first OMP RPC frame was not ready",
            ),
            RuntimeSpawnError::ProtocolNegotiation(message) => {
                let mut out = String::from_str("OMP RPC protocol-v2 negotiation failed: ");
                out.append(message.as_str());
                out
            },
        }
    }
}

/// Why a line could not be read from the agent process: the input failed
/// (with the text of its error), the line exceeded the limit, or the input
/// ended in the middle of a line.
#[derive(Clone, Debug, PartialEq, Eq)]
pub enum LineReadError {
    Io(String),
    TooLarge { limit: usize },
    UnexpectedEof,
}

/// The message of a line-read error.
pub open spec fn line_error_message(e: LineReadError) -> Seq<char> {
    match e {
        LineReadError::Io(message) => message@,
        LineReadError::TooLarge { limit } => "RPC frame exceeds "@ + decimal(limit as nat)
            + " bytes"@,
        LineReadError::UnexpectedEof => "OMP stdout ended in the middle of a frame"@,
    }
}

impl LineReadError {
    /// The human-readable message of the error.
    pub fn to_string(&self) -> (r: String)
        ensures
            r@ == line_error_message(*self),
    {
        match self {
            LineReadError::Io(message) => message.clone(),
            LineReadError::TooLarge { limit } => {
                let mut out = String::from_str("RPC frame exceeds ");
                push_decimal(&mut out, *limit as u64);
                out.append(" bytes");
                out
            },
            LineReadError::UnexpectedEof => String::from_str(
                "OMP stdout ended in the middle of a frame",
            ),
        }
    }
}

/// The startup error a failed read of the agent's first line becomes: an
/// input failure stays one, anything else is a protocol error with the
/// read error's message.
pub fn line_startup_error(error: LineReadError) -> (r: RuntimeSpawnError)
    ensures
        match error {
            LineReadError::Io(message) => r == RuntimeSpawnError::StartupIo(message),
            other => (r matches RuntimeSpawnError::StartupProtocol(message) && message@
                == line_error_message(other)),
        },
{
    match error {
        LineReadError::Io(message) => RuntimeSpawnError::StartupIo(message),
        other => RuntimeSpawnError::StartupProtocol(other.to_string()),
    }
}

/// The startup error a failed protocol negotiation request becomes.
pub fn request_startup_error(error: &RequestError) -> (r: RuntimeSpawnError)
    ensures
        r matches RuntimeSpawnError::ProtocolNegotiation(message) && message@
            == request_error_message(error@),
{
    RuntimeSpawnError::ProtocolNegotiation(error.to_string())
}

/// What a frame read while protocol negotiation is pending says: a success
/// response (with the request it answers and whether it is the negotiation's
/// own result), an error response (with its request and error text), or
/// anything else.
pub enum NegotiationReply {
    Success { id: Option<RequestId>, negotiated: bool },
    Error { id: Option<RequestId>, error: String },
    Other,
}

/// What startup does with a frame read during negotiation: negotiation is
/// done, startup fails, or the frame is kept to be published once the
/// runtime runs.
#[derive(Debug, PartialEq, Eq)]
pub enum NegotiationStep {
    Done,
    Fail(RuntimeSpawnError),
    Keep,
}

/// Decides a frame read while the negotiation request `request_id` waits:
/// the negotiation result answering it ends negotiation, any other success
/// or an error answering it fails startup, and every other frame is kept.
pub fn negotiation_step(request_id: &RequestId, reply: &NegotiationReply) -> (r: NegotiationStep)
    ensures
        match reply {
            NegotiationReply::Success { id: Some(id), negotiated } => if id@ == request_id@ {
                if *negotiated {
                    r == NegotiationStep::Done
                } else {
                    r matches NegotiationStep::Fail(RuntimeSpawnError::ProtocolNegotiation(message))
                        && message@ == "server returned the wrong success response"@
                }
            } else {
                r == NegotiationStep::Keep
            },
            NegotiationReply::Error { id: Some(id), error } => if id@ == request_id@ {
                r == NegotiationStep::Fail(RuntimeSpawnError::ProtocolNegotiation(*error))
            } else {
                r == NegotiationStep::Keep
            },
            _ => r == NegotiationStep::Keep,
        },
{
    match reply {
        NegotiationReply::Success { id: Some(id), negotiated } => {
            if !same_request_id(id, request_id) {
                NegotiationStep::Keep
            } else if *negotiated {
                NegotiationStep::Done
            } else {
                NegotiationStep::Fail(
                    RuntimeSpawnError::ProtocolNegotiation(
                        String::from_str("server returned the wrong success response"),
                    ),
                )
            }
        },
        NegotiationReply::Error { id: Some(id), error } => {
            if same_request_id(id, request_id) {
                NegotiationStep::Fail(RuntimeSpawnError::ProtocolNegotiation(error.clone()))
            } else {
                NegotiationStep::Keep
            }
        },
        _ => NegotiationStep::Keep,
    }
}

/// What to do with the bytes a line reader has buffered.
#[derive(Clone, Copy, Debug, PartialEq, Eq)]
pub enum LineStep {
    /// The input ended between lines.
    End,
    /// The input ended in the middle of a line.
    UnexpectedEnd,
    /// The line would exceed the limit.
    TooLarge,
    /// Take `consumed` bytes into the line; `complete` when they end it.
    Take { consumed: usize, complete: bool },
}

/// The index just past the first newline of `bytes`, or their length when
/// they hold none.
pub open spec fn through_first_newline(bytes: Seq<u8>) -> int
    decreases bytes.len(),
{
    if bytes.len() == 0 {
        0
    } else if bytes[0] == 10u8 {
        1
    } else {
        1 + through_first_newline(bytes.drop_first())
    }
}

/// Decides the next step of reading one line of at most `limit` bytes, with
/// `line_len` bytes read so far and `available` buffered: stop at the end of
/// input, refuse a line over the limit, or take bytes through the first newline.
pub fn next_line_step(line_len: usize, available: &[u8], limit: usize) -> (r: LineStep)
    requires
        line_len + available.len() <= usize::MAX,
    ensures
        available.len() == 0 ==> (if line_len == 0 {
            r == LineStep::End
        } else {
            r == LineStep::UnexpectedEnd
        }),
        available.len() > 0 ==> ({
            let consumed = through_first_newline(available@);
            if line_len + consumed > limit {
                r == LineStep::TooLarge
            } else {
                r == (LineStep::Take {
                    consumed: consumed as usize,
                    complete: available@[consumed - 1] == 10u8,
                })
            }
        }),
{
    if available.len() == 0 {
        if line_len == 0 {
            return LineStep::End;
        } else {
            return LineStep::UnexpectedEnd;
        }
    }
    let mut i: usize = 0;
    proof {
        assert(available@.subrange(0, available.len() as int) =~= available@);
    }
    while i < available.len()
        invariant
            i <= available.len(),
            through_first_newline(available@) == i + through_first_newline(
                available@.subrange(i as int, available.len() as int),
            ),
        ensures
            i <= available.len(),
            i < available.len() ==> available@[i as int] == 10u8,
            through_first_newline(available@) == i + through_first_newline(
                available@.subrange(i as int, available.len() as int),
            ),
        decreases available.len() - i,
    {
        let ghost rest = available@.subrange(i as int, available.len() as int);
        if available[i] == 10u8 {
            break;
        }
        proof {
            assert(rest.drop_first() =~= available@.subrange(i + 1, available.len() as int));
        }
        i = i + 1;
    }
    let consumed: usize = if i < available.len() {
        i + 1
    } else {
        i
    };
    proof {
        if i < available.len() {
            assert(available@.subrange(i as int, available.len() as int)[0] == 10u8);
        } else {
            assert(available@.subrange(i as int, available.len() as int).len() == 0);
        }
    }
    if line_len.saturating_add(consumed) > limit {
        return LineStep::TooLarge;
    }
    LineStep::Take { consumed, complete: available[consumed - 1] == 10u8 }
}

/// The request identifiers and waiters of a list, by identifier text.
pub open spec fn waiting_pairs<R>(entries: Seq<(RequestId, R)>) -> Seq<(Seq<char>, R)> {
    entries.map_values(|e: (RequestId, R)| (e.0@, e.1))
}

/// The requests sent to an agent process that wait for their responses,
/// each under its request identifier.
pub struct ResponseTable<R> {
    entries: Vec<(RequestId, R)>,
}

impl<R> ResponseTable<R> {
    /// No identifier waits twice.
    pub closed spec fn wf(&self) -> bool {
        distinct_keys(waiting_pairs(self.entries@))
    }

    /// The waiters by request identifier.
    pub closed spec fn waiting(&self) -> Map<Seq<char>, R> {
        assoc_map(waiting_pairs(self.entries@))
    }

    /// Nothing waits.
    pub fn new() -> (r: Self)
        ensures
            r.wf(),
            r.waiting() == Map::<Seq<char>, R>::empty(),
    {
        let r = ResponseTable { entries: Vec::new() };
        proof {
            assert(waiting_pairs(r.entries@) =~= Seq::<(Seq<char>, R)>::empty());
        }
        r
    }

    fn position(&self, request_id: &RequestId) -> (r: Option<usize>)
        ensures
            match r {
                Some(i) => i < self.entries.len() && self.entries@[i as int].0@ == request_id@,
                None => forall|i: int|
                    0 <= i < self.entries.len() ==> #[trigger] self.entries@[i].0@ != request_id@,
            },
    {
        let mut i: usize = 0;
        while i < self.entries.len()
            invariant
                i <= self.entries.len(),
                forall|k: int| 0 <= k < i ==> #[trigger] self.entries@[k].0@ != request_id@,
            decreases self.entries.len() - i,
        {
            if same_request_id(&self.entries[i].0, request_id) {
                return Some(i);
            }
            i = i + 1;
        }
        None
    }

    /// Waits for the response to `request_id`; a waiter already under the
    /// same identifier is replaced and handed back.
    pub fn insert(&mut self, request_id: RequestId, waiter: R) -> (r: Option<R>)
        requires
            old(self).wf(),
        ensures
            final(self).wf(),
            final(self).waiting() == old(self).waiting().insert(request_id@, waiter),
            r == (if old(self).waiting().dom().contains(request_id@) {
                Some(old(self).waiting()[request_id@])
            } else {
                None::<R>
            }),
    {
        let ghost pairs = waiting_pairs(self.entries@);
        let ghost id = request_id@;
        proof {
            lemma_assoc_domain(pairs, id);
        }
        match self.position(&request_id) {
            Some(i) => {
                proof {
                    lemma_assoc_get(pairs, i as int);
                }
                let (key, previous) = self.entries.remove(i);
                self.entries.insert(i, (key, waiter));
                proof {
                    assert(waiting_pairs(self.entries@) =~= pairs.update(i as int, (pairs[i as int].0, waiter)));
                    lemma_assoc_update(pairs, i as int, waiter);
                }
                Some(previous)
            },
            None => {
                proof {
                    assert forall|j: int| 0 <= j < pairs.len() implies #[trigger] pairs[j].0 != id by {
                        assert(self.entries@[j].0@ != id);
                    }
                    if pairs.len() > 0 {
                        assert(!(exists|j: int| 0 <= j < pairs.len() && #[trigger] pairs[j].0 == id));
                    }
                }
                self.entries.push((request_id, waiter));
                proof {
                    assert(waiting_pairs(self.entries@) =~= pairs.push((id, waiter)));
                    lemma_assoc_push(pairs, id, waiter);
                }
                None
            },
        }
    }

    /// Takes the waiter of `request_id`, if one waits.
    pub fn take(&mut self, request_id: &RequestId) -> (r: Option<R>)
        requires
            old(self).wf(),
        ensures
            final(self).wf(),
            final(self).waiting() == old(self).waiting().remove(request_id@),
            r == (if old(self).waiting().dom().contains(request_id@) {
                Some(old(self).waiting()[request_id@])
            } else {
                None::<R>
            }),
    {
        let ghost pairs = waiting_pairs(self.entries@);
        proof {
            lemma_assoc_domain(pairs, request_id@);
        }
        match self.position(request_id) {
            Some(i) => {
                proof {
                    lemma_assoc_get(pairs, i as int);
                }
                let (_, waiter) = self.entries.remove(i);
                proof {
                    assert(waiting_pairs(self.entries@) =~= pairs.remove(i as int));
                    lemma_assoc_remove(pairs, i as int);
                }
                Some(waiter)
            },
            None => {
                proof {
                    assert forall|j: int| 0 <= j < pairs.len() implies #[trigger] pairs[j].0 != request_id@ by {
                        assert(self.entries@[j].0@ != request_id@);
                    }
                    assert(assoc_map(pairs).remove(request_id@) =~= assoc_map(pairs));
                }
                None
            },
        }
    }

    /// Takes every waiter, leaving none; each waiter comes out once.
    pub fn drain(&mut self) -> (r: Vec<R>)
        requires
            old(self).wf(),
        ensures
            final(self).wf(),
            final(self).waiting() == Map::<Seq<char>, R>::empty(),
            r@.len() == old(self).waiting().dom().len(),
            forall|i: int| 0 <= i < r@.len() ==> old(self).waiting().values().contains(#[trigger] r@[i]),
    {
        let ghost pairs = waiting_pairs(self.entries@);
        proof {
            lemma_assoc_len(pairs);
        }
        let mut taken: Vec<(RequestId, R)> = Vec::new();
        std::mem::swap(&mut taken, &mut self.entries);
        let mut out: Vec<R> = Vec::new();
        let total = taken.len();
        while taken.len() > 0
            invariant
                out@.len() + taken@.len() == total,
                total == pairs.len(),
                waiting_pairs(taken@) =~= pairs.subrange(out@.len() as int, total as int),
                forall|i: int| 0 <= i < out@.len() ==> #[trigger] out@[i] == pairs[i].1,
            decreases taken.len(),
        {
            let ghost done: int = out@.len() as int;
            let ghost before = taken@;
            let (_, waiter) = taken.remove(0);
            proof {
                assert(waiting_pairs(before)[0] == pairs[done]);
                assert(waiter == pairs[done].1);
                assert(waiting_pairs(taken@) =~= waiting_pairs(before).drop_first());
                assert(waiting_pairs(taken@) =~= pairs.subrange(done + 1, total as int));
            }
            out.push(waiter);
        }
        proof {
            assert(waiting_pairs(self.entries@) =~= Seq::<(Seq<char>, R)>::empty());
            assert forall|i: int| 0 <= i < out@.len() implies assoc_map(pairs).values().contains(
                #[trigger] out@[i],
            ) by {
                lemma_assoc_get(pairs, i);
                assert(assoc_map(pairs).dom().contains(pairs[i].0));
            }
        }
        out
    }
}

/// Responses may come back in any order: answering one request leaves every
/// other waiting request under its own identifier, with its own waiter.
pub proof fn lemma_responses_correlate_in_any_order<R>(
    waiting: Map<Seq<char>, R>,
    answered: Seq<char>,
    other: Seq<char>,
)
    requires
        waiting.dom().contains(other),
        answered != other,
    ensures
        waiting.remove(answered).dom().contains(other),
        waiting.remove(answered)[other] == waiting[other],
{
}

} // verus!
