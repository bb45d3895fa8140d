use vstd::prelude::*;

use crate::rpc::RequestId;
use crate::runtime::{
    failed_prompt, next_prompt_phase, next_prompt_status, request_error_message, submitted_prompt,
    PromptPhaseView, PromptSignal, PromptStatus, PromptStatusView, RequestError, ResponseTable,
    RuntimeExit, RuntimeStatus,
};

verus! {

/// Why the loop that supervises an agent process stops.
#[derive(Clone, Debug, PartialEq, Eq)]
pub enum StopReason {
    /// The process was asked to shut down.
    Shutdown,
    /// The process exited on its own.
    ChildExited,
    /// Talking to the process failed, with the failure's text.
    TransportFailed(String),
}

/// What the supervising loop saw: a request about to be written, how the
/// write went, how the write of a message that expects no response went, a
/// cancelled request, a frame the reader decoded (with what it
/// says about the latest prompt and the request it answers, if it is a
/// response), the reader failing or ending, the process exiting, or a
/// shutdown request.
pub enum SupervisorEvent<R, F> {
    RequestStarting { request_id: RequestId, is_prompt: bool },
    RequestWritten { request_id: RequestId, waiter: R, outcome: Result<(), RequestError> },
    MessageWritten { waiter: R, outcome: Result<(), RequestError> },
    Cancel { request_id: RequestId },
    Frame { signal: PromptSignal, response_to: Option<RequestId>, frame: F },
    ReaderFailed(String),
    ReaderEnded,
    ChildExited,
    ShutdownRequested,
}

/// What the supervising loop does next.
pub enum SupervisorAction<R, F> {
    /// Writes the request to the process.
    Write,
    /// Waits for what comes next.
    Continue,
    /// Answers a request's waiter with an error and goes on.
    Reply { waiter: R, error: RequestError },
    /// Tells the sender of a message that it was written, and goes on.
    Acknowledge { waiter: R },
    /// Hands a response to the waiter of its request.
    Deliver { waiter: R, frame: F },
    /// Publishes a frame to the runtime's event subscribers.
    Publish { frame: F },
    /// Stops the loop for `reason`, first answering the waiter in `reply`.
    Stop { reason: StopReason, reply: Option<(R, RequestError)> },
}

/// The content of an optional prompt status.
pub open spec fn prompt_view(prompt: Option<PromptStatus>) -> Option<PromptStatusView> {
    match prompt {
        Some(status) => Some(status@),
        None => None,
    }
}

/// The decisions of the loop that supervises one agent process: the waiters
/// of requests written to it, the status of the latest prompt, and whether
/// its output is still being read.
pub struct Supervisor<R> {
    waiting: ResponseTable<R>,
    prompt: Option<PromptStatus>,
    reader_open: bool,
}

impl<R> Supervisor<R> {
    /// The waiters are kept by distinct request identifiers.
    pub closed spec fn wf(&self) -> bool {
        self.waiting.wf()
    }

    /// The waiters by request identifier.
    pub closed spec fn waiters(&self) -> Map<Seq<char>, R> {
        self.waiting.waiting()
    }

    /// The status of the latest prompt, if one was sent.
    pub closed spec fn prompt_status(&self) -> Option<PromptStatusView> {
        prompt_view(self.prompt)
    }

    /// Whether the process's output is still read.
    pub closed spec fn reading(&self) -> bool {
        self.reader_open
    }

    /// A loop that waits for nothing, with no prompt sent, reading output.
    pub fn new() -> (r: Self)
        ensures
            r.wf(),
            r.waiters() == Map::<Seq<char>, R>::empty(),
            r.prompt_status() is None,
            r.reading(),
    {
        Supervisor { waiting: ResponseTable::new(), prompt: None, reader_open: true }
    }

    /// The status of the latest prompt, to publish.
    pub fn prompt(&self) -> (r: &Option<PromptStatus>)
        ensures
            prompt_view(*r) == self.prompt_status(),
    {
        &self.prompt
    }

    /// Whether the process's output is still read.
    pub fn is_reading(&self) -> (r: bool)
        ensures
            r == self.reading(),
    {
        self.reader_open
    }

    /// Takes one step of the loop:
    /// - a prompt about to be written becomes the latest prompt, submitted;
    /// - a written request waits for its response, a waiter already under its
    ///   identifier being dropped;
    /// - a request too large to write fails the latest prompt when it is that
    ///   request, and its waiter is told, and the loop goes on;
    /// - any other write failure stops the loop as a transport failure, after
    ///   its waiter is told;
    /// - a written message that expects no response is acknowledged; one too
    ///   large is refused to its sender and the loop goes on, any other write
    ///   failure stops the loop after its sender is told;
    /// - a cancelled request's waiter is dropped;
    /// - a frame moves the latest prompt as it says; a response whose request
    ///   waits goes to that waiter, every other frame is published;
    /// - a reader failure stops the loop, the reader's end only stops reading;
    /// - the process exiting or a shutdown request stops the loop.
    pub fn step<F>(&mut self, event: SupervisorEvent<R, F>) -> (r: SupervisorAction<R, F>)
        requires
            old(self).wf(),
        ensures
            final(self).wf(),
            match event {
                SupervisorEvent::RequestStarting { request_id, is_prompt } => {
                    &&& r is Write
                    &&& final(self).waiters() == old(self).waiters()
                    &&& final(self).reading() == old(self).reading()
                    &&& final(self).prompt_status() == if is_prompt {
                        Some(PromptStatusView { request_id: request_id@, phase: PromptPhaseView::Submitted })
                    } else {
                        old(self).prompt_status()
                    }
                },
                SupervisorEvent::RequestWritten { request_id, waiter, outcome } => {
                    &&& final(self).reading() == old(self).reading()
                    &&& match outcome {
                        Ok(()) => {
                            &&& r is Continue
                            &&& final(self).waiters() == old(self).waiters().insert(request_id@, waiter)
                            &&& final(self).prompt_status() == old(self).prompt_status()
                        },
                        Err(error) => {
                            &&& final(self).waiters() == old(self).waiters()
                            &&& if error is FrameTooLarge {
                                &&& r == SupervisorAction::<R, F>::Reply { waiter, error }
                                &&& final(self).prompt_status() == match old(self).prompt_status() {
                                    Some(status) => if status.request_id == request_id@ {
                                        Some(PromptStatusView {
                                            request_id: request_id@,
                                            phase: PromptPhaseView::Failed(request_error_message(error@)),
                                        })
                                    } else {
                                        Some(status)
                                    },
                                    None => None,
                                }
                            } else {
                                &&& r matches SupervisorAction::Stop {
                                    reason: StopReason::TransportFailed(message),
                                    reply: Some((told, told_error)),
                                }
                                &&& message@ == request_error_message(error@)
                                &&& told == waiter && told_error == error
                                &&& final(self).prompt_status() == old(self).prompt_status()
                            }
                        },
                    }
                },
                SupervisorEvent::MessageWritten { waiter, outcome } => {
                    &&& final(self).waiters() == old(self).waiters()
                    &&& final(self).prompt_status() == old(self).prompt_status()
                    &&& final(self).reading() == old(self).reading()
                    &&& match outcome {
                        Ok(()) => r == SupervisorAction::<R, F>::Acknowledge { waiter },
                        Err(error) => if error is FrameTooLarge {
                            r == SupervisorAction::<R, F>::Reply { waiter, error }
                        } else {
                            &&& r matches SupervisorAction::Stop {
                                reason: StopReason::TransportFailed(message),
                                reply: Some((told, told_error)),
                            }
                            &&& message@ == request_error_message(error@)
                            &&& told == waiter && told_error == error
                        },
                    }
                },
                SupervisorEvent::Cancel { request_id } => {
                    &&& r is Continue
                    &&& final(self).waiters() == old(self).waiters().remove(request_id@)
                    &&& final(self).prompt_status() == old(self).prompt_status()
                    &&& final(self).reading() == old(self).reading()
                },
                SupervisorEvent::Frame { signal, response_to, frame } => {
                    &&& final(self).reading() == old(self).reading()
                    &&& final(self).prompt_status() == match old(self).prompt_status() {
                        Some(status) => match next_prompt_phase(status, signal@) {
                            Some(phase) => Some(PromptStatusView { request_id: status.request_id, phase }),
                            None => Some(status),
                        },
                        None => None,
                    }
                    &&& match response_to {
                        Some(id) => if old(self).waiters().dom().contains(id@) {
                            &&& r == SupervisorAction::<R, F>::Deliver {
                                waiter: old(self).waiters()[id@],
                                frame,
                            }
                            &&& final(self).waiters() == old(self).waiters().remove(id@)
                        } else {
                            &&& r == SupervisorAction::<R, F>::Publish { frame }
                            &&& final(self).waiters() == old(self).waiters()
                        },
                        None => {
                            &&& r == SupervisorAction::<R, F>::Publish { frame }
                            &&& final(self).waiters() == old(self).waiters()
                        },
                    }
                },
                SupervisorEvent::ReaderFailed(message) => {
                    &&& r == SupervisorAction::<R, F>::Stop {
                        reason: StopReason::TransportFailed(message),
                        reply: None,
                    }
                    &&& final(self).waiters() == old(self).waiters()
                    &&& final(self).prompt_status() == old(self).prompt_status()
                    &&& final(self).reading() == old(self).reading()
                },
                SupervisorEvent::ReaderEnded => {
                    &&& r is Continue
                    &&& !final(self).reading()
                    &&& final(self).waiters() == old(self).waiters()
                    &&& final(self).prompt_status() == old(self).prompt_status()
                },
                SupervisorEvent::ChildExited => {
                    &&& r == SupervisorAction::<R, F>::Stop { reason: StopReason::ChildExited, reply: None }
                    &&& final(self).waiters() == old(self).waiters()
                    &&& final(self).prompt_status() == old(self).prompt_status()
                    &&& final(self).reading() == old(self).reading()
                },
                SupervisorEvent::ShutdownRequested => {
                    &&& r == SupervisorAction::<R, F>::Stop { reason: StopReason::Shutdown, reply: None }
                    &&& final(self).waiters() == old(self).waiters()
                    &&& final(self).prompt_status() == old(self).prompt_status()
                    &&& final(self).reading() == old(self).reading()
                },
            },
    {
        match event {
            SupervisorEvent::RequestStarting { request_id, is_prompt } => {
                if is_prompt {
                    self.prompt = Some(submitted_prompt(&request_id));
                }
                SupervisorAction::Write
            },
            SupervisorEvent::RequestWritten { request_id, waiter, outcome } => match outcome {
                Ok(()) => {
                    let _ = self.waiting.insert(request_id, waiter);
                    SupervisorAction::Continue
                },
                Err(error) => {
                    let message = error.to_string();
                    match error {
                        RequestError::FrameTooLarge { .. } => {
                            match failed_prompt(&self.prompt, &request_id, message) {
                                Some(next) => {
                                    self.prompt = Some(next);
                                },
                                None => {},
                            }
                            SupervisorAction::Reply { waiter, error }
                        },
                        _ => SupervisorAction::Stop {
                            reason: StopReason::TransportFailed(message),
                            reply: Some((waiter, error)),
                        },
                    }
                },
            },
            SupervisorEvent::MessageWritten { waiter, outcome } => match outcome {
                Ok(()) => SupervisorAction::Acknowledge { waiter },
                Err(error) => match error {
                    RequestError::FrameTooLarge { .. } => SupervisorAction::Reply { waiter, error },
                    _ => {
                        let message = error.to_string();
                        SupervisorAction::Stop {
                            reason: StopReason::TransportFailed(message),
                            reply: Some((waiter, error)),
                        }
                    },
                },
            },
            SupervisorEvent::Cancel { request_id } => {
                let _ = self.waiting.take(&request_id);
                SupervisorAction::Continue
            },
            SupervisorEvent::Frame { signal, response_to, frame } => {
                match next_prompt_status(&self.prompt, &signal) {
                    Some(next) => {
                        self.prompt = Some(next);
                    },
                    None => {},
                }
                match response_to {
                    Some(id) => match self.waiting.take(&id) {
                        Some(waiter) => SupervisorAction::Deliver { waiter, frame },
                        None => SupervisorAction::Publish { frame },
                    },
                    None => SupervisorAction::Publish { frame },
                }
            },
            SupervisorEvent::ReaderFailed(message) => SupervisorAction::Stop {
                reason: StopReason::TransportFailed(message),
                reply: None,
            },
            SupervisorEvent::ReaderEnded => {
                self.reader_open = false;
                SupervisorAction::Continue
            },
            SupervisorEvent::ChildExited => SupervisorAction::Stop {
                reason: StopReason::ChildExited,
                reply: None,
            },
            SupervisorEvent::ShutdownRequested => SupervisorAction::Stop {
                reason: StopReason::Shutdown,
                reply: None,
            },
        }
    }

    /// Once the loop stopped: takes every waiter still waiting, to be told
    /// the runtime stopped; none is left.
    pub fn finish(&mut self) -> (r: Vec<R>)
        requires
            old(self).wf(),
        ensures
            final(self).wf(),
            final(self).waiters() == Map::<Seq<char>, R>::empty(),
            r@.len() == old(self).waiters().dom().len(),
            forall|i: int| 0 <= i < r@.len() ==> old(self).waiters().values().contains(#[trigger] r@[i]),
    {
        self.waiting.drain()
    }
}

/// The status the runtime publishes once its loop stopped for `reason`:
/// after a transport failure, that failure; otherwise how the process ended,
/// its exit or the text of the failure to await it.
pub fn stopped_status(reason: &StopReason, ended: Result<RuntimeExit, String>) -> (r: RuntimeStatus)
    ensures
        match reason {
            StopReason::TransportFailed(message) => r == RuntimeStatus::Failed(*message),
            _ => match ended {
                Ok(exit) => r == RuntimeStatus::Exited(exit),
                Err(message) => r == RuntimeStatus::Failed(message),
            },
        },
{
    match reason {
        StopReason::TransportFailed(message) => RuntimeStatus::Failed(message.clone()),
        _ => match ended {
            Ok(exit) => RuntimeStatus::Exited(exit),
            Err(message) => RuntimeStatus::Failed(message),
        },
    }
}

/// The answer to a shutdown request, given how the process ended: its exit,
/// or the failure to stop it as a transport error.
pub fn shutdown_answer(ended: Result<RuntimeExit, String>) -> (r: Result<RuntimeExit, RequestError>)
    ensures
        match ended {
            Ok(exit) => r == Ok::<RuntimeExit, RequestError>(exit),
            Err(message) => r == Err::<RuntimeExit, RequestError>(RequestError::Transport(message)),
        },
{
    match ended {
        Ok(exit) => Ok(exit),
        Err(message) => Err(RequestError::Transport(message)),
    }
}

} // verus!
