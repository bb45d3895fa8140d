use omp_remote::rpc::RequestId;
use omp_remote::runtime::{
    PromptCompletion, PromptPhase, PromptSignal, RequestError, RuntimeExit, RuntimeStatus,
};
use omp_remote::supervisor::{
    shutdown_answer, stopped_status, StopReason, Supervisor, SupervisorAction, SupervisorEvent,
};

type Event = SupervisorEvent<&'static str, &'static str>;
type Action = SupervisorAction<&'static str, &'static str>;

fn request(id: &str) -> RequestId {
    RequestId::new(id.to_owned())
}

fn send_prompt(supervisor: &mut Supervisor<&'static str>, id: &str, waiter: &'static str) {
    let action: Action = supervisor.step(Event::RequestStarting { request_id: request(id), is_prompt: true });
    assert!(matches!(action, SupervisorAction::Write));
    let action: Action = supervisor.step(Event::RequestWritten {
        request_id: request(id),
        waiter,
        outcome: Ok(()),
    });
    assert!(matches!(action, SupervisorAction::Continue));
}

#[test]
fn responses_reach_their_waiter_and_other_frames_are_published() {
    let mut supervisor = Supervisor::new();
    send_prompt(&mut supervisor, "req-1", "waiter-1");
    assert_eq!(supervisor.prompt().as_ref().unwrap().phase, PromptPhase::Submitted);
    let action: Action = supervisor.step(Event::Frame {
        signal: PromptSignal::ResponseSuccess { id: Some(request("req-1")), prompt_acknowledged: Some(true) },
        response_to: Some(request("req-1")),
        frame: "ack",
    });
    assert!(matches!(action, SupervisorAction::Deliver { waiter: "waiter-1", frame: "ack" }));
    assert_eq!(supervisor.prompt().as_ref().unwrap().phase, PromptPhase::Running);
    let action: Action = supervisor.step(Event::Frame {
        signal: PromptSignal::AgentEnd,
        response_to: None,
        frame: "agent_end",
    });
    assert!(matches!(action, SupervisorAction::Publish { frame: "agent_end" }));
    assert_eq!(
        supervisor.prompt().as_ref().unwrap().phase,
        PromptPhase::Completed(PromptCompletion::Agent)
    );
    let action: Action = supervisor.step(Event::Frame {
        signal: PromptSignal::Other,
        response_to: Some(request("req-1")),
        frame: "late",
    });
    assert!(matches!(action, SupervisorAction::Publish { frame: "late" }));
}

#[test]
fn oversized_requests_fail_the_prompt_and_the_loop_goes_on() {
    let mut supervisor = Supervisor::new();
    let _: Action = supervisor.step(Event::RequestStarting { request_id: request("req-1"), is_prompt: true });
    let action: Action = supervisor.step(Event::RequestWritten {
        request_id: request("req-1"),
        waiter: "waiter-1",
        outcome: Err(RequestError::FrameTooLarge { bytes: 10, limit: 4 }),
    });
    assert!(matches!(
        action,
        SupervisorAction::Reply { waiter: "waiter-1", error: RequestError::FrameTooLarge { bytes: 10, limit: 4 } }
    ));
    assert_eq!(
        supervisor.prompt().as_ref().unwrap().phase,
        PromptPhase::Failed("RPC command is 10 bytes; limit is 4 bytes".to_owned())
    );
    assert!(supervisor.is_reading());
}

#[test]
fn other_write_failures_stop_the_loop() {
    let mut supervisor = Supervisor::new();
    let action: Action = supervisor.step(Event::RequestWritten {
        request_id: request("req-1"),
        waiter: "waiter-1",
        outcome: Err(RequestError::Transport("broken pipe".to_owned())),
    });
    match action {
        SupervisorAction::Stop { reason, reply } => {
            assert_eq!(reason, StopReason::TransportFailed("OMP transport failed: broken pipe".to_owned()));
            assert_eq!(reply, Some(("waiter-1", RequestError::Transport("broken pipe".to_owned()))));
        }
        _ => panic!("the loop should stop"),
    }
}

#[test]
fn messages_without_responses_are_acknowledged_or_refused() {
    let mut supervisor: Supervisor<&'static str> = Supervisor::new();
    let action: Action = supervisor.step(Event::MessageWritten { waiter: "sender", outcome: Ok(()) });
    assert!(matches!(action, SupervisorAction::Acknowledge { waiter: "sender" }));
    let action: Action = supervisor.step(Event::MessageWritten {
        waiter: "sender",
        outcome: Err(RequestError::FrameTooLarge { bytes: 9, limit: 8 }),
    });
    assert!(matches!(action, SupervisorAction::Reply { waiter: "sender", .. }));
    let action: Action = supervisor.step(Event::MessageWritten {
        waiter: "sender",
        outcome: Err(RequestError::Transport("closed".to_owned())),
    });
    assert!(matches!(action, SupervisorAction::Stop { reason: StopReason::TransportFailed(_), reply: Some(_) }));
}

#[test]
fn cancelled_requests_lose_their_waiter() {
    let mut supervisor = Supervisor::new();
    send_prompt(&mut supervisor, "req-1", "waiter-1");
    let action: Action = supervisor.step(Event::Cancel { request_id: request("req-1") });
    assert!(matches!(action, SupervisorAction::Continue));
    let action: Action = supervisor.step(Event::Frame {
        signal: PromptSignal::Other,
        response_to: Some(request("req-1")),
        frame: "response",
    });
    assert!(matches!(action, SupervisorAction::Publish { frame: "response" }));
    assert!(supervisor.finish().is_empty());
}

#[test]
fn reader_end_stops_reading_and_reader_failure_stops_the_loop() {
    let mut supervisor: Supervisor<&'static str> = Supervisor::new();
    let action: Action = supervisor.step(Event::ReaderEnded);
    assert!(matches!(action, SupervisorAction::Continue));
    assert!(!supervisor.is_reading());
    let action: Action = supervisor.step(Event::ReaderFailed("bad frame".to_owned()));
    assert!(matches!(
        action,
        SupervisorAction::Stop { reason: StopReason::TransportFailed(ref message), reply: None } if message == "bad frame"
    ));
}

#[test]
fn exit_and_shutdown_stop_the_loop_and_leave_waiters_to_be_told() {
    let mut supervisor = Supervisor::new();
    send_prompt(&mut supervisor, "req-1", "waiter-1");
    send_prompt(&mut supervisor, "req-2", "waiter-2");
    let action: Action = supervisor.step(Event::ChildExited);
    assert!(matches!(action, SupervisorAction::Stop { reason: StopReason::ChildExited, reply: None }));
    let action: Action = supervisor.step(Event::ShutdownRequested);
    assert!(matches!(action, SupervisorAction::Stop { reason: StopReason::Shutdown, reply: None }));
    let mut left = supervisor.finish();
    left.sort();
    assert_eq!(left, vec!["waiter-1", "waiter-2"]);
    assert!(supervisor.finish().is_empty());
}

#[test]
fn stopped_runtimes_publish_how_the_process_ended() {
    let exit = RuntimeExit { code: Some(0), success: true, forced: false };
    assert_eq!(stopped_status(&StopReason::ChildExited, Ok(exit)), RuntimeStatus::Exited(exit));
    assert_eq!(
        stopped_status(&StopReason::Shutdown, Err("wait failed".to_owned())),
        RuntimeStatus::Failed("wait failed".to_owned())
    );
    assert_eq!(
        stopped_status(&StopReason::TransportFailed("broken".to_owned()), Ok(exit)),
        RuntimeStatus::Failed("broken".to_owned())
    );
    assert_eq!(shutdown_answer(Ok(exit)), Ok(exit));
    assert_eq!(
        shutdown_answer(Err("kill failed".to_owned())),
        Err(RequestError::Transport("kill failed".to_owned()))
    );
}
