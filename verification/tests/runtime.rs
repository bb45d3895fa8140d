use omp_remote::rpc::RequestId;
use omp_remote::runtime::{
    check_command_size, failed_prompt, negotiation_step, next_line_step, next_prompt_status,
    submitted_prompt, NegotiationReply, NegotiationStep,
    line_startup_error, request_startup_error, LineReadError, LineStep, PromptCompletion,
    PromptPhase, PromptSignal, RequestError, ResponseTable, RuntimeSpawnError,
};

fn request(id: &str) -> RequestId {
    RequestId::new(id.to_owned())
}

#[test]
fn agent_prompts_run_and_complete() {
    let status = Some(submitted_prompt(&request("req-1")));
    let running = next_prompt_status(&status, &PromptSignal::AgentStart).unwrap();
    assert_eq!(running.phase, PromptPhase::Running);
    let done = next_prompt_status(&Some(running), &PromptSignal::AgentEnd).unwrap();
    assert_eq!(done.phase, PromptPhase::Completed(PromptCompletion::Agent));
    assert_eq!(next_prompt_status(&Some(done), &PromptSignal::AgentStart), None);
}

#[test]
fn local_prompts_complete_from_the_late_prompt_result_hint() {
    let status = Some(submitted_prompt(&request("req-1")));
    let hint = PromptSignal::PromptResult { id: Some(request("req-1")), agent_invoked: false };
    let done = next_prompt_status(&status, &hint).unwrap();
    assert_eq!(done.phase, PromptPhase::Completed(PromptCompletion::Local));
    let other = PromptSignal::PromptResult { id: Some(request("req-2")), agent_invoked: false };
    assert_eq!(next_prompt_status(&status, &other), None);
    assert_eq!(next_prompt_status(&None, &hint), None);
}

#[test]
fn prompt_errors_fail_the_prompt() {
    let status = Some(submitted_prompt(&request("req-1")));
    let error = PromptSignal::ResponseError {
        id: Some(request("req-1")),
        error: "busy".to_owned(),
    };
    assert_eq!(
        next_prompt_status(&status, &error).unwrap().phase,
        PromptPhase::Failed("busy".to_owned())
    );
    let acknowledged = PromptSignal::ResponseSuccess {
        id: Some(request("req-1")),
        prompt_acknowledged: Some(true),
    };
    assert_eq!(
        next_prompt_status(&status, &acknowledged).unwrap().phase,
        PromptPhase::Running
    );
    assert_eq!(
        failed_prompt(&status, &request("req-1"), "too large".to_owned()).unwrap().phase,
        PromptPhase::Failed("too large".to_owned())
    );
    assert_eq!(failed_prompt(&status, &request("req-9"), "x".to_owned()), None);
}

#[test]
fn lines_are_read_through_their_newline_within_the_limit() {
    assert_eq!(next_line_step(0, b"", 10), LineStep::End);
    assert_eq!(next_line_step(3, b"", 10), LineStep::UnexpectedEnd);
    assert_eq!(
        next_line_step(0, b"ab\ncd", 10),
        LineStep::Take { consumed: 3, complete: true }
    );
    assert_eq!(
        next_line_step(2, b"abcd", 10),
        LineStep::Take { consumed: 4, complete: false }
    );
    assert_eq!(next_line_step(8, b"abcd", 10), LineStep::TooLarge);
}

#[test]
fn commands_over_the_frame_limit_are_refused() {
    assert_eq!(check_command_size(10, 10), Ok(()));
    let error = check_command_size(11, 10).unwrap_err();
    assert_eq!(error, RequestError::FrameTooLarge { bytes: 11, limit: 10 });
    assert_eq!(error.to_string(), "RPC command is 11 bytes; limit is 10 bytes");
    assert_eq!(
        RequestError::TimedOut { request_id: request("req-3") }.to_string(),
        "request req-3 timed out"
    );
}

#[test]
fn response_table_correlates_out_of_order_responses() {
    let mut table: ResponseTable<&'static str> = ResponseTable::new();
    assert!(table.insert(RequestId::new("first".to_owned()), "one").is_none());
    assert!(table.insert(RequestId::new("second".to_owned()), "two").is_none());
    assert_eq!(table.take(&RequestId::new("second".to_owned())), Some("two"));
    assert_eq!(table.take(&RequestId::new("unknown".to_owned())), None);
    assert_eq!(table.take(&RequestId::new("first".to_owned())), Some("one"));
    assert_eq!(table.take(&RequestId::new("first".to_owned())), None);
    assert!(table.insert(RequestId::new("again".to_owned()), "a").is_none());
    assert_eq!(table.insert(RequestId::new("again".to_owned()), "b"), Some("a"));
    assert!(table.insert(RequestId::new("other".to_owned()), "c").is_none());
    let mut left = table.drain();
    left.sort();
    assert_eq!(left, vec!["b", "c"]);
    assert!(table.drain().is_empty());
}

#[test]
fn startup_read_failures_become_spawn_errors() {
    assert_eq!(
        LineReadError::TooLarge { limit: 64 }.to_string(),
        "RPC frame exceeds 64 bytes"
    );
    assert_eq!(
        line_startup_error(LineReadError::Io("broken pipe".to_owned())),
        RuntimeSpawnError::StartupIo("broken pipe".to_owned())
    );
    assert_eq!(
        line_startup_error(LineReadError::UnexpectedEof).to_string(),
        "invalid OMP startup frame: OMP stdout ended in the middle of a frame"
    );
    assert_eq!(
        request_startup_error(&RequestError::RuntimeStopped).to_string(),
        "OMP RPC protocol-v2 negotiation failed: OMP runtime is not running"
    );
}

#[test]
fn negotiation_ends_on_its_own_result_and_keeps_other_frames() {
    let id = request("negotiate");
    let done = NegotiationReply::Success { id: Some(request("negotiate")), negotiated: true };
    assert_eq!(negotiation_step(&id, &done), NegotiationStep::Done);
    let wrong = NegotiationReply::Success { id: Some(request("negotiate")), negotiated: false };
    match negotiation_step(&id, &wrong) {
        NegotiationStep::Fail(error) => assert_eq!(
            error.to_string(),
            "OMP RPC protocol-v2 negotiation failed: server returned the wrong success response"
        ),
        _ => panic!("a wrong success fails startup"),
    }
    let refused = NegotiationReply::Error { id: Some(request("negotiate")), error: "unsupported".to_owned() };
    assert_eq!(
        negotiation_step(&id, &refused),
        NegotiationStep::Fail(RuntimeSpawnError::ProtocolNegotiation("unsupported".to_owned()))
    );
    let other = NegotiationReply::Error { id: Some(request("other")), error: "x".to_owned() };
    assert_eq!(negotiation_step(&id, &other), NegotiationStep::Keep);
    let unnumbered = NegotiationReply::Success { id: None, negotiated: true };
    assert_eq!(negotiation_step(&id, &unnumbered), NegotiationStep::Keep);
    assert_eq!(negotiation_step(&id, &NegotiationReply::Other), NegotiationStep::Keep);
}
