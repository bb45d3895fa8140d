use omp_remote::ids::{AgentId, OperationId, RequestId};
use omp_remote::protocol::{ClientFrame, ControlRequest};
use omp_remote::session::{DesiredSubscriptions, PendingPayload, PendingRequests};

fn request_id(value: &str) -> RequestId {
    RequestId::new(value.to_owned()).unwrap()
}

fn operation_id(value: &str) -> OperationId {
    OperationId::new(value.to_owned()).unwrap()
}

fn agent(value: &str) -> AgentId {
    AgentId::new(value.to_owned()).unwrap()
}

#[test]
fn pending_requests_get_ascending_keys() {
    let mut pending: PendingRequests<u32> = PendingRequests::new();
    let first = pending.insert(PendingPayload::Request(ControlRequest::ListAgents), None, 10);
    let second = pending.insert(
        PendingPayload::Request(ControlRequest::ListAgents),
        Some(operation_id("operation-1")),
        20,
    );
    assert_eq!(first, 0);
    assert_eq!(second, 1);
    assert_eq!(pending.keys(), vec![0, 1]);
}

#[test]
fn frames_carry_the_request_id_and_the_operation_id() {
    let mut pending: PendingRequests<u32> = PendingRequests::new();
    let key = pending.insert(
        PendingPayload::Request(ControlRequest::ListAgents),
        Some(operation_id("operation-1")),
        7,
    );
    let frame = pending.frame(key, request_id("request-1")).unwrap();
    match frame {
        ClientFrame::Request(envelope) => {
            assert_eq!(envelope.request_id.as_str(), "request-1");
            assert_eq!(envelope.operation_id.unwrap().as_str(), "operation-1");
        }
        _ => panic!("expected a request frame"),
    }
    assert!(pending.frame(key + 1, request_id("request-2")).is_none());
}

#[test]
fn a_response_completes_the_request_sent_under_its_id() {
    let mut pending: PendingRequests<u32> = PendingRequests::new();
    let key = pending.insert(PendingPayload::Request(ControlRequest::ListAgents), None, 42);
    pending.mark_sent(key, request_id("request-1"));
    assert!(pending.complete(&request_id("request-9")).is_none());
    let done = pending.complete(&request_id("request-1")).unwrap();
    assert_eq!(done.response, 42);
    assert_eq!(done.sent_request_id.unwrap().as_str(), "request-1");
    assert!(pending.keys().is_empty());
    assert!(pending.complete(&request_id("request-1")).is_none());
}

#[test]
fn a_lost_connection_keeps_requests_and_drops_their_request_ids() {
    let mut pending: PendingRequests<u32> = PendingRequests::new();
    let key = pending.insert(
        PendingPayload::Request(ControlRequest::ListAgents),
        Some(operation_id("operation-1")),
        1,
    );
    pending.mark_sent(key, request_id("request-1"));
    pending.mark_disconnected();
    assert_eq!(pending.keys(), vec![key]);
    assert!(pending.complete(&request_id("request-1")).is_none());
    pending.mark_sent(key, request_id("request-2"));
    let done = pending.complete(&request_id("request-2")).unwrap();
    assert_eq!(done.operation_id.unwrap().as_str(), "operation-1");
}

#[test]
fn take_all_empties_the_pending_requests_in_key_order() {
    let mut pending: PendingRequests<u32> = PendingRequests::new();
    pending.insert(PendingPayload::Request(ControlRequest::ListAgents), None, 1);
    pending.insert(PendingPayload::Request(ControlRequest::ListAgents), None, 2);
    let taken = pending.take_all();
    let responses: Vec<u32> = taken.iter().map(|request| request.response).collect();
    assert_eq!(responses, vec![1, 2]);
    assert!(pending.keys().is_empty());
}

#[test]
fn desired_subscriptions_list_each_agent_once() {
    let mut wanted = DesiredSubscriptions::new();
    assert!(wanted.insert(agent("agent-a")));
    assert!(wanted.insert(agent("agent-b")));
    assert!(!wanted.insert(agent("agent-a")));
    let listed: Vec<String> = wanted.list().iter().map(|id| id.as_str().to_owned()).collect();
    assert_eq!(listed, vec!["agent-a".to_owned(), "agent-b".to_owned()]);
    assert!(wanted.remove(&agent("agent-a")));
    assert!(!wanted.remove(&agent("agent-a")));
    let listed: Vec<String> = wanted.list().iter().map(|id| id.as_str().to_owned()).collect();
    assert_eq!(listed, vec!["agent-b".to_owned()]);
}

#[test]
fn desired_subscriptions_are_listed_in_identifier_order() {
    let mut wanted = DesiredSubscriptions::new();
    assert!(wanted.insert(agent("zeta")));
    assert!(wanted.insert(agent("alpha")));
    assert!(wanted.insert(agent("mu")));
    let listed: Vec<String> = wanted.list().iter().map(|id| id.as_str().to_owned()).collect();
    assert_eq!(listed, vec!["alpha".to_owned(), "mu".to_owned(), "zeta".to_owned()]);
}
