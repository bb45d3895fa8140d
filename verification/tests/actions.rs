use omp_remote::frontend::{
    expect_accepted, expect_agents, expect_lease, expect_prompt_accepted, expect_released,
    lease_request, prompt_request, ActionError, INTERACTION_LEASE_TTL_MS,
};
use omp_remote::ids::{AgentId, LeaseHolderId, RunId};
use omp_remote::protocol::{ControlRequest, ControlResponse};
use omp_remote::rpc::StreamingBehavior;
use omp_remote::state::AgentSnapshot;

fn agent() -> AgentId {
    AgentId::new("agent-1".to_owned()).unwrap()
}

#[test]
fn actions_accept_only_the_response_they_asked_for() {
    let listed = expect_agents(ControlResponse::Agents {
        agents: vec![AgentSnapshot::initial(agent())],
    })
    .unwrap();
    assert_eq!(listed.len(), 1);
    assert!(matches!(
        expect_agents(ControlResponse::Accepted),
        Err(ActionError::UnexpectedResponse(ControlResponse::Accepted))
    ));
    let run = RunId::new("run-7".to_owned()).unwrap();
    assert_eq!(
        expect_prompt_accepted(ControlResponse::PromptAccepted { run_id: run.clone() }).unwrap(),
        run
    );
    assert!(expect_prompt_accepted(ControlResponse::InteractionReleased).is_err());
    assert!(expect_lease(ControlResponse::Accepted).is_err());
    assert!(expect_released(ControlResponse::InteractionReleased).is_ok());
    assert!(expect_released(ControlResponse::Accepted).is_err());
    assert!(expect_accepted(ControlResponse::Accepted).is_ok());
}

#[test]
fn user_interface_requests_carry_their_fixed_settings() {
    let holder = LeaseHolderId::new("ui-1".to_owned()).unwrap();
    match lease_request(agent(), holder) {
        ControlRequest::AcquireInteractionLease { ttl_ms, .. } => {
            assert_eq!(ttl_ms, 120_000);
            assert_eq!(ttl_ms, INTERACTION_LEASE_TTL_MS);
        }
        _ => panic!("expected a lease request"),
    }
    match prompt_request(agent(), "hello".to_owned()) {
        ControlRequest::Prompt { message, images, streaming_behavior, .. } => {
            assert_eq!(message, "hello");
            assert!(images.is_empty());
            assert_eq!(streaming_behavior, Some(StreamingBehavior::FollowUp));
        }
        _ => panic!("expected a prompt"),
    }
}
