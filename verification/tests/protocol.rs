use omp_remote::ids::{AgentId, DeviceId, DeviceToken, OperationId, RequestId};
use omp_remote::protocol::{
    negotiate_client_hello, negotiate_version, ClientAuthentication, ClientCapabilities,
    ClientDescriptor, ClientFrame, ClientHello, ClientPlatform, ControlRequest, DeviceScopes,
    Ping, ProtocolNegotiationError, ProtocolVersion, RequestEnvelope, RequestValidationError,
    ResumeState, ServerCapabilities, CAPABILITY_EVENT_REPLAY, CAPABILITY_INTERACTION_LEASES,
    CAPABILITY_STATE_DELTAS,
};

fn hello(versions: Vec<ProtocolVersion>) -> ClientFrame {
    ClientFrame::Hello(ClientHello {
        supported_versions: versions,
        client: ClientDescriptor {
            name: "test-client".to_owned(),
            version: "1.2.3".to_owned(),
            platform: ClientPlatform::Cli,
            capabilities: ClientCapabilities {
                requested: vec![
                    CAPABILITY_EVENT_REPLAY.to_owned(),
                    CAPABILITY_STATE_DELTAS.to_owned(),
                ],
            },
        },
        authentication: ClientAuthentication::Device {
            device_id: DeviceId::new("device-1".to_owned()).unwrap(),
            token: DeviceToken::new("secret-token".to_owned()),
        },
        resume: ResumeState { subscriptions: Vec::new() },
    })
}

#[test]
fn unsupported_versions_and_non_hello_frames_fail_negotiation() {
    assert!(matches!(
        negotiate_client_hello(&hello(vec![ProtocolVersion(99)])),
        Err(ProtocolNegotiationError::UnsupportedVersions)
    ));
    assert!(matches!(
        negotiate_client_hello(&ClientFrame::Ping(Ping { nonce: 1 })),
        Err(ProtocolNegotiationError::ExpectedHello)
    ));

    let frame = hello(vec![ProtocolVersion(99), ProtocolVersion::v1()]);
    let (_, version) = negotiate_client_hello(&frame).unwrap();
    assert_eq!(version, ProtocolVersion::v1());
}

#[test]
fn capability_negotiation_enables_only_requested_supported_features() {
    let available = vec![
        CAPABILITY_INTERACTION_LEASES.to_owned(),
        CAPABILITY_STATE_DELTAS.to_owned(),
    ];
    let requested = ClientCapabilities {
        requested: vec![
            CAPABILITY_EVENT_REPLAY.to_owned(),
            CAPABILITY_STATE_DELTAS.to_owned(),
        ],
    };
    let negotiated = ServerCapabilities::negotiate(&available, &requested, 64 * 1_024);
    assert_eq!(negotiated.enabled, vec![CAPABILITY_STATE_DELTAS.to_owned()]);
}

#[test]
fn mutating_requests_require_stable_operation_ids() {
    let read = RequestEnvelope {
        request_id: RequestId::new("request-1".to_owned()).unwrap(),
        operation_id: None,
        request: ControlRequest::ListAgents,
    };
    assert_eq!(read.validate(), Ok(()));

    let mutation = RequestEnvelope {
        request_id: RequestId::new("request-2".to_owned()).unwrap(),
        operation_id: None,
        request: ControlRequest::StopAgent {
            agent_id: AgentId::new("agent-1".to_owned()).unwrap(),
        },
    };
    assert_eq!(
        mutation.validate(),
        Err(RequestValidationError::MissingOperationId)
    );
}

#[test]
fn read_only_requests_refuse_operation_ids() {
    let read = RequestEnvelope {
        request_id: RequestId::new("request-3".to_owned()).unwrap(),
        operation_id: Some(OperationId::new("operation-1".to_owned()).unwrap()),
        request: ControlRequest::GetAgent {
            agent_id: AgentId::new("agent-1".to_owned()).unwrap(),
        },
    };
    assert_eq!(
        read.validate(),
        Err(RequestValidationError::UnexpectedOperationId)
    );
    assert_eq!(
        RequestValidationError::UnexpectedOperationId.to_string(),
        "read-only requests cannot carry an operation ID"
    );
    assert!(!ControlRequest::ListAgents.is_mutating());
    assert!(ControlRequest::Abort {
        agent_id: AgentId::new("agent-1".to_owned()).unwrap()
    }
    .is_mutating());
}

#[test]
fn version_negotiation_picks_the_supported_version() {
    assert_eq!(
        negotiate_version(&[ProtocolVersion(1), ProtocolVersion(2)]),
        Ok(ProtocolVersion(1))
    );
    assert_eq!(
        negotiate_version(&[]),
        Err(ProtocolNegotiationError::UnsupportedVersions)
    );
    assert_eq!(
        ProtocolNegotiationError::ExpectedHello.to_string(),
        "first client frame must be hello"
    );
}

#[test]
fn identifiers_refuse_empty_text() {
    let error = AgentId::new(String::new()).unwrap_err();
    assert_eq!(error.to_string(), "agent ID cannot be empty");
    assert_eq!(AgentId::new("a".to_owned()).unwrap().as_str(), "a");
    let scopes = DeviceScopes::all();
    assert!(scopes.observe && scopes.administer_devices);
}
