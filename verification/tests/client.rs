use omp_remote::client::{
    effect_event, expect_welcome, reconnect_wait_ms, server_frame_action, stored_authentication,
    ClientEvent, FrameAction, frame_agent_id, negotiated_frame_limit, review_welcome, validate_operation_id,
    ClientRunError, IdGenerationError, IdGenerator, RequestError,
};
use omp_remote::config::{
    add_required_capabilities, next_delay, ClientConfig, ClientConfigError, ReconnectPolicy,
};
use omp_remote::connection::{
    check_endpoint, decode_fingerprint, host_is_localhost, parse_endpoint, SocketTarget,
};
use omp_remote::frontend::{
    looks_like_pairing_link, save_profile_list, sort_by_name, upsert_profile,
    SavedServerProfile,
};
use omp_remote::ids::{
    AgentId, ConnectionId, DeviceId, DeviceToken, OperationId, PairingId, PairingSecret, ServerId,
};
use omp_remote::protocol::{
    ClientAuthentication, ClientCapabilities, ClientDescriptor, ClientPlatform, ControlRequest,
    DeviceCredential, DeviceScopes, PairingBundle, ProtocolVersion, ReplayGap, ReplayGapReason,
    Pong, ProtocolError, ServerCapabilities, ServerFrame, ServerShutdown, ServerWelcome, TlsIdentityHint, CAPABILITY_EVENT_REPLAY,
    CAPABILITY_INTERACTION_LEASES, CAPABILITY_STATE_DELTAS,
};
use omp_remote::state::{EventSequence, StateRevision};
use omp_remote::reducer::ReplicationEffect;
use omp_remote::storage::{BrowserCredentialStore, MemoryCredentialStore};
use omp_remote::text::text_le;

fn server_id() -> ServerId {
    ServerId::new("server-1".to_owned()).unwrap()
}

fn device_id() -> DeviceId {
    DeviceId::new("device-1".to_owned()).unwrap()
}

fn descriptor() -> ClientDescriptor {
    ClientDescriptor {
        name: "client".to_owned(),
        version: "1.0".to_owned(),
        platform: ClientPlatform::Desktop,
        capabilities: ClientCapabilities { requested: vec![CAPABILITY_EVENT_REPLAY.to_owned()] },
    }
}

fn welcome(credential: Option<DeviceCredential>) -> ServerWelcome {
    ServerWelcome {
        protocol_version: ProtocolVersion(1),
        server_id: server_id(),
        connection_id: ConnectionId::new("connection-1".to_owned()).unwrap(),
        device_id: device_id(),
        capabilities: ServerCapabilities { enabled: Vec::new(), max_frame_bytes: 4_096 },
        heartbeat_interval_ms: 15_000,
        issued_credential: credential,
    }
}

fn credential() -> DeviceCredential {
    DeviceCredential {
        server_id: server_id(),
        device_id: device_id(),
        token: DeviceToken::new("issued-token".to_owned()),
        scopes: DeviceScopes::all(),
    }
}

fn pairing() -> ClientAuthentication {
    ClientAuthentication::Pair {
        pairing_id: PairingId::new("pairing-1".to_owned()).unwrap(),
        secret: PairingSecret::new("pairing-secret".to_owned()),
        device: omp_remote::protocol::DeviceDescriptor {
            name: "paired-device".to_owned(),
            platform: ClientPlatform::Desktop,
        },
    }
}

#[test]
fn identifiers_count_up_under_one_prefix() {
    let mut ids = IdGenerator::from_random(&[0_u8; 16]);
    assert_eq!(ids.next("request").unwrap(), "request-AAAAAAAAAAAAAAAAAAAAAA-0");
    assert_eq!(ids.next("operation").unwrap(), "operation-AAAAAAAAAAAAAAAAAAAAAA-1");
    assert_eq!(
        IdGenerationError::Exhausted.to_string(),
        "control client identifier space is exhausted"
    );
    let random = IdGenerator::new().unwrap();
    drop(random);
}

#[test]
fn welcomes_are_checked_against_the_configuration() {
    assert_eq!(review_welcome(&server_id(), &pairing(), &welcome(Some(credential()))), Ok(true));
    assert_eq!(
        review_welcome(&server_id(), &pairing(), &welcome(None)),
        Err(ClientRunError::Protocol(
            "pairing welcome did not include a device credential".to_owned()
        ))
    );
    let device = ClientAuthentication::Device {
        device_id: device_id(),
        token: DeviceToken::new("token".to_owned()),
    };
    assert_eq!(review_welcome(&server_id(), &device, &welcome(None)), Ok(false));
    let other = ServerId::new("server-2".to_owned()).unwrap();
    assert_eq!(
        review_welcome(&other, &device, &welcome(None)),
        Err(ClientRunError::ServerIdentityMismatch)
    );
    let mut old_version = welcome(None);
    old_version.protocol_version = ProtocolVersion(2);
    assert_eq!(
        review_welcome(&server_id(), &device, &old_version),
        Err(ClientRunError::Protocol(
            "server selected an unsupported protocol version".to_owned()
        ))
    );
    let mut foreign = credential();
    foreign.device_id = DeviceId::new("device-2".to_owned()).unwrap();
    assert_eq!(
        review_welcome(&server_id(), &pairing(), &welcome(Some(foreign))),
        Err(ClientRunError::CredentialServerMismatch)
    );
}

#[test]
fn frame_limits_and_reconnect_delays() {
    assert_eq!(negotiated_frame_limit(4_096, 1_024), Ok(1_024));
    assert_eq!(negotiated_frame_limit(512, 1_024), Ok(512));
    assert_eq!(
        negotiated_frame_limit(0, 1_024),
        Err(ClientRunError::Protocol("server advertised a zero-byte frame limit".to_owned()))
    );
    assert_eq!(next_delay(250, 10_000), 500);
    assert_eq!(next_delay(8_000, 10_000), 10_000);
    assert_eq!(next_delay(u64::MAX, 10_000), 10_000);
    let policy = ReconnectPolicy::default();
    assert_eq!(policy.initial_delay_ms, 250);
    assert_eq!(policy.maximum_delay_ms, 10_000);
}

#[test]
fn operation_ids_follow_mutation() {
    let agent = AgentId::new("agent-1".to_owned()).unwrap();
    let operation = OperationId::new("operation-1".to_owned()).unwrap();
    assert_eq!(
        validate_operation_id(&ControlRequest::StopAgent { agent_id: agent.clone() }, None),
        Err(RequestError::InvalidRequest("mutating requests require an operation ID".to_owned()))
    );
    assert_eq!(
        validate_operation_id(&ControlRequest::ListAgents, Some(&operation)),
        Err(RequestError::InvalidRequest(
            "read-only requests cannot carry an operation ID".to_owned()
        ))
    );
    assert_eq!(validate_operation_id(&ControlRequest::ListAgents, None), Ok(()));
    let gap: ServerFrame<()> = ServerFrame::ReplayGap(ReplayGap {
        agent_id: agent.clone(),
        current_revision: StateRevision(1),
        current_event_sequence: EventSequence(1),
        reason: ReplayGapReason::SlowConsumer,
    });
    assert_eq!(frame_agent_id(&gap), Some(agent));
    assert_eq!(RequestError::ClientStopped.to_string(), "control client has stopped");
}

#[test]
fn configurations_request_the_required_capabilities() {
    let mut client = descriptor();
    add_required_capabilities(&mut client);
    assert_eq!(
        client.capabilities.requested,
        vec![
            CAPABILITY_EVENT_REPLAY.to_owned(),
            CAPABILITY_STATE_DELTAS.to_owned(),
            CAPABILITY_INTERACTION_LEASES.to_owned(),
        ]
    );
    let bundle = PairingBundle {
        format_version: 2,
        server_id: server_id(),
        endpoint: "wss://example.test/control".to_owned(),
        pairing_id: PairingId::new("pairing-1".to_owned()).unwrap(),
        secret: PairingSecret::new("secret".to_owned()),
        expires_at_ms: 42,
        tls_identity: TlsIdentityHint::PubliclyTrusted,
    };
    assert!(matches!(
        ClientConfig::pairing(bundle, descriptor(), "device".to_owned()),
        Err(ClientConfigError::UnsupportedPairingFormat(2))
    ));
    assert_eq!(
        ClientConfigError::UnsupportedPairingFormat(2).to_string(),
        "unsupported pairing bundle format version 2"
    );
    let config = ClientConfig::stored(
        SocketTarget {
            endpoint: "wss://example.test/control".to_owned(),
            tls_identity: TlsIdentityHint::PubliclyTrusted,
        },
        server_id(),
        descriptor(),
    );
    assert_eq!(config.event_subscriber_capacity, 256);
    assert_eq!(config.client.capabilities.requested.len(), 3);
}

#[test]
fn native_adapter_rejects_non_loopback_plaintext_before_connecting() {
    let endpoint = parse_endpoint("ws://example.com/control").unwrap();
    let error = check_endpoint(&TlsIdentityHint::InsecureDevelopment, &endpoint, false).unwrap_err();
    assert!(error.to_string().contains("loopback ws://"));
    let local = parse_endpoint("ws://LocalHost:7777/control").unwrap();
    assert!(check_endpoint(&TlsIdentityHint::InsecureDevelopment, &local, false).is_ok());
    let trusted = parse_endpoint("ws://example.com/control").unwrap();
    assert!(check_endpoint(&TlsIdentityHint::PubliclyTrusted, &trusted, false).is_err());
    assert!(parse_endpoint("not a url").unwrap_err().to_string().starts_with("invalid WebSocket endpoint: "));
    assert!(host_is_localhost("LOCALHOST"));
    assert!(!host_is_localhost("localhost.example"));
}

#[test]
fn fingerprints_decode_to_their_bytes() {
    let text: String = (0..32u8).map(|byte| format!("{byte:02x}")).collect();
    let bytes = decode_fingerprint(&text).unwrap();
    assert_eq!(bytes.to_vec(), (0..32u8).collect::<Vec<_>>());
    assert_eq!(
        decode_fingerprint("00").unwrap_err().to_string(),
        "SHA-256 certificate fingerprint must contain 64 hexadecimal characters"
    );
    assert_eq!(
        decode_fingerprint(&"zz".repeat(32)).unwrap_err().to_string(),
        "SHA-256 certificate fingerprint contains non-hexadecimal data"
    );
}

#[test]
fn stores_give_back_the_last_saved_credential() {
    let mut store = MemoryCredentialStore::new();
    assert!(store.load(&server_id()).is_none());
    store.save(&credential());
    let mut replacement = credential();
    replacement.token = DeviceToken::new("newer".to_owned());
    store.save(&replacement);
    assert_eq!(store.load(&server_id()).unwrap().token.expose_secret(), "newer");
    store.remove(&server_id());
    assert!(store.load(&server_id()).is_none());
    let browser = BrowserCredentialStore::new("omp-remote:credentials:v1".to_owned());
    assert_eq!(browser.key(&server_id()), "omp-remote:credentials:v1:server-1");
}

#[test]
fn saved_profiles_replace_the_same_server() {
    let profile = |name: &str, server: &str| SavedServerProfile {
        name: name.to_owned(),
        server_id: ServerId::new(server.to_owned()).unwrap(),
        endpoint: "wss://example.test".to_owned(),
        tls_identity: TlsIdentityHint::PubliclyTrusted,
    };
    let mut profiles = vec![profile("a", "server-1"), profile("b", "server-2")];
    upsert_profile(&mut profiles, profile("renamed", "server-1"));
    assert_eq!(profiles.len(), 2);
    assert_eq!(profiles[0].name, "renamed");
    upsert_profile(&mut profiles, profile("c", "server-3"));
    assert_eq!(profiles.len(), 3);
    assert!(looks_like_pairing_link("omp-remote://pair#abc"));
    assert!(looks_like_pairing_link("https://app.example.test/pair#abc"));
    assert!(!looks_like_pairing_link("https://app.example.test/pair"));
}

#[test]
fn saved_profiles_are_sorted_by_name_and_keep_one_per_server() {
    let profile = |name: &str, server: &str| SavedServerProfile {
        name: name.to_owned(),
        server_id: ServerId::new(server.to_owned()).unwrap(),
        endpoint: "wss://example.test".to_owned(),
        tls_identity: TlsIdentityHint::PubliclyTrusted,
    };
    assert!(text_le("abc", "abd"));
    assert!(text_le("ab", "abc"));
    assert!(!text_le("b", "abc"));
    assert!(text_le("same", "same"));
    assert!(text_le("Z", "a"));
    let sorted = sort_by_name(vec![
        profile("beta", "server-1"),
        profile("alpha", "server-2"),
        profile("beta", "server-3"),
    ]);
    let order: Vec<(String, String)> = sorted
        .iter()
        .map(|p| (p.name.clone(), p.server_id.as_str().to_owned()))
        .collect();
    assert_eq!(
        order,
        vec![
            ("alpha".to_owned(), "server-2".to_owned()),
            ("beta".to_owned(), "server-1".to_owned()),
            ("beta".to_owned(), "server-3".to_owned()),
        ]
    );
    let saved = save_profile_list(
        vec![profile("alpha", "server-1"), profile("omega", "server-2")],
        profile("zulu", "server-1"),
    );
    let names: Vec<String> = saved.iter().map(|p| p.name.clone()).collect();
    assert_eq!(names, vec!["omega".to_owned(), "zulu".to_owned()]);
}

#[test]
fn stored_credentials_decide_how_a_client_authenticates() {
    let (authentication, kept) =
        stored_authentication(&server_id(), Ok(Some(credential()))).unwrap();
    assert!(matches!(authentication, ClientAuthentication::Device { .. }));
    assert_eq!(kept.device_id.as_str(), "device-1");
    assert!(matches!(
        stored_authentication(&server_id(), Ok(None)),
        Err(ClientRunError::CredentialUnavailable)
    ));
    assert!(matches!(
        stored_authentication(&server_id(), Err("keyring locked".to_owned())),
        Err(ClientRunError::CredentialStorage(text)) if text == "keyring locked"
    ));
    let other = ServerId::new("server-2".to_owned()).unwrap();
    assert!(matches!(
        stored_authentication(&other, Ok(Some(credential()))),
        Err(ClientRunError::CredentialServerMismatch)
    ));
}

#[test]
fn connected_clients_route_each_server_frame() {
    let shutdown: ServerFrame<&'static str> = ServerFrame::ServerShutdown(ServerShutdown {
        reason: "maintenance".to_owned(),
        reconnect_after_ms: Some(2_500),
    });
    match server_frame_action(shutdown) {
        FrameAction::Reconnect { reason, after_ms } => {
            assert_eq!(reason.as_deref(), Some("maintenance"));
            assert_eq!(after_ms, Some(2_500));
            assert_eq!(reconnect_wait_ms(after_ms, 100), 2_500);
        }
        _ => panic!("a shutdown notice reconnects"),
    }
    assert_eq!(reconnect_wait_ms(None, 100), 100);
    let pong: ServerFrame<&'static str> = ServerFrame::Pong(Pong { nonce: 4 });
    assert!(matches!(server_frame_action(pong), FrameAction::Ignore));
    let error: ServerFrame<&'static str> = ServerFrame::Error(ProtocolError {
        code: "bad".to_owned(),
        message: "bad frame".to_owned(),
        retryable: false,
    });
    assert!(matches!(server_frame_action(error), FrameAction::Report(e) if e.code == "bad"));
    let gap: ServerFrame<&'static str> = ServerFrame::ReplayGap(ReplayGap {
        agent_id: AgentId::new("agent-1".to_owned()).unwrap(),
        current_revision: StateRevision(2),
        current_event_sequence: EventSequence(5),
        reason: ReplayGapReason::SlowConsumer,
    });
    assert!(matches!(server_frame_action(gap), FrameAction::Replicate(ServerFrame::ReplayGap(_))));
    let welcome: ServerFrame<&'static str> = ServerFrame::Pong(Pong { nonce: 1 });
    match expect_welcome(welcome) {
        Err(ClientRunError::Protocol(message)) => {
            assert_eq!(message, "server did not send welcome as its first frame")
        }
        _ => panic!("only a welcome opens a session"),
    }
}

#[test]
fn resync_effects_resubscribe_their_agent() {
    let agent = AgentId::new("agent-1".to_owned()).unwrap();
    let (event, again) = effect_event::<&'static str>(ReplicationEffect::ResyncRequired(agent));
    assert!(matches!(event, ClientEvent::ResyncRequired(id) if id.as_str() == "agent-1"));
    assert_eq!(again.unwrap().as_str(), "agent-1");
    let changed = AgentId::new("agent-2".to_owned()).unwrap();
    let (event, again) = effect_event::<&'static str>(ReplicationEffect::StateChanged(changed));
    assert!(matches!(event, ClientEvent::StateChanged(_)));
    assert!(again.is_none());
}
