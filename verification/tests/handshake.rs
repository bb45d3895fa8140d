use omp_remote::client::{accept_welcome, ClientRunError};
use omp_remote::connection::{check_browser_endpoint, decode_fingerprint, parse_endpoint};
use omp_remote::frontend::pairing_link_expired;
use omp_remote::ids::{
    ConnectionId, DeviceId, DeviceToken, PairingId, PairingSecret, ServerId,
};
use omp_remote::protocol::{
    ClientAuthentication, ClientPlatform, DeviceCredential, DeviceDescriptor, DeviceScopes,
    ProtocolVersion, ServerCapabilities, ServerWelcome, TlsIdentityHint,
};

fn server_id() -> ServerId {
    ServerId::new("server-1".to_owned()).unwrap()
}

fn device_id() -> DeviceId {
    DeviceId::new("device-1".to_owned()).unwrap()
}

fn credential() -> DeviceCredential {
    DeviceCredential {
        server_id: server_id(),
        device_id: device_id(),
        token: DeviceToken::new("issued-token".to_owned()),
        scopes: DeviceScopes::all(),
    }
}

fn welcome(max_frame_bytes: u32, issued: Option<DeviceCredential>) -> ServerWelcome {
    ServerWelcome {
        protocol_version: ProtocolVersion(1),
        server_id: server_id(),
        connection_id: ConnectionId::new("connection-1".to_owned()).unwrap(),
        device_id: device_id(),
        capabilities: ServerCapabilities { enabled: Vec::new(), max_frame_bytes },
        heartbeat_interval_ms: 15_000,
        issued_credential: issued,
    }
}

fn pairing() -> ClientAuthentication {
    ClientAuthentication::Pair {
        pairing_id: PairingId::new("pairing-1".to_owned()).unwrap(),
        secret: PairingSecret::new("pairing-secret".to_owned()),
        device: DeviceDescriptor { name: "paired-device".to_owned(), platform: ClientPlatform::Desktop },
    }
}

fn device() -> ClientAuthentication {
    ClientAuthentication::Device {
        device_id: device_id(),
        token: DeviceToken::new("stored-token".to_owned()),
    }
}

#[test]
fn pairing_welcome_hands_over_its_credential_and_the_smaller_limit() {
    let accepted = accept_welcome(&server_id(), &pairing(), welcome(4_096, Some(credential())), 1_024)
        .unwrap();
    assert!(accepted.welcome == welcome(4_096, None));
    assert!(accepted.credential_to_save == Some(credential()));
    assert_eq!(accepted.frame_limit, Ok(1_024));
}

#[test]
fn device_welcome_saves_nothing_and_keeps_the_server_limit_when_smaller() {
    let accepted = accept_welcome(&server_id(), &device(), welcome(2_048, None), 8_192).unwrap();
    assert!(accepted.welcome == welcome(2_048, None));
    assert!(accepted.credential_to_save.is_none());
    assert_eq!(accepted.frame_limit, Ok(2_048));
}

#[test]
fn zero_frame_limit_is_refused_after_the_credential_is_handed_over() {
    let accepted = accept_welcome(&server_id(), &pairing(), welcome(0, Some(credential())), 1_024)
        .unwrap();
    assert!(accepted.credential_to_save == Some(credential()));
    assert_eq!(
        accepted.frame_limit,
        Err(ClientRunError::Protocol("server advertised a zero-byte frame limit".to_owned()))
    );
}

#[test]
fn welcomes_from_another_server_are_refused() {
    let other = ServerId::new("server-2".to_owned()).unwrap();
    assert_eq!(
        accept_welcome(&other, &device(), welcome(4_096, None), 1_024).err(),
        Some(ClientRunError::ServerIdentityMismatch)
    );
    let stranger = ClientAuthentication::Device {
        device_id: DeviceId::new("device-2".to_owned()).unwrap(),
        token: DeviceToken::new("stored-token".to_owned()),
    };
    assert_eq!(
        accept_welcome(&server_id(), &stranger, welcome(4_096, None), 1_024).err(),
        Some(ClientRunError::CredentialServerMismatch)
    );
    assert!(accept_welcome(&server_id(), &pairing(), welcome(4_096, None), 1_024).is_err());
}

#[test]
fn fingerprints_take_exactly_sixty_four_hex_digits() {
    assert_eq!(
        decode_fingerprint(&"+0".repeat(32)).unwrap_err().to_string(),
        "SHA-256 certificate fingerprint contains non-hexadecimal data"
    );
    let multibyte = format!("{}{}", "é", "0".repeat(62));
    assert_eq!(multibyte.len(), 64);
    assert_eq!(
        decode_fingerprint(&multibyte).unwrap_err().to_string(),
        "SHA-256 certificate fingerprint contains non-hexadecimal data"
    );
    let upper = decode_fingerprint(&"AB".repeat(32)).unwrap();
    assert_eq!(upper, [0xab; 32]);
}

#[test]
fn browsers_refuse_pinning_and_plaintext_to_remote_hosts() {
    let secure = parse_endpoint("wss://example.com/control").unwrap();
    assert!(check_browser_endpoint(&TlsIdentityHint::PubliclyTrusted, &secure, false).is_ok());
    let plain = parse_endpoint("ws://example.com/control").unwrap();
    assert_eq!(
        check_browser_endpoint(&TlsIdentityHint::PubliclyTrusted, &plain, false)
            .unwrap_err()
            .to_string(),
        "browser trusted connections require a wss:// endpoint"
    );
    assert_eq!(
        check_browser_endpoint(&TlsIdentityHint::InsecureDevelopment, &plain, false)
            .unwrap_err()
            .to_string(),
        "browser development connections require a loopback ws:// endpoint"
    );
    let local = parse_endpoint("ws://localhost:7777/control").unwrap();
    assert!(check_browser_endpoint(&TlsIdentityHint::InsecureDevelopment, &local, false).is_ok());
    let address = parse_endpoint("ws://127.0.0.1:7777/control").unwrap();
    assert!(check_browser_endpoint(&TlsIdentityHint::InsecureDevelopment, &address, true).is_ok());
    assert_eq!(
        check_browser_endpoint(&TlsIdentityHint::Sha256Fingerprint("00".repeat(32)), &secure, false)
            .unwrap_err()
            .to_string(),
        "browsers do not expose certificate pinning; use a publicly trusted certificate"
    );
}

#[test]
fn pairing_links_expire_at_their_deadline() {
    assert!(!pairing_link_expired(1_000, 999));
    assert!(pairing_link_expired(1_000, 1_000));
    assert!(pairing_link_expired(1_000, 1_001));
}
