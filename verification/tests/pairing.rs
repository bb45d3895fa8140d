use base64::engine::general_purpose::URL_SAFE_NO_PAD;
use base64::Engine;
use omp_remote::pairing::{decode_pairing_payload, PairingLinkError, MAX_PAIRING_PAYLOAD_BYTES};

fn sample_payload() -> Vec<u8> {
    let mut bytes = Vec::new();
    let value = ciborium::value::Value::Map(vec![
        (
            ciborium::value::Value::Text("formatVersion".to_owned()),
            ciborium::value::Value::Integer(1.into()),
        ),
        (
            ciborium::value::Value::Text("serverId".to_owned()),
            ciborium::value::Value::Text("server-1".to_owned()),
        ),
        (
            ciborium::value::Value::Text("expiresAtMs".to_owned()),
            ciborium::value::Value::Integer(42.into()),
        ),
    ]);
    ciborium::ser::into_writer(&value, &mut bytes).unwrap();
    bytes
}

#[test]
fn native_and_browser_fragment_links_decode_the_same_bundle() {
    let bytes = sample_payload();
    let payload = URL_SAFE_NO_PAD.encode(&bytes);

    assert_eq!(
        decode_pairing_payload(&format!("omp-remote://pair#{payload}")).unwrap(),
        bytes
    );
    assert_eq!(
        decode_pairing_payload(&format!("https://app.example.test/pair#{payload}")).unwrap(),
        bytes
    );
    assert_eq!(decode_pairing_payload(&payload).unwrap(), bytes);
    assert_eq!(
        decode_pairing_payload(&format!("  omp-remote://pair#{payload}\n")).unwrap(),
        bytes
    );
}

#[test]
fn malformed_and_oversized_pairing_payloads_fail_without_echoing_secrets() {
    let invalid = decode_pairing_payload("omp-remote://pair#not%base64").unwrap_err();
    assert!(matches!(invalid, PairingLinkError::InvalidBase64(_)));
    assert!(!invalid.to_string().contains("not%base64"));

    let oversized = "a".repeat(MAX_PAIRING_PAYLOAD_BYTES as usize * 2);
    assert!(matches!(
        decode_pairing_payload(&oversized),
        Err(PairingLinkError::PayloadTooLarge)
    ));
}

#[test]
fn links_without_a_payload_are_refused() {
    assert!(matches!(
        decode_pairing_payload("omp-remote://pair#"),
        Err(PairingLinkError::MissingPayload)
    ));
    assert!(matches!(
        decode_pairing_payload("   "),
        Err(PairingLinkError::MissingPayload)
    ));
    assert_eq!(
        PairingLinkError::MissingPayload.to_string(),
        "pairing link has no payload"
    );
}
