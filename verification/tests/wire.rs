use omp_remote::rpc::{ExtensionUiResponse, MessagePageLimit, ProtocolVersion};
use omp_remote::transport::{
    ChunkFrame, ChunkFrameError, ReadyFrame, ReadyFrameError, ReadyFrameFields,
    ReadyFrameFieldsError,
};

#[test]
fn ready_and_chunk_frames_validate_transport_invariants() {
    let ready = ReadyFrame::from_fields(ReadyFrameFields {
        protocol_version: Some(ProtocolVersion::V1),
        supported_protocol_versions: Some((ProtocolVersion::V1, ProtocolVersion::V2)),
        max_frame_bytes: Some(1_048_576),
        max_reassembled_frame_bytes: Some(67_108_864),
    })
    .unwrap();
    assert!(ready.advertises_capabilities());
    assert_eq!(ready.to_fields().max_frame_bytes, Some(1_048_576));
    assert_eq!(ready.to_fields().max_reassembled_frame_bytes, Some(67_108_864));

    let legacy = ReadyFrame::from_fields(ReadyFrameFields {
        protocol_version: None,
        supported_protocol_versions: None,
        max_frame_bytes: None,
        max_reassembled_frame_bytes: None,
    })
    .unwrap();
    assert!(!legacy.advertises_capabilities());
    assert_eq!(legacy.to_fields().protocol_version, None);

    let chunk = ChunkFrame::new(
        "rpc-1".to_owned(),
        0,
        4,
        ChunkFrame::MIN_BYTE_LENGTH,
        "eyJ0eXBlIg==".to_owned(),
    )
    .unwrap();
    assert_eq!(chunk.chunk_id(), "rpc-1");
    assert_eq!(chunk.count(), 4);

    assert_eq!(
        ChunkFrame::new("rpc-1".to_owned(), 2, 2, 1_048_576, "e30=".to_owned()),
        Err(ChunkFrameError::IndexOutOfBounds)
    );
    assert!(ChunkFrame::new(
        "rpc-1".to_owned(),
        0,
        4,
        ChunkFrame::MIN_BYTE_LENGTH,
        "not base64".to_owned(),
    )
    .is_err());
    assert!(ChunkFrame::new(
        "rpc-1".to_owned(),
        0,
        4,
        ChunkFrame::MIN_BYTE_LENGTH - 1,
        "e30=".to_owned(),
    )
    .is_err());
}

#[test]
fn chunk_frames_check_each_field() {
    assert_eq!(
        ChunkFrame::new("id".to_owned(), 0, 1, 1_048_576, "e30=".to_owned()),
        Err(ChunkFrameError::InvalidCount)
    );
    assert_eq!(
        ChunkFrame::new(String::new(), 0, 2, 1_048_576, "e30=".to_owned()),
        Err(ChunkFrameError::EmptyChunkId)
    );
    assert_eq!(
        ChunkFrame::new("x".repeat(129), 0, 2, 1_048_576, "e30=".to_owned()),
        Err(ChunkFrameError::ChunkIdTooLong)
    );
    assert_eq!(
        ChunkFrame::new("id".to_owned(), 0, 2, 1_048_576, String::new()),
        Err(ChunkFrameError::EmptyData)
    );
    assert_eq!(
        ChunkFrame::new("id".to_owned(), 0, 2, 1_048_576, "e30".to_owned()),
        Err(ChunkFrameError::InvalidData)
    );
    let payload = "AAAA".repeat(262_144 / 3 + 1);
    assert_eq!(
        ChunkFrame::new("id".to_owned(), 0, 2, 1_048_576, payload),
        Err(ChunkFrameError::PayloadTooLarge)
    );
    let chunk = ChunkFrame::new("id".to_owned(), 1, 2, 1_048_576, "aGVsbG8=".to_owned()).unwrap();
    let mut output = b"say ".to_vec();
    chunk.append_decoded_data(&mut output);
    assert_eq!(output, b"say hello".to_vec());
    assert_eq!(
        ChunkFrameError::InvalidData.to_string(),
        "RPC chunk data must be canonical base64"
    );
}

#[test]
fn ready_frames_refuse_partial_or_foreign_capabilities() {
    assert_eq!(
        ReadyFrame::new(2_000, 1_000),
        Err(ReadyFrameError::ReassemblyLimitBelowFrameLimit)
    );
    assert_eq!(
        ReadyFrame::from_fields(ReadyFrameFields {
            protocol_version: Some(ProtocolVersion::V2),
            supported_protocol_versions: None,
            max_frame_bytes: None,
            max_reassembled_frame_bytes: None,
        }),
        Err(ReadyFrameFieldsError::UnsupportedProtocolVersion)
    );
    assert_eq!(
        ReadyFrame::from_fields(ReadyFrameFields {
            protocol_version: Some(ProtocolVersion::V1),
            supported_protocol_versions: Some((ProtocolVersion::V2, ProtocolVersion::V1)),
            max_frame_bytes: Some(1),
            max_reassembled_frame_bytes: Some(1),
        }),
        Err(ReadyFrameFieldsError::UnsupportedProtocolVersions)
    );
    assert_eq!(
        ReadyFrame::from_fields(ReadyFrameFields {
            protocol_version: Some(ProtocolVersion::V1),
            supported_protocol_versions: None,
            max_frame_bytes: None,
            max_reassembled_frame_bytes: None,
        }),
        Err(ReadyFrameFieldsError::IncompleteCapabilities)
    );
    let default = ReadyFrame::default();
    assert_eq!(default.max_frame_bytes(), 1_048_576);
    assert_eq!(default.max_reassembled_frame_bytes(), 67_108_864);
}

#[test]
fn extension_cancellation_cannot_encode_false() {
    assert_eq!(
        ExtensionUiResponse::from_cancellation(true, Some(true)),
        Some(ExtensionUiResponse::Cancelled { timed_out: Some(true) })
    );
    assert_eq!(ExtensionUiResponse::from_cancellation(false, None), None);
}

#[test]
fn message_page_limit_enforces_the_server_range() {
    assert_eq!(MessagePageLimit::new(1).unwrap().get(), 1);
    assert_eq!(MessagePageLimit::new(256).unwrap().get(), 256);
    assert!(MessagePageLimit::new(0).is_err());
    assert!(MessagePageLimit::new(257).is_err());
}

#[test]
fn chunk_payloads_decode_to_their_bytes() {
    let chunk = ChunkFrame::new(
        "rpc-2".to_owned(),
        0,
        4,
        ChunkFrame::MIN_BYTE_LENGTH,
        "eyJ0eXBlIg==".to_owned(),
    )
    .unwrap();
    let mut output = b"[".to_vec();
    chunk.append_decoded_data(&mut output);
    assert_eq!(output, b"[{\"type\"".to_vec());
}
