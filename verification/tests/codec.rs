use std::io::{Cursor, Write};

use omp_remote::codec::{
    CborCodec, CborCodecError, ConnectionPhase, FrameLimitError, FrameLimits, LimitedWriter,
};

struct Sink(LimitedWriter);

impl Write for Sink {
    fn write(&mut self, buffer: &[u8]) -> std::io::Result<usize> {
        self.0
            .write(buffer)
            .map_err(|_| std::io::Error::new(std::io::ErrorKind::Other, "CBOR frame limit exceeded"))
    }

    fn flush(&mut self) -> std::io::Result<()> {
        Ok(())
    }
}

fn encode(codec: &CborCodec, value: &ciborium::value::Value) -> Result<Vec<u8>, CborCodecError> {
    let mut sink = Sink(codec.writer());
    let outcome = ciborium::ser::into_writer(value, &mut sink).map_err(|error| error.to_string());
    codec.finish_encode(sink.0, outcome)
}

fn decode(codec: &CborCodec, bytes: &[u8]) -> Result<ciborium::value::Value, CborCodecError> {
    codec.check_decode_size(bytes.len())?;
    let mut reader = Cursor::new(bytes);
    let decoded = ciborium::de::from_reader::<ciborium::value::Value, _>(&mut reader)
        .map_err(|error| error.to_string());
    codec.finish_decode(bytes.len(), reader.position(), decoded)
}

fn ping(nonce: u64) -> ciborium::value::Value {
    ciborium::value::Value::Map(vec![
        (
            ciborium::value::Value::Text("type".to_owned()),
            ciborium::value::Value::Text("ping".to_owned()),
        ),
        (
            ciborium::value::Value::Text("payload".to_owned()),
            ciborium::value::Value::Map(vec![(
                ciborium::value::Value::Text("nonce".to_owned()),
                ciborium::value::Value::Integer(nonce.into()),
            )]),
        ),
    ])
}

#[test]
fn codec_enforces_limits_and_exactly_one_frame() {
    let codec = CborCodec::new(32);
    assert!(matches!(
        encode(&codec, &ciborium::value::Value::Text("x".repeat(128))),
        Err(CborCodecError::FrameTooLarge { limit: 32 })
    ));
    assert!(matches!(
        decode(&codec, &[0_u8; 33]),
        Err(CborCodecError::FrameTooLarge { limit: 32 })
    ));

    let codec = FrameLimits::default().codec(ConnectionPhase::PreAuth);
    let encoded = encode(&codec, &ping(7)).unwrap();
    let mut two_frames = encoded.clone();
    two_frames.extend_from_slice(&encoded);
    assert_eq!(decode(&codec, &two_frames), Err(CborCodecError::TrailingData));
    assert_eq!(decode(&codec, &encoded).unwrap(), ping(7));
}

#[test]
fn frame_limits_are_ordered_and_select_the_phase_limit() {
    assert_eq!(
        FrameLimits::new(2_048, 1_024),
        Err(FrameLimitError::PreAuthExceedsPostAuth)
    );
    let limits = FrameLimits::new(1_024, 2_048).unwrap();
    assert_eq!(limits.codec(ConnectionPhase::PreAuth).max_frame_bytes(), 1_024);
    assert_eq!(limits.codec(ConnectionPhase::Authenticated).max_frame_bytes(), 2_048);
    let defaults = FrameLimits::default();
    assert_eq!(defaults.pre_auth(), 16 * 1_024);
    assert_eq!(defaults.post_auth(), 1_024 * 1_024);
    assert_eq!(
        CborCodecError::FrameTooLarge { limit: 32 }.to_string(),
        "CBOR frame exceeds the 32-byte limit"
    );
}

#[test]
fn limited_writer_refuses_whole_writes_past_its_limit() {
    let mut writer = LimitedWriter::new(4);
    assert_eq!(writer.write(&[1, 2, 3]), Ok(3));
    assert!(writer.write(&[4, 5]).is_err());
    assert!(writer.exceeded);
    assert_eq!(writer.output, vec![1, 2, 3]);
    assert_eq!(writer.write(&[4]), Ok(1));
    assert_eq!(writer.output, vec![1, 2, 3, 4]);
}

#[test]
fn undecodable_bytes_report_a_decode_error() {
    let codec = CborCodec::new(64);
    assert!(matches!(decode(&codec, &[0xff]), Err(CborCodecError::Decode(_))));
}
