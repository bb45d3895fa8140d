use vstd::prelude::*;

use base64::engine::general_purpose::STANDARD;
use base64::Engine;
use vstd::string::StrSliceExecFns;

use crate::rpc::ProtocolVersion;

verus! {

/// What the standard, padded base64 alphabet decodes `text` to, or `None`
/// when `text` is not valid base64 of that alphabet.
pub uninterp spec fn standard_base64_decoding(text: Seq<char>) -> Option<Seq<u8>>;

/// The standard, padded base64 encoding of `bytes`.
pub uninterp spec fn standard_base64_encoding(bytes: Seq<u8>) -> Seq<char>;

/// Decodes `text` with base64's `STANDARD` engine (`Engine::decode`). The
/// result is named, not described: it is whatever that engine gives for the
/// text, and `None` exactly when the engine reports an error.
#[verifier::external_body]
fn decode_standard_base64(text: &str) -> (r: Option<Vec<u8>>)
    ensures
        match r {
            Some(bytes) => standard_base64_decoding(text@) == Some(bytes@),
            None => standard_base64_decoding(text@) is None,
        },
{
    match STANDARD.decode(text) {
        Ok(bytes) => Some(bytes),
        Err(_) => None,
    }
}

/// Encodes `bytes` with base64's `STANDARD` engine (`Engine::encode`); the
/// result is named, not described.
#[verifier::external_body]
fn encode_standard_base64(bytes: &[u8]) -> (r: String)
    ensures
        r@ == standard_base64_encoding(bytes@),
{
    STANDARD.encode(bytes)
}

/// The ready frame an agent process sends first: the frame limits it
/// advertises, or none for a process that predates them.
#[derive(Clone, Copy, Debug, PartialEq, Eq)]
pub struct ReadyFrame {
    max_frame_bytes: u64,
    max_reassembled_frame_bytes: u64,
    advertises_capabilities: bool,
}

/// The content of a ready frame.
pub struct ReadyFrameView {
    pub max_frame_bytes: u64,
    pub max_reassembled_frame_bytes: u64,
    pub advertises_capabilities: bool,
}

impl View for ReadyFrame {
    type V = ReadyFrameView;

    closed spec fn view(&self) -> ReadyFrameView {
        ReadyFrameView {
            max_frame_bytes: self.max_frame_bytes,
            max_reassembled_frame_bytes: self.max_reassembled_frame_bytes,
            advertises_capabilities: self.advertises_capabilities,
        }
    }
}

/// Why frame limits were refused.
#[derive(Clone, Copy, Debug, PartialEq, Eq)]
pub enum ReadyFrameError {
    ReassemblyLimitBelowFrameLimit,
}

impl ReadyFrameError {
    /// The human-readable message of the error.
    pub fn to_string(&self) -> (r: String)
        ensures
            r@ == "RPC reassembly limit is smaller than the frame limit"@,
    {
        String::from_str("RPC reassembly limit is smaller than the frame limit")
    }
}

/// The fields of a ready frame as they appear on the wire.
#[derive(Clone, Copy, Debug, PartialEq, Eq)]
pub struct ReadyFrameFields {
    pub protocol_version: Option<ProtocolVersion>,
    pub supported_protocol_versions: Option<(ProtocolVersion, ProtocolVersion)>,
    pub max_frame_bytes: Option<u64>,
    pub max_reassembled_frame_bytes: Option<u64>,
}

/// Why the wire fields of a ready frame do not form one.
#[derive(Clone, Copy, Debug, PartialEq, Eq)]
pub enum ReadyFrameFieldsError {
    Limits(ReadyFrameError),
    UnsupportedProtocolVersion,
    UnsupportedProtocolVersions,
    IncompleteCapabilities,
}

impl ReadyFrameFieldsError {
    /// The human-readable message of the error.
    pub fn to_string(&self) -> (r: String)
        ensures
            r@ == match self {
                ReadyFrameFieldsError::Limits(_) =>
                    "RPC reassembly limit is smaller than the frame limit"@,
                ReadyFrameFieldsError::UnsupportedProtocolVersion =>
                    "ready frame protocolVersion must be 1"@,
                ReadyFrameFieldsError::UnsupportedProtocolVersions =>
                    "ready frame supportedProtocolVersions must be [1, 2]"@,
                ReadyFrameFieldsError::IncompleteCapabilities =>
                    "ready frame capabilities must be either complete or absent"@,
            },
    {
        match self {
            ReadyFrameFieldsError::Limits(e) => e.to_string(),
            ReadyFrameFieldsError::UnsupportedProtocolVersion => String::from_str(
                "ready frame protocolVersion must be 1",
            ),
            ReadyFrameFieldsError::UnsupportedProtocolVersions => String::from_str(
                "ready frame supportedProtocolVersions must be [1, 2]",
            ),
            ReadyFrameFieldsError::IncompleteCapabilities => String::from_str(
                "ready frame capabilities must be either complete or absent",
            ),
        }
    }
}

impl ReadyFrame {
    /// The frame limit of a process that advertises none.
    pub const DEFAULT_MAX_FRAME_BYTES: u64 = 1_048_576;

    /// The reassembly limit of a process that advertises none.
    pub const DEFAULT_MAX_REASSEMBLED_FRAME_BYTES: u64 = 67_108_864;

    #[verifier::type_invariant]
    spec fn limits_ordered(self) -> bool {
        0 < self.max_frame_bytes <= self.max_reassembled_frame_bytes
    }

    /// Advertised limits; the reassembly limit may not be below the frame limit.
    pub fn new(max_frame_bytes: u64, max_reassembled_frame_bytes: u64) -> (r: Result<
        Self,
        ReadyFrameError,
    >)
        requires
            max_frame_bytes > 0,
            max_reassembled_frame_bytes > 0,
        ensures
            r is Ok <==> max_frame_bytes <= max_reassembled_frame_bytes,
            r matches Ok(frame) ==> frame@ == (ReadyFrameView {
                max_frame_bytes,
                max_reassembled_frame_bytes,
                advertises_capabilities: true,
            }),
            r matches Err(e) ==> e == ReadyFrameError::ReassemblyLimitBelowFrameLimit,
    {
        if max_reassembled_frame_bytes < max_frame_bytes {
            return Err(ReadyFrameError::ReassemblyLimitBelowFrameLimit);
        }
        Ok(ReadyFrame { max_frame_bytes, max_reassembled_frame_bytes, advertises_capabilities: true })
    }

    /// The ready frame of a process that advertises no limits: the default
    /// limits apply.
    pub fn legacy() -> (r: Self)
        ensures
            r@ == (ReadyFrameView {
                max_frame_bytes: 1_048_576,
                max_reassembled_frame_bytes: 67_108_864,
                advertises_capabilities: false,
            }),
    {
        ReadyFrame {
            max_frame_bytes: 1_048_576,
            max_reassembled_frame_bytes: 67_108_864,
            advertises_capabilities: false,
        }
    }

    /// Whether the process advertised its limits.
    pub fn advertises_capabilities(&self) -> (r: bool)
        ensures
            r == self@.advertises_capabilities,
    {
        self.advertises_capabilities
    }

    /// The largest single frame, in bytes.
    pub fn max_frame_bytes(&self) -> (r: u64)
        ensures
            r == self@.max_frame_bytes,
            0 < r <= self@.max_reassembled_frame_bytes,
    {
        proof {
            use_type_invariant(self);
        }
        self.max_frame_bytes
    }

    /// The largest message reassembled from chunks, in bytes.
    pub fn max_reassembled_frame_bytes(&self) -> (r: u64)
        ensures
            r == self@.max_reassembled_frame_bytes,
            0 < self@.max_frame_bytes <= r,
    {
        proof {
            use_type_invariant(self);
        }
        self.max_reassembled_frame_bytes
    }

    /// The wire fields of the frame: all four when it advertises its limits,
    /// none otherwise.
    pub fn to_fields(&self) -> (r: ReadyFrameFields)
        ensures
            self@.advertises_capabilities ==> r == (ReadyFrameFields {
                protocol_version: Some(ProtocolVersion::V1),
                supported_protocol_versions: Some((ProtocolVersion::V1, ProtocolVersion::V2)),
                max_frame_bytes: Some(self@.max_frame_bytes),
                max_reassembled_frame_bytes: Some(self@.max_reassembled_frame_bytes),
            }),
            !self@.advertises_capabilities ==> r == (ReadyFrameFields {
                protocol_version: None,
                supported_protocol_versions: None,
                max_frame_bytes: None,
                max_reassembled_frame_bytes: None,
            }),
    {
        if self.advertises_capabilities {
            ReadyFrameFields {
                protocol_version: Some(ProtocolVersion::V1),
                supported_protocol_versions: Some((ProtocolVersion::V1, ProtocolVersion::V2)),
                max_frame_bytes: Some(self.max_frame_bytes),
                max_reassembled_frame_bytes: Some(self.max_reassembled_frame_bytes),
            }
        } else {
            ReadyFrameFields {
                protocol_version: None,
                supported_protocol_versions: None,
                max_frame_bytes: None,
                max_reassembled_frame_bytes: None,
            }
        }
    }

    /// Reads a ready frame from its wire fields: no field at all is a process
    /// without advertised limits, all four with versions 1 and [1, 2] are
    /// advertised limits, anything else is refused.
    pub fn from_fields(fields: ReadyFrameFields) -> (r: Result<Self, ReadyFrameFieldsError>)
        requires
            fields.max_frame_bytes matches Some(v) ==> v > 0,
            fields.max_reassembled_frame_bytes matches Some(v) ==> v > 0,
        ensures
            match fields {
                ReadyFrameFields {
                    protocol_version: None,
                    supported_protocol_versions: None,
                    max_frame_bytes: None,
                    max_reassembled_frame_bytes: None,
                } => (r matches Ok(frame) && frame@ == (ReadyFrameView {
                    max_frame_bytes: 1_048_576,
                    max_reassembled_frame_bytes: 67_108_864,
                    advertises_capabilities: false,
                })),
                ReadyFrameFields {
                    protocol_version: Some(ProtocolVersion::V1),
                    supported_protocol_versions: Some((ProtocolVersion::V1, ProtocolVersion::V2)),
                    max_frame_bytes: Some(frame_limit),
                    max_reassembled_frame_bytes: Some(reassembly_limit),
                } => if frame_limit <= reassembly_limit {
                    r matches Ok(frame) && frame@ == (ReadyFrameView {
                        max_frame_bytes: frame_limit,
                        max_reassembled_frame_bytes: reassembly_limit,
                        advertises_capabilities: true,
                    })
                } else {
                    r == Err::<ReadyFrame, ReadyFrameFieldsError>(
                        ReadyFrameFieldsError::Limits(
                            ReadyFrameError::ReassemblyLimitBelowFrameLimit,
                        ),
                    )
                },
                ReadyFrameFields { protocol_version: Some(ProtocolVersion::V2), .. } => r == Err::<
                    ReadyFrame,
                    ReadyFrameFieldsError,
                >(ReadyFrameFieldsError::UnsupportedProtocolVersion),
                ReadyFrameFields { supported_protocol_versions: Some(pair), .. } => if pair != (
                ProtocolVersion::V1, ProtocolVersion::V2) {
                    r == Err::<ReadyFrame, ReadyFrameFieldsError>(
                        ReadyFrameFieldsError::UnsupportedProtocolVersions,
                    )
                } else {
                    r == Err::<ReadyFrame, ReadyFrameFieldsError>(
                        ReadyFrameFieldsError::IncompleteCapabilities,
                    )
                },
                _ => r == Err::<ReadyFrame, ReadyFrameFieldsError>(
                    ReadyFrameFieldsError::IncompleteCapabilities,
                ),
            },
    {
        match fields {
            ReadyFrameFields {
                protocol_version: None,
                supported_protocol_versions: None,
                max_frame_bytes: None,
                max_reassembled_frame_bytes: None,
            } => Ok(ReadyFrame::legacy()),
            ReadyFrameFields {
                protocol_version: Some(ProtocolVersion::V1),
                supported_protocol_versions: Some((ProtocolVersion::V1, ProtocolVersion::V2)),
                max_frame_bytes: Some(frame_limit),
                max_reassembled_frame_bytes: Some(reassembly_limit),
            } => match ReadyFrame::new(frame_limit, reassembly_limit) {
                Ok(frame) => Ok(frame),
                Err(e) => Err(ReadyFrameFieldsError::Limits(e)),
            },
            ReadyFrameFields { protocol_version: Some(ProtocolVersion::V2), .. } => Err(
                ReadyFrameFieldsError::UnsupportedProtocolVersion,
            ),
            ReadyFrameFields { supported_protocol_versions: Some(pair), .. } => {
                match pair {
                    (ProtocolVersion::V1, ProtocolVersion::V2) => Err(
                        ReadyFrameFieldsError::IncompleteCapabilities,
                    ),
                    _ => Err(ReadyFrameFieldsError::UnsupportedProtocolVersions),
                }
            },
            _ => Err(ReadyFrameFieldsError::IncompleteCapabilities),
        }
    }
}

impl Default for ReadyFrame {
    fn default() -> (r: Self)
        ensures
            r@ == (ReadyFrameView {
                max_frame_bytes: 1_048_576,
                max_reassembled_frame_bytes: 67_108_864,
                advertises_capabilities: true,
            }),
    {
        ReadyFrame {
            max_frame_bytes: 1_048_576,
            max_reassembled_frame_bytes: 67_108_864,
            advertises_capabilities: true,
        }
    }
}

/// One chunk of a message too large for a single frame.
#[derive(Debug, PartialEq, Eq)]
pub struct ChunkFrame {
    chunk_id: String,
    index: u32,
    count: u64,
    byte_length: u64,
    data: String,
}

/// The content of a chunk frame.
pub struct ChunkFrameView {
    pub chunk_id: Seq<char>,
    pub index: u32,
    pub count: u64,
    pub byte_length: u64,
    pub data: Seq<char>,
}

impl View for ChunkFrame {
    type V = ChunkFrameView;

    closed spec fn view(&self) -> ChunkFrameView {
        ChunkFrameView {
            chunk_id: self.chunk_id@,
            index: self.index,
            count: self.count,
            byte_length: self.byte_length,
            data: self.data@,
        }
    }
}

/// Why a chunk frame is malformed.
#[derive(Clone, Copy, Debug, PartialEq, Eq)]
pub enum ChunkFrameError {
    EmptyChunkId,
    ChunkIdTooLong,
    InvalidCount,
    IndexOutOfBounds,
    InvalidByteLength,
    EmptyData,
    InvalidData,
    PayloadTooLarge,
}

impl ChunkFrameError {
    /// The human-readable message of the error.
    pub fn to_string(&self) -> (r: String)
        ensures
            r@ == match self {
                ChunkFrameError::EmptyChunkId => "RPC chunk ID cannot be empty"@,
                ChunkFrameError::ChunkIdTooLong => "RPC chunk ID exceeds 128 characters"@,
                ChunkFrameError::InvalidCount => "RPC chunk count must be between 2 and 256"@,
                ChunkFrameError::IndexOutOfBounds => "RPC chunk index must be below count"@,
                ChunkFrameError::InvalidByteLength =>
                    "RPC chunk byte length must be between 1 MiB and 64 MiB"@,
                ChunkFrameError::EmptyData => "RPC chunk data cannot be empty"@,
                ChunkFrameError::InvalidData => "RPC chunk data must be canonical base64"@,
                ChunkFrameError::PayloadTooLarge => "RPC chunk payload exceeds 256 KiB"@,
            },
    {
        match self {
            ChunkFrameError::EmptyChunkId => String::from_str("RPC chunk ID cannot be empty"),
            ChunkFrameError::ChunkIdTooLong => String::from_str(
                "RPC chunk ID exceeds 128 characters",
            ),
            ChunkFrameError::InvalidCount => String::from_str(
                "RPC chunk count must be between 2 and 256",
            ),
            ChunkFrameError::IndexOutOfBounds => String::from_str(
                "RPC chunk index must be below count",
            ),
            ChunkFrameError::InvalidByteLength => String::from_str(
                "RPC chunk byte length must be between 1 MiB and 64 MiB",
            ),
            ChunkFrameError::EmptyData => String::from_str("RPC chunk data cannot be empty"),
            ChunkFrameError::InvalidData => String::from_str(
                "RPC chunk data must be canonical base64",
            ),
            ChunkFrameError::PayloadTooLarge => String::from_str(
                "RPC chunk payload exceeds 256 KiB",
            ),
        }
    }
}

/// Why a chunk with these fields is refused, checked in this order, if it is.
pub open spec fn chunk_fault(
    chunk_id: Seq<char>,
    index: u32,
    count: u64,
    byte_length: u64,
    data: Seq<char>,
) -> Option<ChunkFrameError> {
    if count < 2 || count > 256 {
        Some(ChunkFrameError::InvalidCount)
    } else if index >= count {
        Some(ChunkFrameError::IndexOutOfBounds)
    } else if chunk_id.len() == 0 {
        Some(ChunkFrameError::EmptyChunkId)
    } else if chunk_id.len() > 128 {
        Some(ChunkFrameError::ChunkIdTooLong)
    } else if !(1_048_576 <= byte_length <= 67_108_864) {
        Some(ChunkFrameError::InvalidByteLength)
    } else if data.len() == 0 {
        Some(ChunkFrameError::EmptyData)
    } else {
        match standard_base64_decoding(data) {
            None => Some(ChunkFrameError::InvalidData),
            Some(payload) => if payload.len() > 262_144 {
                Some(ChunkFrameError::PayloadTooLarge)
            } else if standard_base64_encoding(payload) != data {
                Some(ChunkFrameError::InvalidData)
            } else {
                None
            },
        }
    }
}

impl ChunkFrame {
    /// The most characters of a chunk identifier.
    pub const MAX_CHUNK_ID_CHARS: usize = 128;

    /// The most chunks of one message.
    pub const MAX_COUNT: u64 = 256;

    /// The smallest length of a chunked message, in bytes.
    pub const MIN_BYTE_LENGTH: u64 = 1_048_576;

    /// The largest length of a chunked message, in bytes.
    pub const MAX_BYTE_LENGTH: u64 = 67_108_864;

    /// The most decoded bytes of one chunk.
    pub const MAX_PAYLOAD_BYTES: usize = 262_144;

    #[verifier::type_invariant]
    spec fn well_formed(self) -> bool {
        chunk_fault(self.chunk_id@, self.index, self.count, self.byte_length, self.data@) is None
    }

    /// A chunk, checked: between 2 and 256 chunks, the index below the count,
    /// an identifier of 1 to 128 characters, a message length between 1 MiB
    /// and 64 MiB, and data that is canonical standard base64 of at most
    /// 256 KiB.
    pub fn new(chunk_id: String, index: u32, count: u64, byte_length: u64, data: String) -> (r:
        Result<Self, ChunkFrameError>)
        requires
            count > 0,
            byte_length > 0,
        ensures
            match chunk_fault(chunk_id@, index, count, byte_length, data@) {
                Some(e) => r == Err::<ChunkFrame, ChunkFrameError>(e),
                None => (r matches Ok(chunk) && chunk@ == (ChunkFrameView {
                    chunk_id: chunk_id@,
                    index,
                    count,
                    byte_length,
                    data: data@,
                })),
            },
    {
        if count < 2 || count > 256 {
            return Err(ChunkFrameError::InvalidCount);
        }
        if index as u64 >= count {
            return Err(ChunkFrameError::IndexOutOfBounds);
        }
        if chunk_id.as_str().is_empty() {
            return Err(ChunkFrameError::EmptyChunkId);
        }
        if chunk_id.as_str().unicode_len() > 128 {
            return Err(ChunkFrameError::ChunkIdTooLong);
        }
        if !(1_048_576 <= byte_length && byte_length <= 67_108_864) {
            return Err(ChunkFrameError::InvalidByteLength);
        }
        if data.as_str().is_empty() {
            return Err(ChunkFrameError::EmptyData);
        }
        let decoded = match decode_standard_base64(data.as_str()) {
            Some(bytes) => bytes,
            None => return Err(ChunkFrameError::InvalidData),
        };
        if decoded.len() > 262_144 {
            return Err(ChunkFrameError::PayloadTooLarge);
        }
        let encoded = encode_standard_base64(decoded.as_slice());
        if !(encoded == data) {
            return Err(ChunkFrameError::InvalidData);
        }
        Ok(ChunkFrame { chunk_id, index, count, byte_length, data })
    }

    /// The identifier shared by the chunks of one message.
    pub fn chunk_id(&self) -> (r: &str)
        ensures
            r@ == self@.chunk_id,
    {
        self.chunk_id.as_str()
    }

    /// The chunk's position among the message's chunks.
    pub fn index(&self) -> (r: u32)
        ensures
            r == self@.index,
            r < self@.count,
    {
        proof {
            use_type_invariant(self);
        }
        self.index
    }

    /// How many chunks the message has.
    pub fn count(&self) -> (r: u64)
        ensures
            r == self@.count,
            2 <= r <= 256,
    {
        proof {
            use_type_invariant(self);
        }
        self.count
    }

    /// The length of the whole message, in bytes.
    pub fn byte_length(&self) -> (r: u64)
        ensures
            r == self@.byte_length,
            1_048_576 <= r <= 67_108_864,
    {
        proof {
            use_type_invariant(self);
        }
        self.byte_length
    }

    /// The chunk's base64 data.
    pub fn data(&self) -> (r: &str)
        ensures
            r@ == self@.data,
    {
        self.data.as_str()
    }

    /// Appends the chunk's decoded payload to `output`.
    pub fn append_decoded_data(&self, output: &mut Vec<u8>)
        ensures
            standard_base64_decoding(self@.data) matches Some(payload) && final(output)@ == old(
                output,
            )@ + payload,
    {
        proof {
            use_type_invariant(self);
        }
        let decoded = match decode_standard_base64(self.data.as_str()) {
            Some(bytes) => bytes,
            None => {
                proof {
                    assert(false);
                }
                Vec::new()
            },
        };
        let ghost start = output@;
        let mut i: usize = 0;
        while i < decoded.len()
            invariant
                i <= decoded.len(),
                output@ == start + decoded@.take(i as int),
            decreases decoded.len() - i,
        {
            output.push(decoded[i]);
            proof {
                assert(decoded@.take(i + 1) =~= decoded@.take(i as int).push(decoded@[i as int]));
            }
            i = i + 1;
        }
        proof {
            assert(decoded@.take(decoded.len() as int) =~= decoded@);
        }
    }
}

impl Clone for ChunkFrame {
    fn clone(&self) -> (r: Self)
        ensures
            r@ == self@,
    {
        proof {
            use_type_invariant(self);
        }
        ChunkFrame {
            chunk_id: self.chunk_id.clone(),
            index: self.index,
            count: self.count,
            byte_length: self.byte_length,
            data: self.data.clone(),
        }
    }
}

/// A frame of the agent process's transport layer.
#[derive(Clone, Debug, PartialEq, Eq)]
pub enum TransportFrame {
    Ready { ready: ReadyFrame },
    RpcChunk { chunk: ChunkFrame },
}

} // verus!
