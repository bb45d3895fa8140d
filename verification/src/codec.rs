use vstd::prelude::*;

use crate::text::{decimal, push_decimal};

verus! {

/// The default largest frame before a client has authenticated.
pub const DEFAULT_PRE_AUTH_FRAME_BYTES: u32 = 16 * 1_024;

/// The default largest frame once a client has authenticated.
pub const DEFAULT_POST_AUTH_FRAME_BYTES: u32 = 1_024 * 1_024;

/// The frame size limits of a connection, before and after authentication;
/// both are positive and the first is at most the second.
#[derive(Clone, Copy, Debug, PartialEq, Eq)]
pub struct FrameLimits {
    pre_auth: u32,
    post_auth: u32,
}

impl FrameLimits {
    #[verifier::type_invariant]
    spec fn ordered(self) -> bool {
        0 < self.pre_auth <= self.post_auth
    }

    /// The limit before authentication.
    pub closed spec fn pre_auth_limit(self) -> u32 {
        self.pre_auth
    }

    /// The limit after authentication.
    pub closed spec fn post_auth_limit(self) -> u32 {
        self.post_auth
    }

    /// Both limits, refusing a pre-authentication limit above the other one.
    pub fn new(pre_auth: u32, post_auth: u32) -> (r: Result<Self, FrameLimitError>)
        requires
            pre_auth > 0,
            post_auth > 0,
        ensures
            r is Ok <==> pre_auth <= post_auth,
            r matches Ok(limits) ==> limits.pre_auth_limit() == pre_auth
                && limits.post_auth_limit() == post_auth,
            r matches Err(e) ==> e == FrameLimitError::PreAuthExceedsPostAuth,
    {
        if pre_auth > post_auth {
            return Err(FrameLimitError::PreAuthExceedsPostAuth);
        }
        Ok(FrameLimits { pre_auth, post_auth })
    }

    /// The limit before authentication.
    pub fn pre_auth(self) -> (r: u32)
        ensures
            r == self.pre_auth_limit(),
            0 < r <= self.post_auth_limit(),
    {
        proof {
            use_type_invariant(&self);
        }
        self.pre_auth
    }

    /// The limit after authentication.
    pub fn post_auth(self) -> (r: u32)
        ensures
            r == self.post_auth_limit(),
            0 < self.pre_auth_limit() <= r,
    {
        proof {
            use_type_invariant(&self);
        }
        self.post_auth
    }

    /// The codec for a connection in `phase`.
    pub fn codec(self, phase: ConnectionPhase) -> (r: CborCodec)
        ensures
            r.limit() == match phase {
                ConnectionPhase::PreAuth => self.pre_auth_limit(),
                ConnectionPhase::Authenticated => self.post_auth_limit(),
            },
    {
        proof {
            use_type_invariant(&self);
        }
        let limit = match phase {
            ConnectionPhase::PreAuth => self.pre_auth,
            ConnectionPhase::Authenticated => self.post_auth,
        };
        CborCodec::new(limit)
    }
}

impl Default for FrameLimits {
    fn default() -> (r: Self)
        ensures
            r.pre_auth_limit() == DEFAULT_PRE_AUTH_FRAME_BYTES,
            r.post_auth_limit() == DEFAULT_POST_AUTH_FRAME_BYTES,
    {
        FrameLimits { pre_auth: DEFAULT_PRE_AUTH_FRAME_BYTES, post_auth: DEFAULT_POST_AUTH_FRAME_BYTES }
    }
}

/// Whether a connection has authenticated yet.
#[derive(Clone, Copy, Debug, PartialEq, Eq)]
pub enum ConnectionPhase {
    PreAuth,
    Authenticated,
}

/// Why frame limits were refused.
#[derive(Clone, Copy, Debug, PartialEq, Eq)]
pub enum FrameLimitError {
    PreAuthExceedsPostAuth,
}

impl FrameLimitError {
    /// The human-readable message of the error.
    pub fn to_string(&self) -> (r: String)
        ensures
            r@ == "pre-auth frame limit cannot exceed post-auth frame limit"@,
    {
        String::from_str("pre-auth frame limit cannot exceed post-auth frame limit")
    }
}

/// Frames one CBOR message per WebSocket message under a size limit.
#[derive(Clone, Copy, Debug, PartialEq, Eq)]
pub struct CborCodec {
    max_frame_bytes: u32,
}

/// Why a frame could not be encoded or decoded.
#[derive(Clone, Debug, PartialEq, Eq)]
pub enum CborCodecError {
    FrameTooLarge { limit: u32 },
    Encode(String),
    Decode(String),
    TrailingData,
}

/// The content of a codec error.
pub enum CborCodecErrorView {
    FrameTooLarge { limit: u32 },
    Encode(Seq<char>),
    Decode(Seq<char>),
    TrailingData,
}

impl View for CborCodecError {
    type V = CborCodecErrorView;

    open spec fn view(&self) -> CborCodecErrorView {
        match self {
            CborCodecError::FrameTooLarge { limit } => CborCodecErrorView::FrameTooLarge {
                limit: *limit,
            },
            CborCodecError::Encode(text) => CborCodecErrorView::Encode(text@),
            CborCodecError::Decode(text) => CborCodecErrorView::Decode(text@),
            CborCodecError::TrailingData => CborCodecErrorView::TrailingData,
        }
    }
}

/// The message of a codec error.
pub open spec fn codec_error_message(e: CborCodecErrorView) -> Seq<char> {
    match e {
        CborCodecErrorView::FrameTooLarge { limit } => "CBOR frame exceeds the "@ + decimal(
            limit as nat,
        ) + "-byte limit"@,
        CborCodecErrorView::Encode(text) => "failed to encode CBOR frame: "@ + text,
        CborCodecErrorView::Decode(text) => "failed to decode CBOR frame: "@ + text,
        CborCodecErrorView::TrailingData => "CBOR WebSocket message contains more than one frame"@,
    }
}

impl CborCodecError {
    /// The human-readable message of the error.
    pub fn to_string(&self) -> (r: String)
        ensures
            r@ == codec_error_message(self@),
    {
        match self {
            CborCodecError::FrameTooLarge { limit } => {
                let mut out = String::from_str("CBOR frame exceeds the ");
                push_decimal(&mut out, *limit as u64);
                out.append("-byte limit");
                out
            },
            CborCodecError::Encode(text) => {
                let mut out = String::from_str("failed to encode CBOR frame: ");
                out.append(text.as_str());
                out
            },
            CborCodecError::Decode(text) => {
                let mut out = String::from_str("failed to decode CBOR frame: ");
                out.append(text.as_str());
                out
            },
            CborCodecError::TrailingData => String::from_str(
                "CBOR WebSocket message contains more than one frame",
            ),
        }
    }
}

impl CborCodec {
    #[verifier::type_invariant]
    spec fn positive(self) -> bool {
        self.max_frame_bytes > 0
    }

    /// The largest frame, in bytes.
    pub closed spec fn limit(self) -> u32 {
        self.max_frame_bytes
    }

    /// A codec for frames of at most `max_frame_bytes` bytes.
    pub fn new(max_frame_bytes: u32) -> (r: Self)
        requires
            max_frame_bytes > 0,
        ensures
            r.limit() == max_frame_bytes,
    {
        CborCodec { max_frame_bytes }
    }

    /// The largest frame, in bytes.
    pub fn max_frame_bytes(self) -> (r: u32)
        ensures
            r == self.limit(),
            r > 0,
    {
        proof {
            use_type_invariant(&self);
        }
        self.max_frame_bytes
    }

    /// Refuses a message longer than the limit before any decoding.
    pub fn check_decode_size(&self, length: usize) -> (r: Result<(), CborCodecError>)
        ensures
            r is Ok <==> length <= self.limit(),
            r matches Err(e) ==> e@ == (CborCodecErrorView::FrameTooLarge { limit: self.limit() }),
    {
        if length as u64 > self.max_frame_bytes as u64 {
            return Err(CborCodecError::FrameTooLarge { limit: self.max_frame_bytes });
        }
        Ok(())
    }

    /// Judges a decoding of a message of `length` bytes: a decoding error is
    /// reported as such, and a value that did not take up the whole message
    /// means the message held more than one frame.
    pub fn finish_decode<T>(&self, length: usize, consumed: u64, decoded: Result<T, String>) -> (r:
        Result<T, CborCodecError>)
        ensures
            match decoded {
                Err(text) => (r matches Err(e) && e@ == CborCodecErrorView::Decode(text@)),
                Ok(value) => if consumed == length {
                    r == Ok::<T, CborCodecError>(value)
                } else {
                    r matches Err(e) && e@ == CborCodecErrorView::TrailingData
                },
            },
    {
        match decoded {
            Err(text) => Err(CborCodecError::Decode(text)),
            Ok(value) => {
                if consumed != length as u64 {
                    return Err(CborCodecError::TrailingData);
                }
                Ok(value)
            },
        }
    }

    /// An empty output buffer bounded by this codec's limit.
    pub fn writer(&self) -> (r: LimitedWriter)
        ensures
            r.output@ == Seq::<u8>::empty(),
            r.limit == self.limit() as usize,
            !r.exceeded,
    {
        LimitedWriter::new(self.max_frame_bytes as usize)
    }

    /// Judges an encoding into `writer`: a failure after the writer refused
    /// bytes is a frame over the limit, any other failure an encoding error.
    pub fn finish_encode(&self, writer: LimitedWriter, outcome: Result<(), String>) -> (r: Result<
        Vec<u8>,
        CborCodecError,
    >)
        ensures
            match outcome {
                Ok(()) => r == Ok::<Vec<u8>, CborCodecError>(writer.output),
                Err(text) => if writer.exceeded {
                    r matches Err(e) && e@ == (CborCodecErrorView::FrameTooLarge {
                        limit: self.limit(),
                    })
                } else {
                    r matches Err(e) && e@ == CborCodecErrorView::Encode(text@)
                },
            },
    {
        match outcome {
            Ok(()) => Ok(writer.output),
            Err(text) => {
                if writer.exceeded {
                    Err(CborCodecError::FrameTooLarge { limit: self.max_frame_bytes })
                } else {
                    Err(CborCodecError::Encode(text))
                }
            },
        }
    }
}

/// A write that would take the output past its limit.
#[derive(Clone, Copy, Debug, PartialEq, Eq)]
pub struct LimitExceeded;

/// An output buffer that refuses any write taking it past `limit` bytes and
/// remembers that it did.
#[derive(Debug)]
pub struct LimitedWriter {
    pub output: Vec<u8>,
    pub limit: usize,
    pub exceeded: bool,
}

impl LimitedWriter {
    /// An empty buffer of at most `limit` bytes.
    pub fn new(limit: usize) -> (r: Self)
        ensures
            r.output@ == Seq::<u8>::empty(),
            r.limit == limit,
            !r.exceeded,
    {
        LimitedWriter { output: Vec::new(), limit, exceeded: false }
    }

    /// Appends `buffer` whole when it fits under the limit; otherwise appends
    /// nothing and records that the limit was exceeded.
    pub fn write(&mut self, buffer: &[u8]) -> (r: Result<usize, LimitExceeded>)
        ensures
            final(self).limit == old(self).limit,
            if buffer.len() + old(self).output.len() <= old(self).limit || (buffer.len() == 0
                && old(self).output.len() > old(self).limit) {
                r == Ok::<usize, LimitExceeded>(buffer.len()) && final(self).output@ == old(
                    self,
                ).output@ + buffer@ && final(self).exceeded == old(self).exceeded
            } else {
                r == Err::<usize, LimitExceeded>(LimitExceeded) && final(self).output@ == old(
                    self,
                ).output@ && final(self).exceeded
            },
    {
        let room: usize = self.limit.saturating_sub(self.output.len());
        if buffer.len() > room {
            self.exceeded = true;
            return Err(LimitExceeded);
        }
        let mut i: usize = 0;
        let ghost start = self.output@;
        while i < buffer.len()
            invariant
                i <= buffer.len(),
                self.output@ == start + buffer@.take(i as int),
                self.limit == old(self).limit,
                self.exceeded == old(self).exceeded,
                start == old(self).output@,
            decreases buffer.len() - i,
        {
            self.output.push(buffer[i]);
            proof {
                assert(buffer@.take(i + 1) =~= buffer@.take(i as int).push(buffer@[i as int]));
            }
            i = i + 1;
        }
        proof {
            assert(buffer@.take(buffer.len() as int) =~= buffer@);
        }
        Ok(buffer.len())
    }
}

} // verus!
