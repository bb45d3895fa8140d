use vstd::prelude::*;

use base64::engine::general_purpose::URL_SAFE_NO_PAD;
use base64::Engine;

use crate::codec::CborCodecError;

verus! {

/// The largest decoded pairing payload, in bytes.
pub const MAX_PAIRING_PAYLOAD_BYTES: u32 = 64 * 1_024;

/// The longest base64url text of a pairing payload, in bytes.
pub const MAX_PAIRING_PAYLOAD_TEXT_BYTES: usize = (64 * 1_024 + 2) / 3 * 4;

/// Declares `base64::DecodeError`, the error of a base64 decoding.
#[verifier::external_type_specification]
#[verifier::external_body]
pub struct ExDecodeError(base64::DecodeError);

/// Whether `c` is white space in the sense of Unicode's `White_Space`
/// property, which `char::is_whitespace` and `str::trim` use.
pub open spec fn is_white_space(c: char) -> bool {
    ||| '\u{9}' <= c <= '\u{d}'
    ||| c == ' '
    ||| c == '\u{85}'
    ||| c == '\u{a0}'
    ||| c == '\u{1680}'
    ||| '\u{2000}' <= c <= '\u{200a}'
    ||| c == '\u{2028}'
    ||| c == '\u{2029}'
    ||| c == '\u{202f}'
    ||| c == '\u{205f}'
    ||| c == '\u{3000}'
}

/// `text` without its leading white space.
pub open spec fn trim_start(text: Seq<char>) -> Seq<char>
    decreases text.len(),
{
    if text.len() > 0 && is_white_space(text[0]) {
        trim_start(text.drop_first())
    } else {
        text
    }
}

/// `text` without its trailing white space.
pub open spec fn trim_end(text: Seq<char>) -> Seq<char>
    decreases text.len(),
{
    if text.len() > 0 && is_white_space(text.last()) {
        trim_end(text.drop_last())
    } else {
        text
    }
}

/// `text` without leading and trailing white space.
pub open spec fn trimmed(text: Seq<char>) -> Seq<char> {
    trim_end(trim_start(text))
}

/// Removes leading and trailing white space with `str::trim`, which the
/// standard library documents as removing exactly the characters with
/// Unicode's `White_Space` property at both ends. Its UTF-8 length is a
/// `usize`, as `str::len` reports it.
#[verifier::external_body]
fn trim_text(text: &str) -> (r: &str)
    ensures
        r@ == trimmed(text@),
        vstd::utf8::encode_utf8(r@).len() <= usize::MAX,
{
    text.trim()
}

/// Splits `text` at its last `#` with `str::rsplit_once`, which the standard
/// library documents as giving the text before and after the last occurrence
/// of the delimiter, or `None` when there is none. The UTF-8 length of the
/// part after it is a `usize`, as `str::len` reports it.
#[verifier::external_body]
fn split_at_last_hash(text: &str) -> (r: Option<(&str, &str)>)
    ensures
        match r {
            Some((before, after)) => text@ == before@ + seq!['#'] + after@ && !after@.contains(
                '#',
            ) && vstd::utf8::encode_utf8(after@).len() <= usize::MAX,
            None => !text@.contains('#'),
        },
{
    text.rsplit_once('#')
}

/// What base64's `URL_SAFE_NO_PAD` engine decodes `text` to, or `None` when
/// it reports an error.
pub uninterp spec fn url_safe_base64_decoding(text: Seq<char>) -> Option<Seq<u8>>;

/// Decodes `text` with base64's `URL_SAFE_NO_PAD` engine (`Engine::decode`);
/// the result is named, not described.
#[verifier::external_body]
fn decode_url_safe_base64(text: &str) -> (r: Result<Vec<u8>, base64::DecodeError>)
    ensures
        match r {
            Ok(bytes) => url_safe_base64_decoding(text@) == Some(bytes@),
            Err(_) => url_safe_base64_decoding(text@) is None,
        },
{
    URL_SAFE_NO_PAD.decode(text)
}

/// The text after the last `#` of `text`, or all of it when it has none.
pub open spec fn after_last_hash(text: Seq<char>) -> Seq<char>
    decreases text.len(),
{
    if text.len() == 0 {
        text
    } else if text.last() == '#' {
        Seq::empty()
    } else {
        after_last_hash(text.drop_last()).push(text.last())
    }
}

/// The text after the last `#` of `before + "#" + after`, where `after` holds
/// no `#`, is `after`.
proof fn lemma_after_last_hash(before: Seq<char>, after: Seq<char>)
    requires
        !after.contains('#'),
    ensures
        after_last_hash(before + seq!['#'] + after) == after,
    decreases after.len(),
{
    let text = before + seq!['#'] + after;
    if after.len() == 0 {
        assert(text.last() == '#');
    } else {
        assert(text.drop_last() =~= before + seq!['#'] + after.drop_last());
        assert(after.last() == after[after.len() - 1]);
        assert(!after.drop_last().contains('#')) by {
            if after.drop_last().contains('#') {
                let k = choose|k: int| 0 <= k < after.drop_last().len() && after.drop_last()[k]
                    == '#';
                assert(after[k] == '#');
            }
        }
        lemma_after_last_hash(before, after.drop_last());
        assert(text.last() == after.last());
        assert(after.drop_last().push(after.last()) =~= after);
    }
}

/// A text without `#` is its own text after the last `#`.
proof fn lemma_after_no_hash(text: Seq<char>)
    requires
        !text.contains('#'),
    ensures
        after_last_hash(text) == text,
    decreases text.len(),
{
    if text.len() > 0 {
        assert(text.last() == text[text.len() - 1]);
        assert(!text.drop_last().contains('#')) by {
            if text.drop_last().contains('#') {
                let k = choose|k: int| 0 <= k < text.drop_last().len() && text.drop_last()[k]
                    == '#';
                assert(text[k] == '#');
            }
        }
        lemma_after_no_hash(text.drop_last());
        assert(text.drop_last().push(text.last()) =~= text);
    }
}

/// Why a pairing link could not be read.
#[derive(Debug)]
pub enum PairingLinkError {
    MissingPayload,
    PayloadTooLarge,
    InvalidBase64(base64::DecodeError),
    InvalidCbor(CborCodecError),
}

impl PairingLinkError {
    /// The human-readable message of the error.
    pub fn to_string(&self) -> (r: String)
        ensures
            r@ == match self {
                PairingLinkError::MissingPayload => "pairing link has no payload"@,
                PairingLinkError::PayloadTooLarge => "pairing payload exceeds 64 KiB"@,
                PairingLinkError::InvalidBase64(_) => "pairing payload is not valid base64url"@,
                PairingLinkError::InvalidCbor(_) => "pairing payload is not valid CBOR"@,
            },
    {
        match self {
            PairingLinkError::MissingPayload => String::from_str("pairing link has no payload"),
            PairingLinkError::PayloadTooLarge => String::from_str(
                "pairing payload exceeds 64 KiB",
            ),
            PairingLinkError::InvalidBase64(_) => String::from_str(
                "pairing payload is not valid base64url",
            ),
            PairingLinkError::InvalidCbor(_) => String::from_str(
                "pairing payload is not valid CBOR",
            ),
        }
    }
}

/// The payload text of a pairing link: the part after its last `#`, or the
/// whole link, with surrounding white space removed first.
pub open spec fn pairing_payload_text(link: Seq<char>) -> Seq<char> {
    after_last_hash(trimmed(link))
}

/// Reads the CBOR bytes out of a pairing link: the base64url text after the
/// link's last `#` (or the whole trimmed link), refused when empty, longer
/// than the encoding of a 64 KiB payload, or not valid base64url.
pub fn decode_pairing_payload(link: &str) -> (r: Result<Vec<u8>, PairingLinkError>)
    ensures
        ({
            let payload = pairing_payload_text(link@);
            if payload.len() == 0 {
                r matches Err(PairingLinkError::MissingPayload)
            } else if vstd::utf8::encode_utf8(payload).len() > MAX_PAIRING_PAYLOAD_TEXT_BYTES {
                r matches Err(PairingLinkError::PayloadTooLarge)
            } else {
                match url_safe_base64_decoding(payload) {
                    Some(bytes) => (r matches Ok(out) && out@ == bytes),
                    None => r matches Err(PairingLinkError::InvalidBase64(_)),
                }
            }
        }),
{
    let text = trim_text(link);
    let payload = match split_at_last_hash(text) {
        Some((before, after)) => {
            proof {
                lemma_after_last_hash(before@, after@);
            }
            after
        },
        None => {
            proof {
                lemma_after_no_hash(text@);
            }
            text
        },
    };
    if payload.is_empty() {
        return Err(PairingLinkError::MissingPayload);
    }
    if payload.len() > MAX_PAIRING_PAYLOAD_TEXT_BYTES {
        return Err(PairingLinkError::PayloadTooLarge);
    }
    match decode_url_safe_base64(payload) {
        Ok(bytes) => Ok(bytes),
        Err(error) => Err(PairingLinkError::InvalidBase64(error)),
    }
}

} // verus!
