use vstd::prelude::*;

use crate::protocol::{TlsIdentityHint, TlsIdentityHintView};
use crate::text::opt_text;

verus! {

/// Where and how to open the control connection.
#[derive(Debug, PartialEq, Eq)]
pub struct SocketTarget {
    pub endpoint: String,
    pub tls_identity: TlsIdentityHint,
}

impl Clone for SocketTarget {
    fn clone(&self) -> (r: Self)
        ensures
            r.endpoint@ == self.endpoint@,
            r.tls_identity@ == self.tls_identity@,
    {
        SocketTarget { endpoint: self.endpoint.clone(), tls_identity: self.tls_identity.clone() }
    }
}

/// What a binary WebSocket delivered.
#[derive(Clone, Debug, PartialEq, Eq)]
pub enum SocketEvent {
    Binary(Vec<u8>),
    Closed { reason: Option<String> },
}

/// A failure of the WebSocket transport, with its message.
#[derive(Debug, PartialEq, Eq)]
pub struct TransportError {
    message: String,
}

impl View for TransportError {
    type V = Seq<char>;

    closed spec fn view(&self) -> Seq<char> {
        self.message@
    }
}

impl Clone for TransportError {
    fn clone(&self) -> (r: Self)
        ensures
            r@ == self@,
    {
        TransportError { message: self.message.clone() }
    }
}

impl TransportError {
    /// An error with `message`.
    pub fn new(message: String) -> (r: Self)
        ensures
            r@ == message@,
    {
        TransportError { message }
    }

    /// The error's message.
    pub fn to_string(&self) -> (r: String)
        ensures
            r@ == self@,
    {
        self.message.clone()
    }
}

/// The parts of a parsed WebSocket endpoint that connecting depends on.
#[derive(Debug, PartialEq, Eq)]
pub struct Endpoint {
    pub scheme: String,
    pub host: Option<String>,
}

/// What the `url` crate makes of `text`: its scheme and host, or the text of
/// its parse error.
pub uninterp spec fn url_parse_outcome(text: Seq<char>) -> Result<
    (Seq<char>, Option<Seq<char>>),
    Seq<char>,
>;

/// Parses `text` with `url::Url::parse` and keeps its scheme
/// (`Url::scheme`) and host (`Url::host_str`), or the error's text. The
/// outcome is named, not described.
#[verifier::external_body]
fn parse_url(text: &str) -> (r: Result<Endpoint, String>)
    ensures
        match r {
            Ok(endpoint) => url_parse_outcome(text@) == Ok::<
                (Seq<char>, Option<Seq<char>>),
                Seq<char>,
            >((endpoint.scheme@, opt_text(endpoint.host))),
            Err(message) => url_parse_outcome(text@) == Err::<
                (Seq<char>, Option<Seq<char>>),
                Seq<char>,
            >(message@),
        },
{
    match url::Url::parse(text) {
        Ok(url) => {
            let host = match url.host_str() {
                Some(host) => Some(host.to_string()),
                None => None,
            };
            Ok(Endpoint { scheme: url.scheme().to_string(), host })
        },
        Err(error) => Err(error.to_string()),
    }
}

/// Parses a WebSocket endpoint; a parse error becomes a transport error.
pub fn parse_endpoint(endpoint: &str) -> (r: Result<Endpoint, TransportError>)
    ensures
        match url_parse_outcome(endpoint@) {
            Ok((scheme, host)) => (r matches Ok(parsed) && parsed.scheme@ == scheme && opt_text(
                parsed.host,
            ) == host),
            Err(message) => (r matches Err(e) && e@ == "invalid WebSocket endpoint: "@ + message),
        },
{
    match parse_url(endpoint) {
        Ok(parsed) => Ok(parsed),
        Err(message) => {
            let mut text = String::from_str("invalid WebSocket endpoint: ");
            text.append(message.as_str());
            Err(TransportError::new(text))
        },
    }
}

/// The ASCII lower case of a byte.
pub open spec fn ascii_lower(b: u8) -> u8 {
    if 65 <= b <= 90 {
        (b + 32) as u8
    } else {
        b
    }
}

/// The bytes of `localhost`.
pub open spec fn localhost_bytes() -> Seq<u8> {
    seq![108u8, 111u8, 99u8, 97u8, 108u8, 104u8, 111u8, 115u8, 116u8]
}

/// Whether `host` spells `localhost` in any ASCII case.
pub open spec fn is_localhost(host: Seq<u8>) -> bool {
    host.len() == 9 && forall|i: int| 0 <= i < 9 ==> ascii_lower(#[trigger] host[i])
        == localhost_bytes()[i]
}

/// Whether the host text spells `localhost` in any ASCII case.
pub fn host_is_localhost(host: &str) -> (r: bool)
    ensures
        r == is_localhost(vstd::utf8::encode_utf8(host@)),
{
    let bytes = host.as_bytes();
    if bytes.len() != 9 {
        return false;
    }
    let expected: [u8; 9] = [108u8, 111u8, 99u8, 97u8, 108u8, 104u8, 111u8, 115u8, 116u8];
    let mut i: usize = 0;
    while i < 9
        invariant
            i <= 9,
            bytes@ == vstd::utf8::encode_utf8(host@),
            bytes@.len() == 9,
            expected@ == localhost_bytes(),
            forall|k: int| 0 <= k < i ==> ascii_lower(#[trigger] bytes@[k]) == localhost_bytes()[k],
        decreases 9 - i,
    {
        let b = bytes[i];
        let lower: u8 = if 65 <= b && b <= 90 {
            b + 32
        } else {
            b
        };
        if lower != expected[i] {
            return false;
        }
        i = i + 1;
    }
    true
}

/// Why an endpoint does not suit the trust mode, if it does not: trusted and
/// pinned connections need `wss`, insecure development needs `ws` to a
/// loopback host.
pub open spec fn endpoint_fault(
    tls: TlsIdentityHintView,
    scheme: Seq<char>,
    loopback: bool,
) -> Option<Seq<char>> {
    match tls {
        TlsIdentityHintView::InsecureDevelopment => if scheme != "ws"@ || !loopback {
            Some("insecure development connections require a loopback ws:// endpoint"@)
        } else {
            None
        },
        _ => if scheme != "wss"@ {
            Some("trusted and pinned connections require a wss:// endpoint"@)
        } else {
            None
        },
    }
}

/// Whether a parsed host is a loopback host: `localhost` in any case, or an
/// address the caller found to be a loopback address.
pub open spec fn loopback_host(host: Option<Seq<char>>, address_is_loopback: bool) -> bool {
    match host {
        None => false,
        Some(text) => is_localhost(vstd::utf8::encode_utf8(text)) || address_is_loopback,
    }
}

/// Checks that `endpoint` suits the trust mode `tls`. `address_is_loopback`
/// says whether the endpoint's host is a loopback IP address.
pub fn check_endpoint(tls: &TlsIdentityHint, endpoint: &Endpoint, address_is_loopback: bool) -> (r:
    Result<(), TransportError>)
    ensures
        match endpoint_fault(
            tls@,
            endpoint.scheme@,
            loopback_host(opt_text(endpoint.host), address_is_loopback),
        ) {
            Some(message) => (r matches Err(e) && e@ == message),
            None => r is Ok,
        },
{
    proof {
        reveal_strlit("ws");
        reveal_strlit("wss");
    }
    let loopback = match &endpoint.host {
        None => false,
        Some(host) => host_is_localhost(host.as_str()) || address_is_loopback,
    };
    match tls {
        TlsIdentityHint::InsecureDevelopment => {
            let expected = String::from_str("ws");
            let scheme_ok = endpoint.scheme == expected;
            if !scheme_ok || !loopback {
                return Err(
                    TransportError::new(
                        String::from_str(
                            "insecure development connections require a loopback ws:// endpoint",
                        ),
                    ),
                );
            }
        },
        _ => {
            let expected = String::from_str("wss");
            let scheme_ok = endpoint.scheme == expected;
            if !scheme_ok {
                return Err(
                    TransportError::new(
                        String::from_str(
                            "trusted and pinned connections require a wss:// endpoint",
                        ),
                    ),
                );
            }
        },
    }
    Ok(())
}

/// Why an endpoint does not suit the trust mode in a browser, if it does
/// not: trusted connections need `wss`, insecure development needs `ws` to a
/// loopback host, and a pinned certificate cannot be checked by a browser.
pub open spec fn browser_endpoint_fault(
    tls: TlsIdentityHintView,
    scheme: Seq<char>,
    loopback: bool,
) -> Option<Seq<char>> {
    match tls {
        TlsIdentityHintView::PubliclyTrusted => if scheme != "wss"@ {
            Some("browser trusted connections require a wss:// endpoint"@)
        } else {
            None
        },
        TlsIdentityHintView::InsecureDevelopment => if scheme != "ws"@ || !loopback {
            Some("browser development connections require a loopback ws:// endpoint"@)
        } else {
            None
        },
        TlsIdentityHintView::Sha256Fingerprint(_) => Some(
            "browsers do not expose certificate pinning; use a publicly trusted certificate"@,
        ),
    }
}

/// Checks that `endpoint` suits the trust mode `tls` for a browser client.
/// `address_is_loopback` says whether the endpoint's host is a loopback IP address.
pub fn check_browser_endpoint(
    tls: &TlsIdentityHint,
    endpoint: &Endpoint,
    address_is_loopback: bool,
) -> (r: Result<(), TransportError>)
    ensures
        match browser_endpoint_fault(
            tls@,
            endpoint.scheme@,
            loopback_host(opt_text(endpoint.host), address_is_loopback),
        ) {
            Some(message) => (r matches Err(e) && e@ == message),
            None => r is Ok,
        },
{
    proof {
        reveal_strlit("ws");
        reveal_strlit("wss");
    }
    let loopback = match &endpoint.host {
        None => false,
        Some(host) => host_is_localhost(host.as_str()) || address_is_loopback,
    };
    match tls {
        TlsIdentityHint::PubliclyTrusted => {
            let expected = String::from_str("wss");
            if !(endpoint.scheme == expected) {
                return Err(
                    TransportError::new(
                        String::from_str("browser trusted connections require a wss:// endpoint"),
                    ),
                );
            }
        },
        TlsIdentityHint::InsecureDevelopment => {
            let expected = String::from_str("ws");
            if !(endpoint.scheme == expected) || !loopback {
                return Err(
                    TransportError::new(
                        String::from_str(
                            "browser development connections require a loopback ws:// endpoint",
                        ),
                    ),
                );
            }
        },
        TlsIdentityHint::Sha256Fingerprint(_) => {
            return Err(
                TransportError::new(
                    String::from_str(
                        "browsers do not expose certificate pinning; use a publicly trusted certificate",
                    ),
                ),
            );
        },
    }
    Ok(())
}

/// The value of an ASCII hexadecimal digit.
pub open spec fn hex_value(b: u8) -> Option<u8> {
    if 48 <= b <= 57 {
        Some((b - 48) as u8)
    } else if 97 <= b <= 102 {
        Some((b - 87) as u8)
    } else if 65 <= b <= 70 {
        Some((b - 55) as u8)
    } else {
        None
    }
}

/// The byte two hexadecimal digits denote, if both are hexadecimal digits.
pub open spec fn hex_pair(first: u8, second: u8) -> Option<u8> {
    match (hex_value(first), hex_value(second)) {
        (Some(high), Some(low)) => Some((high * 16 + low) as u8),
        _ => None,
    }
}

/// The bytes a 64-byte hexadecimal fingerprint denotes, if every pair is valid.
pub open spec fn fingerprint_bytes(text: Seq<u8>) -> Option<Seq<u8>> {
    if forall|i: int| 0 <= i < 32 ==> (#[trigger] hex_pair(text[2 * i], text[2 * i + 1])) is Some {
        Some(Seq::new(32, |i: int| hex_pair(text[2 * i], text[2 * i + 1])->0))
    } else {
        None
    }
}

/// The value of one hexadecimal digit byte.
fn hex_digit(b: u8) -> (r: Option<u8>)
    ensures
        r == hex_value(b),
{
    if 48 <= b && b <= 57 {
        Some(b - 48)
    } else if 97 <= b && b <= 102 {
        Some(b - 87)
    } else if 65 <= b && b <= 70 {
        Some(b - 55)
    } else {
        None
    }
}

/// Decodes a SHA-256 certificate fingerprint written as 64 hexadecimal
/// characters into its 32 bytes; any other text, non-ASCII text included, is
/// refused.
pub fn decode_fingerprint(value: &str) -> (r: Result<[u8; 32], TransportError>)
    ensures
        vstd::utf8::encode_utf8(value@).len() != 64 ==> (r matches Err(e) && e@
            == "SHA-256 certificate fingerprint must contain 64 hexadecimal characters"@),
        vstd::utf8::encode_utf8(value@).len() == 64 ==> match fingerprint_bytes(vstd::utf8::encode_utf8(value@)) {
            Some(bytes) => (r matches Ok(out) && out@ == bytes),
            None => (r matches Err(e) && e@
                == "SHA-256 certificate fingerprint contains non-hexadecimal data"@),
        },
{
    let bytes = value.as_bytes();
    if bytes.len() != 64 {
        return Err(
            TransportError::new(
                String::from_str(
                    "SHA-256 certificate fingerprint must contain 64 hexadecimal characters",
                ),
            ),
        );
    }
    let mut output: [u8; 32] = [0u8; 32];
    let mut index: usize = 0;
    while index < 32
        invariant
            index <= 32,
            bytes@ == vstd::utf8::encode_utf8(value@),
            bytes@.len() == 64,
            forall|k: int| 0 <= k < index ==> (#[trigger] hex_pair(bytes@[2 * k], bytes@[2 * k + 1])) is Some,
            forall|k: int|
                0 <= k < index ==> output@[k] == hex_pair(bytes@[2 * k], bytes@[2 * k + 1])->0,
            output@.len() == 32,
        decreases 32 - index,
    {
        let first = bytes[2 * index];
        let second = bytes[2 * index + 1];
        let pair: Option<u8> = match (hex_digit(first), hex_digit(second)) {
            (Some(high), Some(low)) => Some(high * 16 + low),
            _ => None,
        };
        match pair {
            Some(byte) => {
                output[index] = byte;
            },
            None => {
                proof {
                    assert(hex_pair(bytes@[2 * index as int], bytes@[2 * index + 1]) is None);
                    assert(!(hex_pair(bytes@[2 * index as int], bytes@[2 * index + 1]) is Some));
                }
                return Err(
                    TransportError::new(
                        String::from_str(
                            "SHA-256 certificate fingerprint contains non-hexadecimal data",
                        ),
                    ),
                );
            },
        }
        index = index + 1;
    }
    proof {
        assert(output@ =~= Seq::new(
            32,
            |i: int| hex_pair(vstd::utf8::encode_utf8(value@)[2 * i], vstd::utf8::encode_utf8(value@)[2 * i + 1])->0,
        ));
    }
    Ok(output)
}

} // verus!
