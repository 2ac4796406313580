//! The server icon shown in the server list, as a PNG data URL.
use vstd::prelude::*;

use crate::proto::client::ClientInfo;
use crate::text::{append_chars, chars_of, string_of};

verus! {

/// Oldest protocol version whose clients show a server icon.
pub const FAVICON_PROTOCOL_VERSION: u32 = 4;

/// The base64 digit for the six-bit value `v`: `A`-`Z`, `a`-`z`, `0`-`9`, `+`, `/`.
pub open spec fn base64_digit(v: int) -> char {
    if v < 26 {
        (65 + v) as char
    } else if v < 52 {
        (97 + v - 26) as char
    } else if v < 62 {
        (48 + v - 52) as char
    } else if v == 62 {
        '+'
    } else {
        '/'
    }
}

/// The standard base64 encoding of `data` (RFC 4648, with padding): each group of three
/// bytes as four digits, a last group of one or two bytes as two or three digits padded
/// with `=`.
pub open spec fn base64_standard(data: Seq<u8>) -> Seq<char>
    decreases data.len(),
{
    if data.len() == 0 {
        Seq::empty()
    } else if data.len() == 1 {
        let n = data[0] * 65536;
        seq![base64_digit(n / 262144), base64_digit((n / 4096) % 64), '=', '=']
    } else if data.len() == 2 {
        let n = data[0] * 65536 + data[1] * 256;
        seq![
            base64_digit(n / 262144),
            base64_digit((n / 4096) % 64),
            base64_digit((n / 64) % 64),
            '=',
        ]
    } else {
        let n = data[0] * 65536 + data[1] * 256 + data[2];
        seq![
            base64_digit(n / 262144),
            base64_digit((n / 4096) % 64),
            base64_digit((n / 64) % 64),
            base64_digit(n % 64),
        ] + base64_standard(data.skip(3))
    }
}

/// Encodes `data` with `base64::engine::general_purpose::STANDARD`. Claimed, as the crate
/// documents that engine (the standard alphabet, with padding): the text is
/// `base64_standard(data)`.
#[verifier::external_body]
fn base64_encode(data: &[u8]) -> (res: String)
    ensures
        res@ == base64_standard(data@),
{
    base64::Engine::encode(&base64::engine::general_purpose::STANDARD, data)
}

/// Prefix of a PNG data URL.
pub open spec fn png_data_prefix() -> Seq<char> {
    "data:image/png;base64,"@
}

/// The icon `data` (PNG bytes) as a data URL.
pub fn encode_favicon(data: &[u8]) -> (res: String)
    ensures
        res@ == png_data_prefix() + base64_standard(data@),
{
    let mut out = chars_of("data:image/png;base64,");
    let encoded = base64_encode(data);
    let enc = chars_of(encoded.as_str());
    append_chars(&mut out, enc.as_slice());
    string_of(out.as_slice())
}

/// Whether a client shows server icons: when its protocol is known to be older than the
/// first that does, it does not.
pub fn supports_favicon(client_info: &ClientInfo) -> (res: bool)
    ensures
        res == match client_info.protocol {
            Some(p) => p >= FAVICON_PROTOCOL_VERSION,
            None => true,
        },
{
    match client_info.protocol {
        Some(p) => p >= FAVICON_PROTOCOL_VERSION,
        None => true,
    }
}

} // verus!
