//! The fields of the packets that the proxy reads and writes itself: strings, the handshake,
//! the start of a login, the status response and the login disconnect.
//!
//! A string field is a VarInt byte length followed by that many bytes of UTF-8; an unsigned
//! short is two bytes, most significant first.
use vstd::prelude::*;
use vstd::slice::{slice_subrange, slice_to_vec};
use vstd::string::StringSliceAdditionalSpecFns;
use vstd::utf8::{decode_utf8, encode_utf8, encode_utf8_decode_utf8, encode_utf8_valid_utf8, valid_utf8};

use crate::proto::client::Handshake;
use crate::proto::packet::RawPacket;
use crate::types::{
    encode_var_int, lemma_var_int_roundtrip, read_var_int, spec_read_var_int, var_int_encoding,
};

verus! {

/// Longest server address, in bytes, that a handshake may carry.
pub const HANDSHAKE_ADDRESS_MAX: usize = 255;

/// Longest user name, in bytes, that the start of a login may carry.
pub const USERNAME_MAX: usize = 16;

/// Longest string, in bytes, that the proxy writes into a packet.
pub const STRING_MAX: usize = 32767;

/// Id of the handshake packet.
pub const HANDSHAKE_ID: u8 = 0;

/// Id of the status request, and of the status response.
pub const STATUS_ID: u8 = 0;

/// Id of the ping in the status state.
pub const PING_ID: u8 = 1;

/// Id of the login start packet.
pub const LOGIN_START_ID: u8 = 0;

/// Id of the disconnect packet in the login state.
pub const LOGIN_DISCONNECT_ID: u8 = 0;

/// The string field at the front of `buf`, of at most `max` bytes: how many bytes it takes
/// and its text.
pub open spec fn spec_read_string(buf: Seq<u8>, max: nat) -> Option<(nat, Seq<char>)> {
    match spec_read_var_int(buf) {
        None => None,
        Some((n, len)) => {
            let body = buf.subrange(n as int, n + len);
            if len < 0 || len > max || n + len > buf.len() || !valid_utf8(body) {
                None
            } else {
                Some(((n + len) as nat, decode_utf8(body)))
            }
        },
    }
}

/// The string field that holds `text`.
pub open spec fn string_field(text: Seq<char>) -> Seq<u8> {
    var_int_encoding(encode_utf8(text).len() as i32) + encode_utf8(text)
}

/// The unsigned short at the front of `buf`.
pub open spec fn spec_read_u16(buf: Seq<u8>) -> Option<u16> {
    if buf.len() < 2 {
        None
    } else {
        Some((buf[0] * 256 + buf[1]) as u16)
    }
}

/// The fields of a handshake: protocol version, server address, server port and the state
/// asked for next.
pub open spec fn spec_handshake_fields(data: Seq<u8>) -> Option<(i32, Seq<char>, u16, i32)> {
    match spec_read_var_int(data) {
        None => None,
        Some((n1, protocol)) => {
            let rest1 = data.skip(n1 as int);
            match spec_read_string(rest1, HANDSHAKE_ADDRESS_MAX as nat) {
                None => None,
                Some((n2, address)) => {
                    let rest2 = rest1.skip(n2 as int);
                    match spec_read_u16(rest2) {
                        None => None,
                        Some(port) => match spec_read_var_int(rest2.skip(2)) {
                            None => None,
                            Some((_, next)) => Some((protocol, address, port, next)),
                        },
                    }
                },
            }
        },
    }
}

/// The user name at the front of the data of a login start.
pub open spec fn spec_login_name(data: Seq<u8>) -> Option<Seq<char>> {
    match spec_read_string(data, USERNAME_MAX as nat) {
        Some((_, name)) => Some(name),
        None => None,
    }
}

/// Reads `bytes` as UTF-8 with `String::from_utf8`. Claimed, as std documents it: the result
/// is a string exactly when the bytes are valid UTF-8, and its text is what they encode.
#[verifier::external_body]
fn utf8_string(bytes: Vec<u8>) -> (res: Option<String>)
    ensures
        res is Some <==> valid_utf8(bytes@),
        res matches Some(s) ==> s@ == decode_utf8(bytes@),
{
    String::from_utf8(bytes).ok()
}

/// Reads the string field at the front of `buf`, of at most `max` bytes.
pub fn read_string(buf: &[u8], max: usize) -> (res: Option<(usize, String)>)
    ensures
        match spec_read_string(buf@, max as nat) {
            Some((n, text)) => res matches Some((m, s)) && m == n && s@ == text,
            None => res is None,
        },
{
    match read_var_int(buf) {
        Err(()) => None,
        Ok((n, len)) => {
            if len < 0 || len as usize > max || len as usize > buf.len() - n {
                return None;
            }
            let end = n + len as usize;
            let body = slice_to_vec(slice_subrange(buf, n, end));
            assert(body@ == buf@.subrange(n as int, n + len));
            match utf8_string(body) {
                Some(s) => Some((end, s)),
                None => None,
            }
        },
    }
}

/// Reads the unsigned short at the front of `buf`.
pub fn read_u16(buf: &[u8]) -> (res: Option<u16>)
    ensures
        res == spec_read_u16(buf@),
{
    if buf.len() < 2 {
        None
    } else {
        let hi: u16 = buf[0] as u16;
        let lo: u16 = buf[1] as u16;
        Some(hi * 256 + lo)
    }
}

/// Decodes the data of a handshake packet. Bytes after its last field are ignored.
pub fn decode_handshake(data: &[u8]) -> (res: Option<Handshake>)
    ensures
        match spec_handshake_fields(data@) {
            Some((protocol, address, port, next)) => res matches Some(h) && h.protocol_version
                == protocol && h.server_addr@ == address && h.server_port == port && h.next_state
                == next,
            None => res is None,
        },
{
    let (n1, protocol) = match read_var_int(data) {
        Ok(r) => r,
        Err(()) => {
            return None;
        },
    };
    let rest1 = slice_subrange(data, n1, data.len());
    assert(rest1@ == data@.skip(n1 as int));
    let (n2, address) = match read_string(rest1, HANDSHAKE_ADDRESS_MAX) {
        Some(r) => r,
        None => {
            return None;
        },
    };
    let rest2 = slice_subrange(rest1, n2, rest1.len());
    assert(rest2@ == rest1@.skip(n2 as int));
    let port = match read_u16(rest2) {
        Some(p) => p,
        None => {
            return None;
        },
    };
    let rest3 = slice_subrange(rest2, 2, rest2.len());
    assert(rest3@ == rest2@.skip(2));
    match read_var_int(rest3) {
        Ok((_, next)) => Some(
            Handshake { protocol_version: protocol, server_addr: address, server_port: port, next_state: next },
        ),
        Err(()) => None,
    }
}

/// Decodes the user name from the data of a login start packet. Bytes after it are ignored.
pub fn decode_login_name(data: &[u8]) -> (res: Option<String>)
    ensures
        match spec_login_name(data@) {
            Some(name) => res matches Some(s) && s@ == name,
            None => res is None,
        },
{
    match read_string(data, USERNAME_MAX) {
        Some((_, name)) => Some(name),
        None => None,
    }
}

/// Writes `text` as a string field, unless it is longer than `max` bytes.
pub fn write_string(text: &str, max: usize) -> (res: Option<Vec<u8>>)
    requires
        max <= STRING_MAX,
    ensures
        encode_utf8(text@).len() > max ==> res is None,
        encode_utf8(text@).len() <= max ==> (res matches Some(bytes) && bytes@ == string_field(
            text@,
        )),
{
    let bytes = text.as_bytes();
    if bytes.len() > max {
        return None;
    }
    let len = bytes.len() as i32;
    let mut out = match encode_var_int(len) {
        Ok(v) => v,
        Err(()) => {
            return None;
        },
    };
    let mut tail = slice_to_vec(bytes);
    out.append(&mut tail);
    Some(out)
}

/// The status response carrying `json`, the server status written as JSON; `None` where the
/// JSON is too long for a string field.
pub fn status_response(json: &str) -> (res: Option<RawPacket>)
    ensures
        encode_utf8(json@).len() > STRING_MAX ==> res is None,
        encode_utf8(json@).len() <= STRING_MAX ==> (res matches Some(p) && p.id == STATUS_ID
            && p.data@ == string_field(json@)),
{
    match write_string(json, STRING_MAX) {
        Some(data) => Some(RawPacket::new(STATUS_ID, data)),
        None => None,
    }
}

/// The login disconnect carrying `reason`, a chat message written as JSON; `None` where the
/// JSON is too long for a string field.
pub fn login_disconnect(reason: &str) -> (res: Option<RawPacket>)
    ensures
        encode_utf8(reason@).len() > STRING_MAX ==> res is None,
        encode_utf8(reason@).len() <= STRING_MAX ==> (res matches Some(p) && p.id
            == LOGIN_DISCONNECT_ID && p.data@ == string_field(reason@)),
{
    match write_string(reason, STRING_MAX) {
        Some(data) => Some(RawPacket::new(LOGIN_DISCONNECT_ID, data)),
        None => None,
    }
}

/// A string field written for `text` reads back as `text`, whatever follows it, as long as
/// it is no longer than the limit it is read with.
pub proof fn lemma_string_roundtrip(text: Seq<char>, rest: Seq<u8>, max: nat)
    requires
        encode_utf8(text).len() <= max,
        encode_utf8(text).len() <= STRING_MAX,
    ensures
        spec_read_string(string_field(text) + rest, max) == Some(
            (string_field(text).len(), text),
        ),
{
    let body = encode_utf8(text);
    let len = body.len() as i32;
    let head = var_int_encoding(len);
    lemma_var_int_roundtrip(len, body + rest);
    assert(string_field(text) + rest =~= head + (body + rest));
    let buf = head + (body + rest);
    assert(buf.subrange(head.len() as int, head.len() + len) =~= body);
    encode_utf8_valid_utf8(text);
    encode_utf8_decode_utf8(text);
}


/// The data of a handshake packet with the given fields.
pub open spec fn handshake_bytes(protocol: i32, address: Seq<char>, port: u16, next: i32) -> Seq<
    u8,
> {
    var_int_encoding(protocol) + string_field(address) + seq![(port / 256) as u8, (port % 256) as u8]
        + var_int_encoding(next)
}

/// The handshake packet for `handshake`; `None` where its server address is longer than a
/// handshake allows.
pub fn encode_handshake(handshake: &Handshake) -> (res: Option<RawPacket>)
    ensures
        encode_utf8(handshake.server_addr@).len() > HANDSHAKE_ADDRESS_MAX ==> res is None,
        encode_utf8(handshake.server_addr@).len() <= HANDSHAKE_ADDRESS_MAX ==> (res matches Some(p)
            && p.id == HANDSHAKE_ID && p.data@ == handshake_bytes(
            handshake.protocol_version,
            handshake.server_addr@,
            handshake.server_port,
            handshake.next_state,
        )),
{
    let address = match write_string(handshake.server_addr.as_str(), HANDSHAKE_ADDRESS_MAX) {
        Some(a) => a,
        None => {
            return None;
        },
    };
    let mut data = match encode_var_int(handshake.protocol_version) {
        Ok(v) => v,
        Err(()) => {
            return None;
        },
    };
    let mut address = address;
    data.append(&mut address);
    let port = handshake.server_port;
    data.push((port / 256) as u8);
    data.push((port % 256) as u8);
    let mut next = match encode_var_int(handshake.next_state) {
        Ok(v) => v,
        Err(()) => {
            return None;
        },
    };
    data.append(&mut next);
    proof {
        assert(data@ =~= handshake_bytes(
            handshake.protocol_version,
            handshake.server_addr@,
            handshake.server_port,
            handshake.next_state,
        ));
    }
    Some(RawPacket::new(HANDSHAKE_ID, data))
}

/// The login start packet for a player named `name`; `None` where the name is longer than a
/// login start allows.
pub fn login_start(name: &str) -> (res: Option<RawPacket>)
    ensures
        encode_utf8(name@).len() > USERNAME_MAX ==> res is None,
        encode_utf8(name@).len() <= USERNAME_MAX ==> (res matches Some(p) && p.id == LOGIN_START_ID
            && p.data@ == string_field(name@)),
{
    match write_string(name, USERNAME_MAX) {
        Some(data) => Some(RawPacket::new(LOGIN_START_ID, data)),
        None => None,
    }
}

/// The status request: a packet without data.
pub fn status_request() -> (res: RawPacket)
    ensures
        res.id == STATUS_ID,
        res.data@.len() == 0,
{
    RawPacket::new(STATUS_ID, Vec::new())
}

/// The JSON text of a status response.
pub fn decode_status_response(data: &[u8]) -> (res: Option<String>)
    ensures
        match spec_read_string(data@, STRING_MAX as nat) {
            Some((_, json)) => res matches Some(s) && s@ == json,
            None => res is None,
        },
{
    match read_string(data, STRING_MAX) {
        Some((_, json)) => Some(json),
        None => None,
    }
}

/// A handshake written with `encode_handshake`, followed by any bytes, decodes to the same
/// fields.
pub proof fn lemma_handshake_roundtrip(
    protocol: i32,
    address: Seq<char>,
    port: u16,
    next: i32,
    rest: Seq<u8>,
)
    requires
        encode_utf8(address).len() <= HANDSHAKE_ADDRESS_MAX,
    ensures
        spec_handshake_fields(handshake_bytes(protocol, address, port, next) + rest) == Some(
            (protocol, address, port, next),
        ),
{
    let p = var_int_encoding(protocol);
    let a = string_field(address);
    let b = seq![(port / 256) as u8, (port % 256) as u8];
    let n = var_int_encoding(next);
    let buf = handshake_bytes(protocol, address, port, next) + rest;
    lemma_var_int_roundtrip(protocol, a + b + n + rest);
    assert(buf =~= p + (a + b + n + rest));
    let rest1 = buf.skip(p.len() as int);
    assert(rest1 =~= a + (b + n + rest));
    lemma_string_roundtrip(address, b + n + rest, HANDSHAKE_ADDRESS_MAX as nat);
    let rest2 = rest1.skip(a.len() as int);
    assert(rest2 =~= b + (n + rest));
    assert(spec_read_u16(rest2) == Some(port));
    assert(rest2.skip(2) =~= n + rest);
    lemma_var_int_roundtrip(next, rest);
}

} // verus!
