//! Probing the server: the decisions of the login exchange that the proxy runs against the
//! server as a client of its own, packet by packet, until the server lets it play.
use vstd::prelude::*;
use vstd::slice::{slice_subrange, slice_to_vec};

use crate::proto::client::{Client, ClientState};
use crate::proto::codec::{STRING_MAX, read_string, spec_read_string};
use crate::proto::packet::RawPacket;
use crate::types::{encode_var_int, read_var_int, spec_read_var_int, var_int_encoding};

verus! {

/// Id of the login success the server sends.
pub const SERVER_LOGIN_SUCCESS_ID: u8 = 2;

/// Id of the set compression packet the server sends.
pub const SERVER_SET_COMPRESSION_ID: u8 = 3;

/// Id of the login plugin request the server sends.
pub const SERVER_PLUGIN_REQUEST_ID: u8 = 4;

/// Id of the login plugin response the client sends.
pub const CLIENT_PLUGIN_RESPONSE_ID: u8 = 2;

/// The fields of a login plugin request: its message id, its channel, and its data (all the
/// bytes after the channel).
pub open spec fn spec_plugin_request(data: Seq<u8>) -> Option<(i32, Seq<char>, Seq<u8>)> {
    match spec_read_var_int(data) {
        None => None,
        Some((n, message_id)) => {
            let rest = data.skip(n as int);
            match spec_read_string(rest, STRING_MAX as nat) {
                None => None,
                Some((m, channel)) => Some((message_id, channel, rest.skip(m as int))),
            }
        },
    }
}

/// The data of a login plugin response with `message_id` that says it failed and carries
/// nothing.
pub open spec fn refusal_bytes(message_id: i32) -> Seq<u8> {
    var_int_encoding(message_id) + seq![0u8]
}

/// What the probing client does with a packet from the server during login.
#[derive(Debug)]
pub enum ProbeAction {
    /// The server set this compression threshold, which the client now uses.
    SetCompression(i32),
    /// A Forge login plugin request, kept to be replayed and answered by Forge's handshake.
    ForgeRequest(i32, String, Vec<u8>),
    /// Send this response, refusing a plugin request the client does not know.
    Refuse(RawPacket),
    /// Login succeeded; the client is now in the play state.
    LoginSuccess,
    /// A packet the client must read could not be read: the probe fails.
    Malformed,
    /// A packet the client does not handle.
    Ignore,
}

/// Handles one packet from the server while the probing client logs in (`forge` tells whether
/// the server runs Forge): in the login state, a set compression packet sets the client's
/// threshold, a plugin request is kept for Forge or else refused with its own message id,
/// and login success moves the client to the play state. Anything else is ignored.
pub fn probe_login_packet(client: &mut Client, packet: &RawPacket, forge: bool) -> (res:
    ProbeAction)
    ensures
        final(client).peer == old(client).peer,
        old(client).state != ClientState::Login ==> res is Ignore && *final(client) == *old(
            client,
        ),
        old(client).state == ClientState::Login && packet.id == SERVER_SET_COMPRESSION_ID
            ==> match spec_read_var_int(packet.data@) {
            Some((_, t)) => res matches ProbeAction::SetCompression(u) && u == t
                && final(client).compression == t && final(client).state == old(client).state,
            None => res is Malformed && *final(client) == *old(client),
        },
        old(client).state == ClientState::Login && packet.id == SERVER_PLUGIN_REQUEST_ID
            ==> *final(client) == *old(client) && match spec_plugin_request(packet.data@) {
            Some((id, channel, data)) => if forge {
                res matches ProbeAction::ForgeRequest(i, c, d) && i == id && c@ == channel && d@
                    == data
            } else {
                res matches ProbeAction::Refuse(p) && p.id == CLIENT_PLUGIN_RESPONSE_ID
                    && p.data@ == refusal_bytes(id)
            },
            None => res is Malformed,
        },
        old(client).state == ClientState::Login && packet.id == SERVER_LOGIN_SUCCESS_ID
            ==> res is LoginSuccess && final(client).state == ClientState::Play
            && final(client).compression == old(client).compression,
        old(client).state == ClientState::Login && packet.id != SERVER_SET_COMPRESSION_ID
            && packet.id != SERVER_PLUGIN_REQUEST_ID && packet.id != SERVER_LOGIN_SUCCESS_ID
            ==> res is Ignore && *final(client) == *old(client),
{
    if client.state() != ClientState::Login {
        return ProbeAction::Ignore;
    }
    if packet.id == SERVER_SET_COMPRESSION_ID {
        return match read_var_int(packet.data.as_slice()) {
            Ok((_, threshold)) => {
                client.set_compression(threshold);
                ProbeAction::SetCompression(threshold)
            },
            Err(()) => ProbeAction::Malformed,
        };
    }
    if packet.id == SERVER_PLUGIN_REQUEST_ID {
        let data = packet.data.as_slice();
        let (n, message_id) = match read_var_int(data) {
            Ok(r) => r,
            Err(()) => {
                return ProbeAction::Malformed;
            },
        };
        let rest = slice_subrange(data, n, data.len());
        assert(rest@ == data@.skip(n as int));
        let (m, channel) = match read_string(rest, STRING_MAX) {
            Some(r) => r,
            None => {
                return ProbeAction::Malformed;
            },
        };
        let body = slice_to_vec(slice_subrange(rest, m, rest.len()));
        assert(body@ == rest@.skip(m as int));
        if forge {
            return ProbeAction::ForgeRequest(message_id, channel, body);
        }
        let mut response = match encode_var_int(message_id) {
            Ok(v) => v,
            Err(()) => {
                return ProbeAction::Malformed;
            },
        };
        response.push(0u8);
        assert(response@ =~= refusal_bytes(message_id));
        return ProbeAction::Refuse(RawPacket::new(CLIENT_PLUGIN_RESPONSE_ID, response));
    }
    if packet.id == SERVER_LOGIN_SUCCESS_ID {
        client.set_state(ClientState::Play);
        return ProbeAction::LoginSuccess;
    }
    ProbeAction::Ignore
}

} // verus!
