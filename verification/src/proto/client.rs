//! A client connection: its protocol state and compression, and what it said in its handshake.
use vstd::prelude::*;

use crate::net::{IpAddress, SocketAddress};
use crate::types::i32_bits;

verus! {

/// Protocol state of a client connection.
#[derive(Clone, Copy, Debug, PartialEq, Eq, Structural)]
pub enum ClientState {
    Handshake,
    Status,
    Login,
    Play,
}

/// Protocol id of a state, as a handshake's next state field gives it. `Play` has none.
pub open spec fn state_id(state: ClientState) -> i32 {
    match state {
        ClientState::Handshake => 0,
        ClientState::Status => 1,
        ClientState::Login => 2,
        ClientState::Play => -1i32,
    }
}

/// The state that protocol id `id` names, if any.
pub open spec fn state_from_id(id: i32) -> Option<ClientState> {
    if id == 0 {
        Some(ClientState::Handshake)
    } else if id == 1 {
        Some(ClientState::Status)
    } else if id == 2 {
        Some(ClientState::Login)
    } else {
        None
    }
}

impl ClientState {
    /// The state with protocol id `id`; only the handshake, status and login states have one.
    pub fn from_id(id: i32) -> (res: Option<ClientState>)
        ensures
            res == state_from_id(id),
    {
        match id {
            0 => Some(ClientState::Handshake),
            1 => Some(ClientState::Status),
            2 => Some(ClientState::Login),
            _ => None,
        }
    }

    /// The protocol id of this state, `-1` for `Play`.
    pub fn to_id(self) -> (res: i32)
        ensures
            res == state_id(self),
    {
        match self {
            ClientState::Handshake => 0,
            ClientState::Status => 1,
            ClientState::Login => 2,
            ClientState::Play => -1,
        }
    }

    /// A new connection starts in the handshake state.
    pub fn default_state() -> (res: ClientState)
        ensures
            res == ClientState::Handshake,
    {
        ClientState::Handshake
    }
}

/// Every state but `Play` is named by its own id, and an id names only the state whose id it
/// is; `Play`'s id names no state.
pub proof fn lemma_state_id_roundtrip(state: ClientState, id: i32)
    ensures
        state != ClientState::Play ==> state_from_id(state_id(state)) == Some(state),
        state == ClientState::Play ==> state_from_id(state_id(state)) is None,
        state_from_id(id) matches Some(s) ==> state_id(s) == id,
{
}

/// A client connection: where it comes from, its protocol state, and the compression
/// threshold it uses (negative while compression is off).
#[derive(Debug)]
pub struct Client {
    pub peer: SocketAddress,
    pub state: ClientState,
    pub compression: i32,
}

impl Client {
    /// A new connection from `peer`, in the handshake state, without compression.
    pub fn new(peer: SocketAddress) -> (res: Client)
        ensures
            res.peer == peer,
            res.state == ClientState::Handshake,
            res.compression == -1,
    {
        Client { peer, state: ClientState::Handshake, compression: -1 }
    }

    /// A client from the unspecified address `0.0.0.0:0`.
    pub fn dummy() -> (res: Client)
        ensures
            res.peer == (SocketAddress { ip: IpAddress::V4(0), port: 0 }),
            res.state == ClientState::Handshake,
            res.compression == -1,
    {
        Client::new(SocketAddress { ip: IpAddress::V4(0), port: 0 })
    }

    pub fn state(&self) -> (res: ClientState)
        ensures
            res == self.state,
    {
        self.state
    }

    pub fn set_state(&mut self, state: ClientState)
        ensures
            final(self).state == state,
            final(self).peer == old(self).peer,
            final(self).compression == old(self).compression,
    {
        self.state = state;
    }

    /// The compression threshold, negative while compression is off.
    pub fn compressed(&self) -> (res: i32)
        ensures
            res == self.compression,
    {
        self.compression
    }

    pub fn is_compressed(&self) -> (res: bool)
        ensures
            res == (self.compression >= 0),
    {
        self.compressed() >= 0
    }

    pub fn set_compression(&mut self, threshold: i32)
        ensures
            final(self).compression == threshold,
            final(self).peer == old(self).peer,
            final(self).state == old(self).state,
    {
        self.compression = threshold;
    }
}

/// The fields of a handshake packet.
#[derive(Clone, Debug)]
pub struct Handshake {
    pub protocol_version: i32,
    pub server_addr: String,
    pub server_port: u16,
    pub next_state: i32,
}

/// What is known of a client: its protocol version, its handshake and its user name.
#[derive(Clone, Debug)]
pub struct ClientInfo {
    pub protocol: Option<u32>,
    pub handshake: Option<Handshake>,
    pub username: Option<String>,
}

/// The protocol version of a client: the one recorded, else the one of its handshake
/// (its bit pattern read as unsigned).
pub open spec fn spec_client_protocol(info: ClientInfo) -> Option<u32> {
    match info.protocol {
        Some(p) => Some(p),
        None => match info.handshake {
            Some(h) => Some(i32_bits(h.protocol_version) as u32),
            None => None,
        },
    }
}

/// The bit pattern of `i` read as unsigned.
pub fn i32_as_u32(i: i32) -> (res: u32)
    ensures
        res == i32_bits(i),
{
    if i >= 0 {
        i as u32
    } else {
        (i as i64 + 0x1_0000_0000) as u32
    }
}

impl ClientInfo {
    /// Nothing known yet.
    pub fn empty() -> (res: ClientInfo)
        ensures
            res.protocol is None,
            res.handshake is None,
            res.username is None,
    {
        ClientInfo { protocol: None, handshake: None, username: None }
    }

    /// The protocol version of the client, if known.
    pub fn protocol(&self) -> (res: Option<u32>)
        ensures
            res == spec_client_protocol(*self),
    {
        match self.protocol {
            Some(p) => Some(p),
            None => match &self.handshake {
                Some(h) => Some(i32_as_u32(h.protocol_version)),
                None => None,
            },
        }
    }
}

} // verus!
