//! The Minecraft protocol: client connection state and packet framing.
use vstd::prelude::*;

pub mod client;
pub mod codec;
pub mod packet;

verus! {

/// Protocol version that is reported when no other is known.
pub const PROTO_DEFAULT_PROTOCOL: u32 = 769;

/// Compression threshold that the lobby sends to clients.
pub const COMPRESSION_THRESHOLD: i32 = 256;

/// Size of the buffers that reads from a connection use.
pub const BUF_SIZE: usize = 8192;

/// Game version that is reported when no other is known.
pub fn proto_default_version() -> (res: &'static str)
    ensures
        res@ == "1.21.4"@,
{
    "1.21.4"
}

} // verus!
