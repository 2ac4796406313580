//! Files and rules of the Minecraft server: banned IPs, the whitelist, server.properties,
//! offline player UUIDs and the server icon.
use vstd::prelude::*;

pub mod ban;
pub mod favicon;
pub mod server_properties;
pub mod uuid;
pub mod whitelist;

verus! {
} // verus!
