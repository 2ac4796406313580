//! What the proxy reloads when files in the server directory change: the banned addresses
//! from `banned-ips.json`, and the whitelist from `whitelist.json`, `ops.json` and the
//! `white-list` property of `server.properties`.
use vstd::prelude::*;

use crate::config::Config;
use crate::text::{chars_of, str_eq, trim, trim_seq, string_of};

verus! {

/// The file of banned addresses.
pub fn ban_file() -> (res: &'static str)
    ensures
        res@ == "banned-ips.json"@,
{
    "banned-ips.json"
}

/// The file of whitelisted players.
pub fn whitelist_file() -> (res: &'static str)
    ensures
        res@ == "whitelist.json"@,
{
    "whitelist.json"
}

/// The file of operators.
pub fn ops_file() -> (res: &'static str)
    ensures
        res@ == "ops.json"@,
{
    "ops.json"
}

/// The server's properties file.
pub fn properties_file() -> (res: &'static str)
    ensures
        res@ == "server.properties"@,
{
    "server.properties"
}

/// What a changed file makes the proxy reload.
#[derive(Clone, Copy, Debug, PartialEq, Eq, Structural)]
pub struct Reload {
    pub bans: bool,
    pub whitelist: bool,
}

/// A change of the file named `name` reloads the bans when it is the ban file, and the
/// whitelist when it is the whitelist, the operators or the properties.
pub open spec fn spec_reload_for(name: Seq<char>) -> Reload {
    Reload {
        bans: name == "banned-ips.json"@,
        whitelist: name == "whitelist.json"@ || name == "ops.json"@ || name
            == "server.properties"@,
    }
}

/// What a change of the file named `name` (the last component of its path) reloads.
pub fn reload_for(name: &str) -> (res: Reload)
    ensures
        res == spec_reload_for(name@),
{
    let bans = str_eq(name, ban_file());
    let whitelist = str_eq(name, whitelist_file()) || str_eq(name, ops_file()) || str_eq(
        name,
        properties_file(),
    );
    Reload { bans, whitelist }
}

/// Banned addresses are loaded only where they block logins or drop connections.
pub fn uses_bans(config: &Config) -> (res: bool)
    ensures
        res == (config.server.block_banned_ips || config.server.drop_banned_ips),
{
    config.server.block_banned_ips || config.server.drop_banned_ips
}

/// The whitelist is loaded only where it decides who may wake the server.
pub fn uses_whitelist(config: &Config) -> (res: bool)
    ensures
        res == config.server.wake_whitelist,
{
    config.server.wake_whitelist
}

/// The server enforces its whitelist: its `white-list` property, trimmed, is `true`.
pub open spec fn spec_whitelist_enabled(property: Option<Seq<char>>) -> bool {
    match property {
        Some(v) => trim_seq(v) == "true"@,
        None => false,
    }
}

/// Whether the value of the `white-list` property, if the server has one, turns the
/// whitelist on.
pub fn whitelist_enabled(property: &Option<String>) -> (res: bool)
    ensures
        res == spec_whitelist_enabled(match property {
            Some(v) => Some(v@),
            None => None,
        }),
{
    match property {
        Some(v) => {
            let chars = chars_of(v.as_str());
            let trimmed = trim(chars.as_slice());
            let t = string_of(trimmed.as_slice());
            str_eq(t.as_str(), "true")
        },
        None => false,
    }
}

} // verus!
