//! What the proxy answers while serving clients itself: the status shown in the server
//! list, whether a logging-in player is turned away, and where a new connection goes.
use vstd::prelude::*;

use crate::config::Config;
use crate::mc::ban::spec_banned_at;
use crate::mc::favicon::{supports_favicon, FAVICON_PROTOCOL_VERSION};
use crate::mc::whitelist::spec_whitelisted;
use crate::net::IpAddress;
use crate::proto::client::{Client, ClientInfo, ClientState, i32_as_u32, state_from_id};
use crate::proto::codec::{
    HANDSHAKE_ID, LOGIN_START_ID, PING_ID, STATUS_ID, decode_handshake, decode_login_name,
    spec_handshake_fields, spec_login_name,
};
use crate::proto::packet::RawPacket;
use crate::types::i32_bits;
use crate::server::{
    OnlinePlayers, Server, ServerStatus, ServerVersion, State, status_equal,
};
use crate::text::{append_chars, chars_of, string_of};

verus! {

/// Name of the server icon file in the server directory.
pub fn server_icon_file() -> (res: &'static str)
    ensures
        res@ == "server-icon.png"@,
{
    "server-icon.png"
}

pub open spec fn ban_message_prefix() -> Seq<char> {
    "Your IP address is banned from this server.\nReason: "@
}

pub open spec fn default_ban_reason() -> Seq<char> {
    "Banned by an operator."@
}

pub open spec fn whitelist_message() -> Seq<char> {
    "You are not white-listed on this server!"@
}

/// The message of the day for a server in `state` that is not serving itself.
pub open spec fn motd_for(config: Config, state: State) -> String {
    match state {
        State::Stopped | State::Started => config.motd.sleeping,
        State::Starting => config.motd.starting,
        State::Stopping => config.motd.stopping,
    }
}

/// The message of the day follows the state: a stopping server announces that it goes to
/// sleep, a starting one that it is starting, and a stopped or started one (not serving
/// itself) that it sleeps. The messages are the configured ones, one per state.
pub proof fn lemma_motd_per_state(config: Config, state: State)
    ensures
        state == State::Stopping ==> motd_for(config, state) == config.motd.stopping,
        state == State::Starting ==> motd_for(config, state) == config.motd.starting,
        state == State::Stopped ==> motd_for(config, state) == config.motd.sleeping,
        state == State::Started ==> motd_for(config, state) == config.motd.sleeping,
{
}

pub open spec fn client_supports_favicon(info: ClientInfo) -> bool {
    match info.protocol {
        Some(p) => p >= FAVICON_PROTOCOL_VERSION,
        None => true,
    }
}

/// The last status carries an icon.
pub open spec fn status_has_favicon(status: Option<ServerStatus>) -> bool {
    match status {
        Some(st) => st.favicon is Some,
        None => false,
    }
}

/// The last status is passed on as it is: the server is started and has answered.
pub open spec fn passes_status_on(state: State, status: Option<ServerStatus>) -> bool {
    state == State::Started && status is Some
}

/// The icon of the server directory is needed: the status is not passed on, the client shows
/// icons, and the server's own icon is not used.
pub open spec fn spec_needs_server_icon(
    info: ClientInfo,
    config: Config,
    state: State,
    status: Option<ServerStatus>,
) -> bool {
    &&& !passes_status_on(state, status)
    &&& client_supports_favicon(info)
    &&& !(config.motd.from_server && status_has_favicon(status))
}

/// Whether answering a status request needs the server directory's icon.
pub fn needs_server_icon(
    client_info: &ClientInfo,
    config: &Config,
    state: State,
    status: &Option<ServerStatus>,
) -> (res: bool)
    ensures
        res == spec_needs_server_icon(*client_info, *config, state, *status),
        state == State::Started && status is Some ==> !res,
        !client_supports_favicon(*client_info) ==> !res,
        client_supports_favicon(*client_info) && status is None ==> res,
        client_supports_favicon(*client_info) && state != State::Started && !config.motd.from_server
            ==> res,
{
    if state == State::Started && status.is_some() {
        return false;
    }
    if !supports_favicon(client_info) {
        return false;
    }
    match status {
        Some(st) => !(config.motd.from_server && st.favicon.is_some()),
        None => true,
    }
}

/// The status answered to a client while the proxy serves it: the server's own once it is
/// started; otherwise its version and player limit (or the configured version and none),
/// nobody online, its description if so configured (else the message of the day for the
/// state), and an icon (its own if so configured, else `server_icon`) for clients that show one.
pub fn server_status(
    client_info: &ClientInfo,
    config: &Config,
    state: State,
    status: &Option<ServerStatus>,
    server_icon: String,
) -> (res: ServerStatus)
    ensures
        passes_status_on(state, *status) ==> status_equal(res, status->Some_0),
        !passes_status_on(state, *status) ==> {
            &&& res.version == match *status {
                Some(st) => st.version,
                None => ServerVersion {
                    name: config.public.version,
                    protocol: config.public.protocol,
                },
            }
            &&& res.players.max == match *status {
                Some(st) => st.players.max,
                None => 0,
            }
            &&& res.players.online == 0
            &&& res.players.sample@.len() == 0
            &&& res.description == if config.motd.from_server && status is Some {
                status->Some_0.description
            } else {
                motd_for(*config, state)
            }
            &&& !(config.motd.from_server && status is Some) ==> {
                &&& state == State::Stopping ==> res.description == config.motd.stopping
                &&& state == State::Starting ==> res.description == config.motd.starting
                &&& state == State::Stopped ==> res.description == config.motd.sleeping
                &&& state == State::Started ==> res.description == config.motd.sleeping
            }
            &&& res.favicon == if !client_supports_favicon(*client_info) {
                None
            } else if config.motd.from_server && status_has_favicon(*status) {
                status->Some_0.favicon
            } else {
                Some(server_icon)
            }
        },
{
    if state == State::Started && status.is_some() {
        match status {
            Some(st) => {
                return st.duplicate();
            },
            None => {},
        }
    }
    let (version, max) = match status {
        Some(st) => (st.version.duplicate(), st.players.max),
        None => (
            ServerVersion { name: config.public.version.clone(), protocol: config.public.protocol },
            0,
        ),
    };
    let description = match status {
        Some(st) => {
            if config.motd.from_server {
                st.description.clone()
            } else {
                motd_text(config, state)
            }
        },
        None => motd_text(config, state),
    };
    let mut favicon: Option<String> = None;
    if supports_favicon(client_info) {
        match status {
            Some(st) => {
                if config.motd.from_server {
                    favicon = match &st.favicon {
                        Some(f) => Some(f.clone()),
                        None => None,
                    };
                }
            },
            None => {},
        }
        if favicon.is_none() {
            favicon = Some(server_icon);
        }
    }
    ServerStatus {
        version,
        description,
        players: OnlinePlayers { online: 0, max, sample: Vec::new() },
        favicon,
    }
}

fn motd_text(config: &Config, state: State) -> (res: String)
    ensures
        res == motd_for(*config, state),
        state == State::Stopping ==> res == config.motd.stopping,
        state == State::Starting ==> res == config.motd.starting,
        state == State::Stopped || state == State::Started ==> res == config.motd.sleeping,
{
    match state {
        State::Stopped | State::Started => config.motd.sleeping.clone(),
        State::Starting => config.motd.starting.clone(),
        State::Stopping => config.motd.stopping.clone(),
    }
}

/// What to do with a player that starts logging in while the proxy serves it.
#[derive(Debug)]
pub enum LoginAction {
    /// Disconnect it with this message.
    Kick(String),
    /// Start the server and occupy the player until it is up.
    Start,
}

/// The ban on `ip` that holds at Unix time `now`, if any.
pub open spec fn holding_ban_reason(server: Server, ip: IpAddress, now: i64) -> Option<
    Option<String>,
> {
    match server.banned_ips.entry(ip) {
        Some(ban) => if spec_banned_at(ban, now) {
            Some(ban.reason)
        } else {
            None
        },
        None => None,
    }
}

/// The message for a banned player: the reason given, or the default one.
pub open spec fn ban_message(reason: Option<String>) -> Seq<char> {
    ban_message_prefix() + match reason {
        Some(r) => r@,
        None => default_ban_reason(),
    }
}

/// The decision on a logging-in player from `ip` named `username` (if its name could be
/// read), at Unix time `now`: with the lockout on, it is kicked with the lockout message; a
/// banned address is kicked with the ban message; a named player not on the whitelist is
/// kicked with the whitelist message; anyone else starts the server.
pub fn login_action(
    config: &Config,
    server: &Server,
    ip: &IpAddress,
    username: &Option<String>,
    now: i64,
) -> (res: LoginAction)
    ensures
        config.lockout.enabled ==> res == LoginAction::Kick(config.lockout.message),
        match holding_ban_reason(*server, *ip, now) {
            Some(reason) => !config.lockout.enabled ==> (res matches LoginAction::Kick(m) && m@
                == ban_message(reason)),
            None => true,
        },
        !config.lockout.enabled && holding_ban_reason(*server, *ip, now) is None && (
        username matches Some(u) && !(match server.whitelist {
            Some(w) => spec_whitelisted(w, u@),
            None => true,
        })) ==> (res matches LoginAction::Kick(m) && m@ == whitelist_message()),
        res is Start <==> (!config.lockout.enabled && holding_ban_reason(*server, *ip, now)
            is None && !(username matches Some(u) && !(match server.whitelist {
            Some(w) => spec_whitelisted(w, u@),
            None => true,
        }))),
{
    if config.lockout.enabled {
        return LoginAction::Kick(config.lockout.message.clone());
    }
    match server.ban_entry(ip) {
        Some(ban) => {
            if ban.is_banned_at(now) {
                let mut msg = chars_of("Your IP address is banned from this server.\nReason: ");
                let reason = match &ban.reason {
                    Some(r) => chars_of(r.as_str()),
                    None => chars_of("Banned by an operator."),
                };
                append_chars(&mut msg, reason.as_slice());
                return LoginAction::Kick(string_of(msg.as_slice()));
            }
        },
        None => {},
    }
    match username {
        Some(u) => {
            if !server.is_whitelisted(u.as_str()) {
                return LoginAction::Kick("You are not white-listed on this server!".to_owned());
            }
        },
        None => {},
    }
    LoginAction::Start
}

/// Where a new connection goes.
#[derive(Clone, Copy, Debug, PartialEq, Eq, Structural)]
pub enum Route {
    /// Drop it.
    Drop,
    /// Proxy it to the server.
    Proxy,
    /// Serve it from the proxy.
    Status,
}

/// Whether `ip` is banned at Unix time `now`.
pub open spec fn banned_at(server: Server, ip: IpAddress, now: i64) -> bool {
    holding_ban_reason(server, ip, now) is Some
}

/// Where a connection from `ip` goes at Unix time `now`: a banned one is dropped if so
/// configured; an unbanned one goes to a started server unless the lockout is on; all others
/// are served by the proxy.
pub open spec fn spec_route(config: Config, server: Server, ip: IpAddress, now: i64) -> Route {
    let banned = banned_at(server, ip, now);
    if banned && config.server.drop_banned_ips {
        Route::Drop
    } else if !banned && server.state == State::Started && !config.lockout.enabled {
        Route::Proxy
    } else {
        Route::Status
    }
}

/// With the lockout on, no connection is proxied to the server, and every login is turned
/// away with the lockout message (`login_action` states the latter).
pub proof fn lemma_lockout_never_proxies(config: Config, server: Server, ip: IpAddress, now: i64)
    requires
        config.lockout.enabled,
    ensures
        spec_route(config, server, ip, now) != Route::Proxy,
{
}

/// A connection from an address banned at that moment is never proxied to the server: it is
/// dropped where so configured, and served by the proxy otherwise.
pub proof fn lemma_banned_never_proxied(config: Config, server: Server, ip: IpAddress, now: i64)
    requires
        banned_at(server, ip, now),
    ensures
        spec_route(config, server, ip, now) == if config.server.drop_banned_ips {
            Route::Drop
        } else {
            Route::Status
        },
{
}

/// A connection is relayed to the server only when the server is up: it is proxied exactly
/// when the server is started, the address is not banned and the lockout is off. While the
/// server is stopped, starting or stopping, the proxy serves the client itself (or drops a
/// banned one where so configured).
pub proof fn lemma_proxy_only_when_started(
    config: Config,
    server: Server,
    ip: IpAddress,
    now: i64,
)
    ensures
        spec_route(config, server, ip, now) == Route::Proxy <==> (server.state == State::Started
            && !banned_at(server, ip, now) && !config.lockout.enabled),
        server.state != State::Started ==> spec_route(config, server, ip, now) == if banned_at(
            server,
            ip,
            now,
        ) && config.server.drop_banned_ips {
            Route::Drop
        } else {
            Route::Status
        },
{
}

/// Where a connection from `ip` goes at Unix time `now`.
pub fn route(config: &Config, server: &Server, ip: &IpAddress, now: i64) -> (res: Route)
    ensures
        res == spec_route(*config, *server, *ip, now),
        res == Route::Proxy <==> (server.state == State::Started && !banned_at(*server, *ip, now)
            && !config.lockout.enabled),
        res == Route::Drop <==> (banned_at(*server, *ip, now) && config.server.drop_banned_ips),
{
    let banned = match server.ban_entry(ip) {
        Some(ban) => ban.is_banned_at(now),
        None => false,
    };
    if banned && config.server.drop_banned_ips {
        Route::Drop
    } else if !banned && server.state == State::Started && !config.lockout.enabled {
        Route::Proxy
    } else {
        Route::Status
    }
}


/// What the proxy does with a packet from a client that it serves itself.
#[derive(Debug)]
pub enum ServeAction {
    /// The handshake moved the client into this state. When it is the login state, the
    /// handshake is kept to be replayed to the server.
    Handshaked(ClientState),
    /// Close the connection: the handshake could not be read, or asked for an unknown state.
    Disconnect,
    /// Answer with the server status.
    Status,
    /// Send the ping back as it came.
    Pong,
    /// A player starts logging in, with its name where it could be read.
    Login(Option<String>),
    /// A packet that the proxy does not handle.
    Ignore,
}

/// The client and what is known of it are left as they were.
pub open spec fn serve_unchanged(c0: Client, c1: Client, i0: ClientInfo, i1: ClientInfo) -> bool {
    c1 == c0 && i1 == i0
}

/// Handles one packet from a client that the proxy serves: a handshake moves the client to
/// the state it asks for and records its protocol version and fields; in the status state a
/// status request is answered and a ping sent back; in the login state the start of a login
/// records the player's name. Anything else is ignored.
pub fn serve_packet(client: &mut Client, info: &mut ClientInfo, packet: &RawPacket) -> (res:
    ServeAction)
    ensures
        old(client).state == ClientState::Handshake && packet.id == HANDSHAKE_ID ==> match
            spec_handshake_fields(packet.data@) {
            None => res is Disconnect && serve_unchanged(
                *old(client),
                *final(client),
                *old(info),
                *final(info),
            ),
            Some((protocol, address, port, next)) => match state_from_id(next) {
                None => res is Disconnect && serve_unchanged(
                    *old(client),
                    *final(client),
                    *old(info),
                    *final(info),
                ),
                Some(st) => {
                    &&& res matches ServeAction::Handshaked(s) && s == st
                    &&& final(client).state == st
                    &&& final(client).peer == old(client).peer
                    &&& final(client).compression == old(client).compression
                    &&& final(info).protocol == Some(i32_bits(protocol) as u32)
                    &&& final(info).handshake matches Some(h) && h.protocol_version == protocol
                        && h.server_addr@ == address && h.server_port == port && h.next_state
                        == next
                    &&& final(info).username == old(info).username
                },
            },
        },
        old(client).state == ClientState::Status && packet.id == STATUS_ID ==> res is Status
            && serve_unchanged(*old(client), *final(client), *old(info), *final(info)),
        old(client).state == ClientState::Status && packet.id == PING_ID ==> res is Pong
            && serve_unchanged(*old(client), *final(client), *old(info), *final(info)),
        old(client).state == ClientState::Login && packet.id == LOGIN_START_ID ==> {
            &&& *final(client) == *old(client)
            &&& final(info).protocol == old(info).protocol
            &&& final(info).handshake == old(info).handshake
            &&& match spec_login_name(packet.data@) {
                Some(name) => {
                    &&& res matches ServeAction::Login(Some(u)) && u@ == name
                    &&& final(info).username matches Some(v) && v@ == name
                },
                None => res matches ServeAction::Login(None) && final(info).username is None,
            }
        },
        !(old(client).state == ClientState::Handshake && packet.id == HANDSHAKE_ID)
            && !(old(client).state == ClientState::Status && (packet.id == STATUS_ID
            || packet.id == PING_ID)) && !(old(client).state == ClientState::Login
            && packet.id == LOGIN_START_ID) ==> res is Ignore && serve_unchanged(
            *old(client),
            *final(client),
            *old(info),
            *final(info),
        ),
{
    let state = client.state();
    if state == ClientState::Handshake && packet.id == HANDSHAKE_ID {
        let handshake = match decode_handshake(packet.data.as_slice()) {
            Some(h) => h,
            None => {
                return ServeAction::Disconnect;
            },
        };
        let new_state = match ClientState::from_id(handshake.next_state) {
            Some(st) => st,
            None => {
                return ServeAction::Disconnect;
            },
        };
        info.protocol = Some(i32_as_u32(handshake.protocol_version));
        info.handshake = Some(handshake);
        client.set_state(new_state);
        return ServeAction::Handshaked(new_state);
    }
    if state == ClientState::Status && packet.id == STATUS_ID {
        return ServeAction::Status;
    }
    if state == ClientState::Status && packet.id == PING_ID {
        return ServeAction::Pong;
    }
    if state == ClientState::Login && packet.id == LOGIN_START_ID {
        let username = decode_login_name(packet.data.as_slice());
        let reply = match &username {
            Some(u) => Some(u.clone()),
            None => None,
        };
        info.username = username;
        return ServeAction::Login(reply);
    }
    ServeAction::Ignore
}

} // verus!
