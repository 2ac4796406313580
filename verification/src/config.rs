//! The proxy's configuration: defaults, the values taken from the environment, and the
//! command line that starts the Minecraft server.
use vstd::prelude::*;

use crate::net::{IpAddress, SocketAddress};
use crate::proto;
use crate::shell::{quote_or_keep, quote_word};
use crate::text::{
    append_chars, chars_eq, chars_of, join, join_seq, parse_unsigned, parse_unsigned_max,
    string_of, trim, trim_seq, views,
};

verus! {

pub const PUBLIC_PORT_DEFAULT: u16 = 25565;

pub const INTERNAL_PORT_PRIMARY: u16 = 25566;

pub const INTERNAL_PORT_FALLBACK: u16 = 25567;

pub const SLEEP_AFTER: u32 = 60;

pub const MIN_ONLINE_TIME: u32 = 60;

pub const START_TIMEOUT: u32 = 120;

pub const STOP_TIMEOUT: u32 = 60;

pub const HOLD_TIMEOUT: u32 = 25;

pub const LOBBY_TIMEOUT: u32 = 600;

pub const RCON_PORT_DEFAULT: u16 = 25575;

/// The proxy's whole configuration.
#[derive(Debug)]
pub struct Config {
    pub public: Public,
    pub server: Server,
    pub time: Time,
    pub motd: Motd,
    pub join: Join,
    pub lockout: Lockout,
    pub rcon: Rcon,
    pub advanced: Advanced,
}

/// The values read from the environment, as they were found (`None` where a variable is
/// unset or not Unicode).
#[derive(Debug)]
pub struct RuntimeEnv {
    pub server_port: Option<String>,
    pub mc_version: Option<String>,
    pub protocol_number: Option<String>,
    pub server_jarfile: Option<String>,
}

/// An environment value with surrounding whitespace removed; an empty one counts as unset.
pub open spec fn spec_env_value(raw: Option<Seq<char>>) -> Option<Seq<char>> {
    match raw {
        Some(v) => if trim_seq(v).len() > 0 {
            Some(trim_seq(v))
        } else {
            None
        },
        None => None,
    }
}

pub open spec fn opt_view(raw: Option<String>) -> Option<Seq<char>> {
    match raw {
        Some(s) => Some(s@),
        None => None,
    }
}

/// An environment value parsed as an unsigned number no greater than `max`.
pub open spec fn spec_env_number(raw: Option<Seq<char>>, max: nat) -> Option<nat> {
    match spec_env_value(raw) {
        Some(v) => parse_unsigned(v, max),
        None => None,
    }
}

/// An environment value, trimmed; empty counts as unset.
pub fn env_string(raw: &Option<String>) -> (res: Option<String>)
    ensures
        opt_view(res) == spec_env_value(opt_view(*raw)),
{
    match raw {
        Some(v) => {
            let chars = chars_of(v.as_str());
            let t = trim(chars.as_slice());
            if t.len() > 0 {
                Some(string_of(t.as_slice()))
            } else {
                None
            }
        },
        None => None,
    }
}

/// An environment value parsed as a port number.
pub fn env_u16(raw: &Option<String>) -> (res: Option<u16>)
    ensures
        match spec_env_number(opt_view(*raw), 0xffff) {
            Some(v) => res == Some(v as u16),
            None => res is None,
        },
{
    match env_string(raw) {
        Some(v) => {
            let chars = chars_of(v.as_str());
            match parse_unsigned_max(chars.as_slice(), 0xffff) {
                Some(n) => Some(n as u16),
                None => None,
            }
        },
        None => None,
    }
}

/// An environment value parsed as an unsigned 32-bit number.
pub fn env_u32(raw: &Option<String>) -> (res: Option<u32>)
    ensures
        match spec_env_number(opt_view(*raw), 0xffff_ffff) {
            Some(v) => res == Some(v as u32),
            None => res is None,
        },
{
    match env_string(raw) {
        Some(v) => {
            let chars = chars_of(v.as_str());
            parse_unsigned_max(chars.as_slice(), 0xffff_ffff)
        },
        None => None,
    }
}

/// The jar file to run: `SERVER_JARFILE` if set, else `server.jar`.
pub open spec fn spec_jar_file(raw: Option<Seq<char>>) -> Seq<char> {
    match spec_env_value(raw) {
        Some(v) => v,
        None => "server.jar"@,
    }
}

/// The jar file to run, from the value of `SERVER_JARFILE`.
pub fn jar_file(raw: &Option<String>) -> (res: String)
    ensures
        res@ == spec_jar_file(opt_view(*raw)),
{
    match env_string(raw) {
        Some(v) => v,
        None => "server.jar".to_owned(),
    }
}

/// The Java arguments used when none are given.
pub open spec fn default_java_args() -> Seq<Seq<char>> {
    seq![
        "-Xms128M"@,
        "-XX:MaxRAMPercentage=95.0"@,
        "-Dterminal.jline=false"@,
        "-Dterminal.ansi=true"@,
        "-jar"@,
    ]
}

/// The arguments trimmed, without the empty ones.
pub open spec fn nonempty_trimmed(args: Seq<Seq<char>>) -> Seq<Seq<char>>
    decreases args.len(),
{
    if args.len() == 0 {
        Seq::empty()
    } else {
        let rest = nonempty_trimmed(args.drop_last());
        let t = trim_seq(args.last());
        if t.len() > 0 {
            rest.push(t)
        } else {
            rest
        }
    }
}

/// The words of the command that starts the server: `java`, then the given arguments
/// (trimmed, empty ones left out, the defaults if none remain), with `-jar` added if missing,
/// the jar file added after a trailing `-jar`, and `--nogui` added if missing.
pub open spec fn java_command_words(args: Seq<Seq<char>>, jar: Seq<char>) -> Seq<Seq<char>> {
    let a1 = nonempty_trimmed(args);
    let a2 = if a1.len() == 0 {
        default_java_args()
    } else {
        a1
    };
    let a3 = if a2.contains("-jar"@) {
        a2
    } else {
        a2.push("-jar"@)
    };
    let a4 = if a3.last() == "-jar"@ {
        a3.push(jar)
    } else {
        a3
    };
    let a5 = if a4.contains("--nogui"@) {
        a4
    } else {
        a4.push("--nogui"@)
    };
    seq!["java"@] + a5
}

/// The command line: the words, each shell-quoted, joined by single spaces.
pub open spec fn spec_build_command(args: Seq<Seq<char>>, jar: Seq<char>) -> Seq<char> {
    join_seq(java_command_words(args, jar).map_values(|w: Seq<char>| quote_or_keep(w)), seq![' '])
}

pub open spec fn string_views(v: Seq<String>) -> Seq<Seq<char>> {
    v.map_values(|s: String| s@)
}

fn chars_vec(s: &str) -> (res: Vec<char>)
    ensures
        res@ == s@,
{
    chars_of(s)
}

fn default_java_arg_words() -> (res: Vec<Vec<char>>)
    ensures
        views(res@) == default_java_args(),
{
    let mut v: Vec<Vec<char>> = Vec::new();
    v.push(chars_vec("-Xms128M"));
    v.push(chars_vec("-XX:MaxRAMPercentage=95.0"));
    v.push(chars_vec("-Dterminal.jline=false"));
    v.push(chars_vec("-Dterminal.ansi=true"));
    v.push(chars_vec("-jar"));
    proof {
        assert(views(v@) =~= default_java_args());
    }
    v
}

fn contains_word(words: &Vec<Vec<char>>, w: &[char]) -> (res: bool)
    ensures
        res == views(words@).contains(w@),
{
    let mut i: usize = 0;
    while i < words.len()
        invariant
            i <= words.len(),
            forall|j: int| 0 <= j < i ==> views(words@)[j] != w@,
        decreases words.len() - i,
    {
        if chars_eq(words[i].as_slice(), w) {
            proof {
                assert(views(words@)[i as int] == w@);
            }
            return true;
        }
        i = i + 1;
    }
    false
}

fn push_word(words: &mut Vec<Vec<char>>, w: Vec<char>)
    ensures
        views(final(words)@) == views(old(words)@).push(w@),
        final(words)@.len() == old(words)@.len() + 1,
{
    words.push(w);
    proof {
        assert(views(words@) =~= views(old(words)@).push(w@));
    }
}

/// The words of the command that starts the server, as plain values.
fn java_command(java_args: &[String], jar: &str) -> (res: Vec<Vec<char>>)
    ensures
        views(res@) == java_command_words(string_views(java_args@), jar@),
{
    let ghost args = string_views(java_args@);
    let mut kept: Vec<Vec<char>> = Vec::new();
    let mut i: usize = 0;
    while i < java_args.len()
        invariant
            i <= java_args.len(),
            args == string_views(java_args@),
            views(kept@) == nonempty_trimmed(args.take(i as int)),
        decreases java_args.len() - i,
    {
        proof {
            assert(args.take(i as int + 1).drop_last() =~= args.take(i as int));
            assert(args.take(i as int + 1).last() == java_args@[i as int]@);
        }
        let t = trim(chars_of(java_args[i].as_str()).as_slice());
        if t.len() > 0 {
            push_word(&mut kept, t);
        }
        i = i + 1;
    }
    proof {
        assert(args.take(i as int) =~= args);
    }
    let mut words = if kept.len() == 0 {
        default_java_arg_words()
    } else {
        kept
    };
    assert(views(words@).len() == words@.len());
    assert(words.len() > 0);
    let jar_flag = chars_vec("-jar");
    if !contains_word(&words, jar_flag.as_slice()) {
        push_word(&mut words, chars_vec("-jar"));
    }
    let last = words.len() - 1;
    if chars_eq(words[last].as_slice(), jar_flag.as_slice()) {
        push_word(&mut words, chars_vec(jar));
    }
    let nogui = chars_vec("--nogui");
    if !contains_word(&words, nogui.as_slice()) {
        push_word(&mut words, chars_vec("--nogui"));
    }
    let mut all: Vec<Vec<char>> = Vec::new();
    all.push(chars_vec("java"));
    let mut k: usize = 0;
    while k < words.len()
        invariant
            k <= words.len(),
            views(all@) == seq!["java"@] + views(words@).take(k as int),
        decreases words.len() - k,
    {
        proof {
            assert(views(words@).take(k as int + 1) =~= views(words@).take(k as int).push(
                words@[k as int]@,
            ));
        }
        let w = words[k].clone();
        push_word(&mut all, w);
        k = k + 1;
    }
    proof {
        assert(views(words@).take(k as int) =~= views(words@));
    }
    all
}

/// The command line that starts the server with the given Java arguments and jar file.
pub fn build_command(java_args: &[String], jar: &str) -> (res: String)
    ensures
        res@ == spec_build_command(string_views(java_args@), jar@),
{
    let words = java_command(java_args, jar);
    let ghost ws = views(words@);
    let mut quoted: Vec<Vec<char>> = Vec::new();
    let mut i: usize = 0;
    while i < words.len()
        invariant
            i <= words.len(),
            ws == views(words@),
            views(quoted@) == ws.take(i as int).map_values(|w: Seq<char>| quote_or_keep(w)),
        decreases words.len() - i,
    {
        let q = quote_word(words[i].as_slice());
        proof {
            assert(ws.take(i as int + 1).map_values(|w: Seq<char>| quote_or_keep(w)) =~= ws.take(
                i as int,
            ).map_values(|w: Seq<char>| quote_or_keep(w)).push(q@));
        }
        push_word(&mut quoted, q);
        i = i + 1;
    }
    proof {
        assert(ws.take(i as int) =~= ws);
    }
    let mut sep: Vec<char> = Vec::new();
    sep.push(' ');
    let line = join(&quoted, sep.as_slice());
    proof {
        assert(sep@ =~= seq![' ']);
    }
    string_of(line.as_slice())
}

/// Where players connect to, and the version that is reported to them.
#[derive(Debug)]
pub struct Public {
    pub address: SocketAddress,
    pub version: String,
    pub protocol: u32,
}

/// How the Minecraft server is started, reached and treated.
#[derive(Debug)]
pub struct Server {
    pub directory: Option<String>,
    pub command: String,
    pub address: SocketAddress,
    pub freeze_process: bool,
    pub wake_on_start: bool,
    pub wake_on_crash: bool,
    pub probe_on_start: bool,
    pub forge: bool,
    pub start_timeout: u32,
    pub stop_timeout: u32,
    pub wake_whitelist: bool,
    pub block_banned_ips: bool,
    pub drop_banned_ips: bool,
    pub send_proxy_v2: bool,
}

/// The local address `127.0.0.1:port`.
pub open spec fn localhost(port: u16) -> SocketAddress {
    SocketAddress { ip: IpAddress::V4(0x7f00_0001), port }
}

/// The unspecified address `0.0.0.0:port`.
pub open spec fn any_address(port: u16) -> SocketAddress {
    SocketAddress { ip: IpAddress::V4(0), port }
}

impl Server {
    /// The default server settings, for the given jar file: run in the current directory,
    /// started with the default Java arguments, reached on `127.0.0.1:25566`.
    pub fn default_for(jar: &str) -> (res: Server)
        ensures
            opt_view(res.directory) == Some("."@),
            res.command@ == spec_build_command(Seq::empty(), jar@),
            res.address == localhost(INTERNAL_PORT_PRIMARY),
            !res.freeze_process,
            !res.wake_on_start,
            !res.wake_on_crash,
            !res.probe_on_start,
            !res.forge,
            res.start_timeout == START_TIMEOUT,
            res.stop_timeout == STOP_TIMEOUT,
            res.wake_whitelist,
            res.block_banned_ips,
            !res.drop_banned_ips,
            !res.send_proxy_v2,
    {
        let no_args: Vec<String> = Vec::new();
        proof {
            assert(string_views(no_args@) =~= Seq::<Seq<char>>::empty());
        }
        Server {
            directory: Some(".".to_owned()),
            command: build_command(no_args.as_slice(), jar),
            address: SocketAddress { ip: IpAddress::V4(0x7f00_0001), port: INTERNAL_PORT_PRIMARY },
            freeze_process: false,
            wake_on_start: false,
            wake_on_crash: false,
            probe_on_start: false,
            forge: false,
            start_timeout: START_TIMEOUT,
            stop_timeout: STOP_TIMEOUT,
            wake_whitelist: true,
            block_banned_ips: true,
            drop_banned_ips: false,
            send_proxy_v2: false,
        }
    }

    /// The directory the server runs in, if set.
    pub fn server_directory(config: &Config) -> (res: Option<String>)
        ensures
            opt_view(res) == opt_view(config.server.directory),
    {
        match &config.server.directory {
            Some(d) => Some(d.clone()),
            None => None,
        }
    }
}

/// When the server goes to sleep.
#[derive(Debug)]
pub struct Time {
    pub sleep_after: u32,
    pub min_online_time: u32,
}

impl Default for Time {
    fn default() -> (res: Time)
        ensures
            res.sleep_after == SLEEP_AFTER,
            res.min_online_time == MIN_ONLINE_TIME,
    {
        Time { sleep_after: SLEEP_AFTER, min_online_time: MIN_ONLINE_TIME }
    }
}

/// The messages of the day shown while the server is not up.
#[derive(Debug)]
pub struct Motd {
    pub sleeping: String,
    pub starting: String,
    pub stopping: String,
    pub from_server: bool,
}

impl Default for Motd {
    fn default() -> (res: Motd)
        ensures
            res.sleeping@
                == "§bPlexScale§f - Server is sleeping, join to wake it up\n§fThis server is powered by PlexScale.com - discord.gg/plexscale"@,
            res.starting@
                == "§bPlexScale§f - Server is starting, please wait...\n§fThis server is powered by PlexScale.com - discord.gg/plexscale"@,
            res.stopping@
                == "§bPlexScale§f - Server is going to sleep...\n§fThis server is powered by PlexScale.com - discord.gg/plexscale"@,
            !res.from_server,
    {
        Motd {
            sleeping: "§bPlexScale§f - Server is sleeping, join to wake it up\n§fThis server is powered by PlexScale.com - discord.gg/plexscale".to_owned(),
            starting: "§bPlexScale§f - Server is starting, please wait...\n§fThis server is powered by PlexScale.com - discord.gg/plexscale".to_owned(),
            stopping: "§bPlexScale§f - Server is going to sleep...\n§fThis server is powered by PlexScale.com - discord.gg/plexscale".to_owned(),
            from_server: false,
        }
    }
}

/// A way of occupying a client that joins while the server is not up.
#[derive(Clone, Copy, Debug, PartialEq, Eq, Structural)]
pub enum Method {
    Kick,
    Hold,
    Forward,
    Lobby,
}

/// The methods used on joining clients, in order, with their settings.
#[derive(Debug)]
pub struct Join {
    pub methods: Vec<Method>,
    pub kick: JoinKick,
    pub hold: JoinHold,
    pub forward: JoinForward,
    pub lobby: JoinLobby,
}

impl Default for Join {
    fn default() -> (res: Join)
        ensures
            res.methods@ == seq![Method::Hold, Method::Kick],
            res.kick.starting@
                == "§bPlexScale§f\n\nThe server is starting up.\n\nPlease reconnect in a moment."@,
            res.kick.stopping@
                == "§bPlexScale§f\n\nThe server is going to sleep.\n\nReconnect to wake it up again."@,
            res.hold.timeout == HOLD_TIMEOUT,
            res.forward.address == localhost(PUBLIC_PORT_DEFAULT),
            !res.forward.send_proxy_v2,
            res.lobby.timeout == LOBBY_TIMEOUT,
            res.lobby.message@ == "§bPlexScale§f\n§fServer is starting, please wait..."@,
            res.lobby.ready_sound matches Some(s) && s@ == "block.note_block.chime"@,
    {
        let mut methods: Vec<Method> = Vec::new();
        methods.push(Method::Hold);
        methods.push(Method::Kick);
        proof {
            assert(methods@ =~= seq![Method::Hold, Method::Kick]);
        }
        Join {
            methods,
            kick: JoinKick::default(),
            hold: JoinHold::default(),
            forward: JoinForward::default(),
            lobby: JoinLobby::default(),
        }
    }
}

/// Kicking a joining client with a message.
#[derive(Debug)]
pub struct JoinKick {
    pub starting: String,
    pub stopping: String,
}

impl Default for JoinKick {
    fn default() -> (res: JoinKick)
        ensures
            res.starting@
                == "§bPlexScale§f\n\nThe server is starting up.\n\nPlease reconnect in a moment."@,
            res.stopping@
                == "§bPlexScale§f\n\nThe server is going to sleep.\n\nReconnect to wake it up again."@,
    {
        JoinKick {
            starting: "§bPlexScale§f\n\nThe server is starting up.\n\nPlease reconnect in a moment.".to_owned(),
            stopping: "§bPlexScale§f\n\nThe server is going to sleep.\n\nReconnect to wake it up again.".to_owned(),
        }
    }
}

/// Holding a joining client until the server is up.
#[derive(Debug)]
pub struct JoinHold {
    pub timeout: u32,
}

impl Default for JoinHold {
    fn default() -> (res: JoinHold)
        ensures
            res.timeout == HOLD_TIMEOUT,
    {
        JoinHold { timeout: HOLD_TIMEOUT }
    }
}

/// Forwarding a joining client to another address.
#[derive(Debug)]
pub struct JoinForward {
    pub address: SocketAddress,
    pub send_proxy_v2: bool,
}

impl Default for JoinForward {
    fn default() -> (res: JoinForward)
        ensures
            res.address == localhost(PUBLIC_PORT_DEFAULT),
            !res.send_proxy_v2,
    {
        JoinForward {
            address: SocketAddress { ip: IpAddress::V4(0x7f00_0001), port: PUBLIC_PORT_DEFAULT },
            send_proxy_v2: false,
        }
    }
}

/// Keeping a joining client in a lobby world until the server is up.
#[derive(Debug)]
pub struct JoinLobby {
    pub timeout: u32,
    pub message: String,
    pub ready_sound: Option<String>,
}

impl Default for JoinLobby {
    fn default() -> (res: JoinLobby)
        ensures
            res.timeout == LOBBY_TIMEOUT,
            res.message@ == "§bPlexScale§f\n§fServer is starting, please wait..."@,
            res.ready_sound matches Some(s) && s@ == "block.note_block.chime"@,
    {
        JoinLobby {
            timeout: LOBBY_TIMEOUT,
            message: "§bPlexScale§f\n§fServer is starting, please wait...".to_owned(),
            ready_sound: Some("block.note_block.chime".to_owned()),
        }
    }
}

/// Closing the server to everyone.
#[derive(Debug)]
pub struct Lockout {
    pub enabled: bool,
    pub message: String,
}

impl Default for Lockout {
    fn default() -> (res: Lockout)
        ensures
            !res.enabled,
            res.message@ == "§bPlexScale§f\n\nThis server is currently closed."@,
    {
        Lockout {
            enabled: false,
            message: "§bPlexScale§f\n\nThis server is currently closed.".to_owned(),
        }
    }
}

/// Stopping the server through RCON.
#[derive(Debug)]
pub struct Rcon {
    pub enabled: bool,
    pub port: u16,
    pub password: String,
    pub randomize_password: bool,
    pub send_proxy_v2: bool,
}

impl Default for Rcon {
    fn default() -> (res: Rcon)
        ensures
            !res.enabled,
            res.port == RCON_PORT_DEFAULT,
            res.password@.len() == 0,
            res.randomize_password,
            !res.send_proxy_v2,
    {
        Rcon {
            enabled: false,
            port: RCON_PORT_DEFAULT,
            password: String::new(),
            randomize_password: true,
            send_proxy_v2: false,
        }
    }
}

/// Settings few need to change.
#[derive(Debug)]
pub struct Advanced {
    pub rewrite_server_properties: bool,
}

impl Default for Advanced {
    fn default() -> (res: Advanced)
        ensures
            res.rewrite_server_properties,
    {
        Advanced { rewrite_server_properties: true }
    }
}

/// The public port: `SERVER_PORT` if it holds one, else 25565.
pub open spec fn spec_public_port(env: RuntimeEnv) -> u16 {
    match spec_env_number(opt_view(env.server_port), 0xffff) {
        Some(p) => p as u16,
        None => PUBLIC_PORT_DEFAULT,
    }
}

/// The port the server listens on internally: 25566, or 25567 if the public port is 25566.
pub open spec fn spec_internal_port(public_port: u16) -> u16 {
    if public_port == INTERNAL_PORT_PRIMARY {
        INTERNAL_PORT_FALLBACK
    } else {
        INTERNAL_PORT_PRIMARY
    }
}

impl Config {
    /// The configuration for a run with the given Java arguments and environment.
    pub fn runtime(java_args: &[String], env: &RuntimeEnv) -> (res: Config)
        ensures
            res.public.address == any_address(spec_public_port(*env)),
            res.public.version@ == (match spec_env_value(opt_view(env.mc_version)) {
                Some(v) => v,
                None => "1.21.4"@,
            }),
            res.public.protocol == (match spec_env_number(opt_view(env.protocol_number), 0xffff_ffff) {
                Some(p) => p as u32,
                None => proto::PROTO_DEFAULT_PROTOCOL,
            }),
            opt_view(res.server.directory) == Some("."@),
            res.server.command@ == spec_build_command(
                string_views(java_args@),
                spec_jar_file(opt_view(env.server_jarfile)),
            ),
            res.server.address == localhost(spec_internal_port(spec_public_port(*env))),
            !res.server.freeze_process,
            !res.server.wake_on_start,
            !res.server.wake_on_crash,
            !res.server.probe_on_start,
            !res.server.forge,
            res.server.start_timeout == START_TIMEOUT,
            res.server.stop_timeout == STOP_TIMEOUT,
            res.server.wake_whitelist,
            res.server.block_banned_ips,
            !res.server.drop_banned_ips,
            !res.server.send_proxy_v2,
            res.time.sleep_after == SLEEP_AFTER,
            res.time.min_online_time == MIN_ONLINE_TIME,
            res.join.methods@ == seq![Method::Hold, Method::Kick],
            !res.lockout.enabled,
            !res.rcon.enabled,
            res.rcon.randomize_password,
            res.advanced.rewrite_server_properties,
    {
        let public_port = match env_u16(&env.server_port) {
            Some(p) => p,
            None => PUBLIC_PORT_DEFAULT,
        };
        let internal_port = if public_port == INTERNAL_PORT_PRIMARY {
            INTERNAL_PORT_FALLBACK
        } else {
            INTERNAL_PORT_PRIMARY
        };
        let version = match env_string(&env.mc_version) {
            Some(v) => v,
            None => proto::proto_default_version().to_owned(),
        };
        let protocol = match env_u32(&env.protocol_number) {
            Some(p) => p,
            None => proto::PROTO_DEFAULT_PROTOCOL,
        };
        let jar = jar_file(&env.server_jarfile);
        let mut server = Server::default_for(jar.as_str());
        server.directory = Some(".".to_owned());
        server.command = build_command(java_args, jar.as_str());
        server.address = SocketAddress { ip: IpAddress::V4(0x7f00_0001), port: internal_port };
        Config {
            public: Public {
                address: SocketAddress { ip: IpAddress::V4(0), port: public_port },
                version,
                protocol,
            },
            server,
            time: Time::default(),
            motd: Motd::default(),
            join: Join::default(),
            lockout: Lockout::default(),
            rcon: Rcon::default(),
            advanced: Advanced::default(),
        }
    }
}

} // verus!
