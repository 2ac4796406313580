//! Preparing a run: the RCON password and the changes made to `server.properties`.
use vstd::prelude::*;

use crate::config::{Config, opt_view};
use crate::mc::server_properties::{Change, string_pair_views};
use crate::net::IpAddress;
use crate::proto;
use crate::server::uses_lobby;
use crate::text::{append_chars, chars_of, decimal, decimal_chars, decimal_string, string_of};

verus! {

/// Length of a generated RCON password.
pub const RCON_PASSWORD_LENGTH: usize = 32;

pub open spec fn is_ascii_alphanumeric(b: u8) -> bool {
    (48 <= b <= 57) || (65 <= b <= 90) || (97 <= b <= 122)
}

/// A random byte from `rand`'s `Alphanumeric` distribution, drawn from a `StdRng` seeded
/// through `StdRng::from_rng(OsRng)`. Claimed, as rand documents it: `None` when the operating
/// system's random source fails to give a seed, else an ASCII letter or digit. Which one is
/// left unsaid.
#[verifier::external_body]
fn random_alphanumeric() -> (res: Option<u8>)
    ensures
        res matches Some(b) ==> is_ascii_alphanumeric(b),
{
    match <rand::rngs::StdRng as rand::SeedableRng>::from_rng(rand::rngs::OsRng) {
        Ok(mut rng) => Some(rand::Rng::sample(&mut rng, rand::distributions::Alphanumeric)),
        Err(_) => None,
    }
}

/// Bytes read as characters, each as the character with that code.
pub open spec fn byte_chars(bytes: Seq<u8>) -> Seq<char> {
    bytes.map_values(|b: u8| b as char)
}

/// The password made of drawn bytes: each byte as the character with that code.
pub fn password_from_draws(draws: &[u8]) -> (res: String)
    ensures
        res@ == byte_chars(draws@),
{
    let mut chars: Vec<char> = Vec::new();
    let mut i: usize = 0;
    while i < draws.len()
        invariant
            i <= draws.len(),
            chars@ == byte_chars(draws@.take(i as int)),
        decreases draws.len() - i,
    {
        proof {
            assert(byte_chars(draws@.take(i as int + 1)) =~= chars@.push(draws@[i as int] as char));
        }
        chars.push(draws[i] as char);
        i = i + 1;
    }
    proof {
        assert(draws@.take(i as int) =~= draws@);
    }
    string_of(chars.as_slice())
}

/// A random password of 32 ASCII letters and digits, drawn one by one from the random
/// source; `None` when the source fails.
pub fn generate_random_password() -> (res: Option<String>)
    ensures
        res matches Some(p) ==> exists|draws: Seq<u8>|
            #![trigger byte_chars(draws)]
            draws.len() == RCON_PASSWORD_LENGTH && (forall|i: int|
                0 <= i < draws.len() ==> is_ascii_alphanumeric(#[trigger] draws[i])) && p@
                == byte_chars(draws),
        res matches Some(p) ==> p@.len() == RCON_PASSWORD_LENGTH,
        res matches Some(p) ==> forall|i: int|
            0 <= i < p@.len() ==> is_ascii_alphanumeric(#[trigger] p@[i] as u8),
{
    let mut draws: Vec<u8> = Vec::new();
    let mut i: usize = 0;
    while i < RCON_PASSWORD_LENGTH
        invariant
            i <= RCON_PASSWORD_LENGTH,
            draws@.len() == i,
            forall|j: int| 0 <= j < i ==> is_ascii_alphanumeric(#[trigger] draws@[j]),
        decreases RCON_PASSWORD_LENGTH - i,
    {
        let b = match random_alphanumeric() {
            Some(b) => b,
            None => {
                return None;
            },
        };
        draws.push(b);
        i = i + 1;
    }
    let p = password_from_draws(draws.as_slice());
    proof {
        assert forall|j: int| 0 <= j < p@.len() implies is_ascii_alphanumeric(
            #[trigger] p@[j] as u8,
        ) by {
            assert(p@[j] == draws@[j] as char);
            assert(is_ascii_alphanumeric(draws@[j]));
            assert((draws@[j] as char) as u8 == draws@[j]);
        }
    }
    Some(p)
}

/// Sets a fresh random RCON password when RCON is on and its password is to be randomized;
/// changes nothing else. Tells whether that worked: `false` only when a password was needed
/// and the random source failed, and then nothing is changed.
pub fn prepare_rcon(config: &mut Config) -> (res: bool)
    ensures
        final(config).public == old(config).public,
        final(config).server == old(config).server,
        final(config).time == old(config).time,
        final(config).motd == old(config).motd,
        final(config).join == old(config).join,
        final(config).lockout == old(config).lockout,
        final(config).advanced == old(config).advanced,
        final(config).rcon.enabled == old(config).rcon.enabled,
        final(config).rcon.port == old(config).rcon.port,
        final(config).rcon.randomize_password == old(config).rcon.randomize_password,
        final(config).rcon.send_proxy_v2 == old(config).rcon.send_proxy_v2,
        !(old(config).rcon.enabled && old(config).rcon.randomize_password) ==> res,
        !res || !(old(config).rcon.enabled && old(config).rcon.randomize_password)
            ==> final(config).rcon.password == old(config).rcon.password,
        res && old(config).rcon.enabled && old(config).rcon.randomize_password
            ==> final(config).rcon.password@.len() == RCON_PASSWORD_LENGTH,
        res && old(config).rcon.enabled && old(config).rcon.randomize_password
            ==> forall|i: int| 0 <= i < RCON_PASSWORD_LENGTH
            ==> is_ascii_alphanumeric(#[trigger] final(config).rcon.password@[i] as u8),
{
    if !config.rcon.enabled {
        return true;
    }
    if config.rcon.randomize_password {
        match generate_random_password() {
            Some(p) => {
                config.rcon.password = p;
            },
            None => {
                return false;
            },
        }
    }
    true
}

/// The dotted decimal text of an IPv4 address given as its 32-bit number.
pub open spec fn ipv4_text(ip: u32) -> Seq<char> {
    decimal((ip / 0x100_0000) as nat) + seq!['.'] + decimal(((ip / 0x1_0000) % 0x100) as nat)
        + seq!['.'] + decimal(((ip / 0x100) % 0x100) as nat) + seq!['.'] + decimal(
        (ip % 0x100) as nat,
    )
}

/// The dotted decimal text of an IPv4 address.
pub fn ipv4_string(ip: u32) -> (res: String)
    ensures
        res@ == ipv4_text(ip),
{
    let mut out = decimal_chars((ip / 0x100_0000) as u64);
    out.push('.');
    let b = decimal_chars(((ip / 0x1_0000) % 0x100) as u64);
    append_chars(&mut out, b.as_slice());
    out.push('.');
    let c = decimal_chars(((ip / 0x100) % 0x100) as u64);
    append_chars(&mut out, c.as_slice());
    out.push('.');
    let d = decimal_chars((ip % 0x100) as u64);
    append_chars(&mut out, d.as_slice());
    string_of(out.as_slice())
}

/// The text of an IPv6 address given as its 128-bit number, as the `Display` of
/// `core::net::Ipv6Addr` (std's `Ipv6Addr`) writes it.
pub uninterp spec fn ipv6_text(bits: u128) -> Seq<char>;

/// Writes an IPv6 address with the `Display` of `core::net::Ipv6Addr`. Claimed: the text
/// is `ipv6_text(bits)`.
#[verifier::external_body]
fn ipv6_string(bits: u128) -> (res: String)
    ensures
        res@ == ipv6_text(bits),
{
    core::net::Ipv6Addr::from(bits).to_string()
}

/// The text of an address, as std's `Display` for `IpAddr` writes it.
pub open spec fn ip_text(ip: IpAddress) -> Seq<char> {
    match ip {
        IpAddress::V4(a) => ipv4_text(a),
        IpAddress::V6(b) => ipv6_text(b),
    }
}

/// The changes made to `server.properties` so that the server listens where the proxy
/// expects it: its address and port, the query port, status on, short view and simulation
/// distance, no spawn protection; the lobby's compression threshold when the lobby is used;
/// the RCON port and password when RCON is on.
pub open spec fn spec_properties_changes(config: Config) -> Seq<Change> {
    let port = decimal(config.server.address.port as nat);
    let base = seq![
        ("server-ip"@, ip_text(config.server.address.ip)),
        ("server-port"@, port),
        ("query.port"@, port),
        ("enable-status"@, "true"@),
        ("view-distance"@, "5"@),
        ("simulation-distance"@, "5"@),
        ("spawn-protection"@, "0"@),
    ];
    let with_lobby = if config.join.methods@.contains(crate::config::Method::Lobby) {
        base.push(("network-compression-threshold"@, decimal(proto::COMPRESSION_THRESHOLD as nat)))
    } else {
        base
    };
    if config.rcon.enabled {
        with_lobby + seq![
            ("rcon.port"@, decimal(config.rcon.port as nat)),
            ("rcon.password"@, config.rcon.password@),
            ("enable-rcon"@, "true"@),
        ]
    } else {
        with_lobby
    }
}

fn pair(key: &str, value: String) -> (res: (String, String))
    ensures
        res.0@ == key@,
        res.1 == value,
{
    (key.to_owned(), value)
}

/// The changes to make to `server.properties`, or none when the file is not to be rewritten
/// (rewriting is off or there is no server directory).
pub fn server_properties_changes(config: &Config) -> (res: Option<Vec<(String, String)>>)
    ensures
        !config.advanced.rewrite_server_properties || config.server.directory is None
            ==> res is None,
        config.advanced.rewrite_server_properties && config.server.directory is Some ==> (
        res matches Some(v) && string_pair_views(v@) == spec_properties_changes(*config)),
{
    if !config.advanced.rewrite_server_properties {
        return None;
    }
    if config.server.directory.is_none() {
        return None;
    }
    let ip = match config.server.address.ip {
        IpAddress::V4(a) => ipv4_string(a),
        IpAddress::V6(b) => ipv6_string(b),
    };
    let port = config.server.address.port as u64;
    let mut v: Vec<(String, String)> = Vec::new();
    v.push(pair("server-ip", ip));
    v.push(pair("server-port", decimal_string(port)));
    v.push(pair("query.port", decimal_string(port)));
    v.push(pair("enable-status", "true".to_owned()));
    v.push(pair("view-distance", "5".to_owned()));
    v.push(pair("simulation-distance", "5".to_owned()));
    v.push(pair("spawn-protection", "0".to_owned()));
    let ghost base = string_pair_views(v@);
    if uses_lobby(config) {
        v.push(pair("network-compression-threshold", decimal_string(proto::COMPRESSION_THRESHOLD as u64)));
    }
    let ghost with_lobby = string_pair_views(v@);
    if config.rcon.enabled {
        v.push(pair("rcon.port", decimal_string(config.rcon.port as u64)));
        v.push(pair("rcon.password", config.rcon.password.clone()));
        v.push(pair("enable-rcon", "true".to_owned()));
    }
    proof {
        assert(string_pair_views(v@) =~= spec_properties_changes(*config));
    }
    Some(v)
}


proof fn lemma_texts_differ(a: Seq<char>, b: Seq<char>, i: int)
    requires
        0 <= i < a.len(),
        i < b.len(),
        a[i] != b[i],
    ensures
        a != b,
{
}

/// A key of the fixed part of the changes is none of the keys that only the lobby or RCON add.
proof fn lemma_not_optional_key(k: Seq<char>)
    requires
        k.len() > 7,
        k[0] != 'n',
        k[0] != 'r',
        k[0] != 'e' || k[7] != 'r',
    ensures
        k != "network-compression-threshold"@,
        k != "enable-rcon"@,
        k != "rcon.port"@,
        k != "rcon.password"@,
{
    reveal_strlit("network-compression-threshold");
    reveal_strlit("enable-rcon");
    reveal_strlit("rcon.port");
    reveal_strlit("rcon.password");
    if k[0] == 'e' {
        lemma_texts_differ(k, "enable-rcon"@, 7);
    } else {
        lemma_texts_differ(k, "enable-rcon"@, 0);
    }
    lemma_texts_differ(k, "network-compression-threshold"@, 0);
    lemma_texts_differ(k, "rcon.port"@, 0);
    lemma_texts_differ(k, "rcon.password"@, 0);
}

/// What the rewrite of `server.properties` sets, whatever the configuration: the server
/// listens on the server address and port (also for queries), answers status requests, uses
/// a view and simulation distance of 5 and no spawn protection; the compression threshold
/// is set exactly when the lobby is used, and RCON's port, password and switch exactly when
/// RCON is on.
pub proof fn lemma_properties_changes(config: Config)
    ensures
        ({
            let c = spec_properties_changes(config);
            let port = decimal(config.server.address.port as nat);
            &&& c.contains(("server-ip"@, ip_text(config.server.address.ip)))
            &&& c.contains(("server-port"@, port))
            &&& c.contains(("query.port"@, port))
            &&& c.contains(("enable-status"@, "true"@))
            &&& c.contains(("view-distance"@, "5"@))
            &&& c.contains(("simulation-distance"@, "5"@))
            &&& c.contains(("spawn-protection"@, "0"@))
            &&& config.join.methods@.contains(crate::config::Method::Lobby) ==> c.contains(
                ("network-compression-threshold"@, decimal(256)),
            )
            &&& !config.join.methods@.contains(crate::config::Method::Lobby) ==> forall|i: int|
                0 <= i < c.len() ==> #[trigger] c[i].0 != "network-compression-threshold"@
            &&& config.rcon.enabled ==> c.contains(("enable-rcon"@, "true"@)) && c.contains(
                ("rcon.port"@, decimal(config.rcon.port as nat)),
            ) && c.contains(("rcon.password"@, config.rcon.password@))
            &&& !config.rcon.enabled ==> forall|i: int|
                0 <= i < c.len() ==> #[trigger] c[i].0 != "enable-rcon"@ && c[i].0 != "rcon.port"@
                    && c[i].0 != "rcon.password"@
        }),
{
    reveal_strlit("server-ip");
    reveal_strlit("server-port");
    reveal_strlit("query.port");
    reveal_strlit("enable-status");
    reveal_strlit("view-distance");
    reveal_strlit("simulation-distance");
    reveal_strlit("spawn-protection");
    reveal_strlit("network-compression-threshold");
    reveal_strlit("rcon.port");
    reveal_strlit("rcon.password");
    reveal_strlit("enable-rcon");
    let c = spec_properties_changes(config);
    let port = decimal(config.server.address.port as nat);
    assert(c[0] == ("server-ip"@, ip_text(config.server.address.ip)));
    assert(c[1] == ("server-port"@, port));
    assert(c[2] == ("query.port"@, port));
    assert(c[3] == ("enable-status"@, "true"@));
    assert(c[4] == ("view-distance"@, "5"@));
    assert(c[5] == ("simulation-distance"@, "5"@));
    assert(c[6] == ("spawn-protection"@, "0"@));
    let lobby = config.join.methods@.contains(crate::config::Method::Lobby);
    let n: int = if lobby { 8 } else { 7 };
    if lobby {
        assert(c[7] == ("network-compression-threshold"@, decimal(256)));
    }
    if config.rcon.enabled {
        assert(c[n] == ("rcon.port"@, decimal(config.rcon.port as nat)));
        assert(c[n + 1] == ("rcon.password"@, config.rcon.password@));
        assert(c[n + 2] == ("enable-rcon"@, "true"@));
    }
    assert(c.len() == n + if config.rcon.enabled { 3int } else { 0int });
    assert forall|i: int| 0 <= i < c.len() implies {
        &&& !lobby ==> c[i].0 != "network-compression-threshold"@
        &&& !config.rcon.enabled ==> c[i].0 != "enable-rcon"@ && c[i].0 != "rcon.port"@ && c[i].0
            != "rcon.password"@
    } by {
        if i < 7 {
            if i == 0 {
                lemma_not_optional_key("server-ip"@);
            } else if i == 1 {
                lemma_not_optional_key("server-port"@);
            } else if i == 2 {
                lemma_not_optional_key("query.port"@);
            } else if i == 3 {
                lemma_not_optional_key("enable-status"@);
            } else if i == 4 {
                lemma_not_optional_key("view-distance"@);
            } else if i == 5 {
                lemma_not_optional_key("simulation-distance"@);
            } else {
                lemma_not_optional_key("spawn-protection"@);
            }
        } else if i == 7 && lobby {
            lemma_texts_differ("network-compression-threshold"@, "enable-rcon"@, 0);
            lemma_texts_differ("network-compression-threshold"@, "rcon.port"@, 0);
            lemma_texts_differ("network-compression-threshold"@, "rcon.password"@, 0);
        } else {
            assert(config.rcon.enabled);
            lemma_texts_differ("rcon.port"@, "network-compression-threshold"@, 0);
            lemma_texts_differ("rcon.password"@, "network-compression-threshold"@, 0);
            lemma_texts_differ("enable-rcon"@, "network-compression-threshold"@, 0);
        }
    }
}

} // verus!
