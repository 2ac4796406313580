use plexpaper::action::start::{
    generate_random_password, ipv4_string, password_from_draws, prepare_rcon, server_properties_changes,
};
use plexpaper::config::{Config, Method, RuntimeEnv};
use plexpaper::join::{kick_message, must_still_probe, wait_outcome};
use plexpaper::mc::ban::{BannedIp, BannedIps};
use plexpaper::mc::whitelist::Whitelist;
use plexpaper::net::IpAddress;
use plexpaper::proto::client::ClientInfo;
use plexpaper::server::{OnlinePlayers, Server, ServerStatus, ServerVersion, State};
use plexpaper::status::{login_action, needs_server_icon, route, server_status, LoginAction, Route};
use plexpaper::util::error::{error_lines, ErrorHints, ErrorHintsBuilder};

fn config() -> Config {
    Config::runtime(
        &[],
        &RuntimeEnv { server_port: None, mc_version: None, protocol_number: None, server_jarfile: None },
    )
}

fn status(online: u32, favicon: Option<&str>) -> ServerStatus {
    ServerStatus {
        version: ServerVersion { name: "1.20.4".to_string(), protocol: 765 },
        players: OnlinePlayers { online, max: 20, sample: vec![] },
        description: "A server".to_string(),
        favicon: favicon.map(|s| s.to_string()),
    }
}

#[test]
fn status_while_sleeping() {
    let config = config();
    let info = ClientInfo::empty();
    assert!(needs_server_icon(&info, &config, State::Stopped, &None));
    let st = server_status(&info, &config, State::Stopped, &None, "icon".to_string());
    assert_eq!(st.version.name, "1.21.4");
    assert_eq!(st.version.protocol, 769);
    assert_eq!(st.players.max, 0);
    assert_eq!(st.players.online, 0);
    assert_eq!(st.description, config.motd.sleeping);
    assert_eq!(st.favicon, Some("icon".to_string()));
    let st = server_status(&info, &config, State::Starting, &Some(status(3, Some("own"))), "icon".to_string());
    assert_eq!(st.version.name, "1.20.4");
    assert_eq!(st.players.max, 20);
    assert_eq!(st.players.online, 0);
    assert_eq!(st.description, config.motd.starting);
    assert_eq!(st.favicon, Some("icon".to_string()));
}

#[test]
fn status_from_server() {
    let mut config = config();
    let info = ClientInfo::empty();
    let st = server_status(&info, &config, State::Started, &Some(status(3, None)), String::new());
    assert_eq!(st.players.online, 3);
    assert_eq!(st.description, "A server");
    assert!(!needs_server_icon(&info, &config, State::Started, &Some(status(3, None))));
    config.motd.from_server = true;
    let own = Some(status(3, Some("own")));
    assert!(!needs_server_icon(&info, &config, State::Stopping, &own));
    let st = server_status(&info, &config, State::Stopping, &own, String::new());
    assert_eq!(st.description, "A server");
    assert_eq!(st.favicon, Some("own".to_string()));
    let mut old = ClientInfo::empty();
    old.protocol = Some(1);
    let st = server_status(&old, &config, State::Stopping, &own, String::new());
    assert_eq!(st.favicon, None);
}

#[test]
fn login_decisions() {
    let mut config = config();
    let mut server = Server::new();
    let ip = IpAddress::V4(0x0a00_0001);
    let alice = Some("alice".to_string());
    assert!(matches!(login_action(&config, &server, &ip, &alice, 0), LoginAction::Start));
    server.set_whitelist(Some(Whitelist::new(vec!["bob".to_string()], vec![])));
    match login_action(&config, &server, &ip, &alice, 0) {
        LoginAction::Kick(m) => assert_eq!(m, "You are not white-listed on this server!"),
        LoginAction::Start => panic!("expected a kick"),
    }
    assert!(matches!(login_action(&config, &server, &ip, &None, 0), LoginAction::Start));
    server.set_banned_ips(BannedIps::from_entries(vec![BannedIp {
        ip,
        created: None,
        source: None,
        expires: None,
        reason: Some("griefing".to_string()),
    }]));
    match login_action(&config, &server, &ip, &alice, 0) {
        LoginAction::Kick(m) => assert_eq!(m, "Your IP address is banned from this server.\nReason: griefing"),
        LoginAction::Start => panic!("expected a kick"),
    }
    config.lockout.enabled = true;
    match login_action(&config, &server, &ip, &alice, 0) {
        LoginAction::Kick(m) => assert_eq!(m, config.lockout.message),
        LoginAction::Start => panic!("expected a kick"),
    }
}

#[test]
fn default_ban_reason_message() {
    let config = config();
    let mut server = Server::new();
    let ip = IpAddress::V6(1);
    server.set_banned_ips(BannedIps::from_entries(vec![BannedIp {
        ip,
        created: None,
        source: None,
        expires: Some("forever".to_string()),
        reason: None,
    }]));
    match login_action(&config, &server, &ip, &None, 0) {
        LoginAction::Kick(m) => assert_eq!(m, "Your IP address is banned from this server.\nReason: Banned by an operator."),
        LoginAction::Start => panic!("expected a kick"),
    }
}

#[test]
fn routing() {
    let mut config = config();
    let mut server = Server::new();
    let ip = IpAddress::V4(5);
    assert_eq!(route(&config, &server, &ip, 0), Route::Status);
    server.update_status(&config, Some(status(0, None)), 0);
    assert_eq!(route(&config, &server, &ip, 0), Route::Proxy);
    server.set_banned_ips(BannedIps::from_entries(vec![BannedIp {
        ip,
        created: None,
        source: None,
        expires: None,
        reason: None,
    }]));
    assert_eq!(route(&config, &server, &ip, 0), Route::Status);
    config.server.drop_banned_ips = true;
    assert_eq!(route(&config, &server, &ip, 0), Route::Drop);
    assert_eq!(route(&config, &server, &IpAddress::V4(6), 0), Route::Proxy);
    config.lockout.enabled = true;
    assert_eq!(route(&config, &server, &IpAddress::V4(6), 0), Route::Status);
}

#[test]
fn join_decisions() {
    let mut config = config();
    assert_eq!(kick_message(&config, State::Stopping), config.join.kick.stopping);
    assert_eq!(kick_message(&config, State::Stopped), config.join.kick.starting);
    assert_eq!(wait_outcome(State::Starting), None);
    assert_eq!(wait_outcome(State::Started), Some(true));
    assert_eq!(wait_outcome(State::Stopped), Some(false));
    assert_eq!(wait_outcome(State::Stopping), Some(false));
    assert!(!must_still_probe(&config, false));
    config.server.forge = true;
    assert!(must_still_probe(&config, false));
    assert!(!must_still_probe(&config, true));
}

#[test]
fn error_reporting() {
    let hints = ErrorHintsBuilder::new()
        .add_info("one".to_string())
        .add_info("two".to_string())
        .build();
    assert_eq!(hints.info, vec!["one".to_string(), "two".to_string()]);
    assert!(ErrorHintsBuilder::new().build().info.is_empty());
    assert!(ErrorHints::default().info.is_empty());
    let lines = error_lines(&vec!["outer".to_string(), "".to_string(), "inner".to_string()]);
    assert_eq!(lines.len(), 2);
    assert_eq!((lines[0].label.as_str(), lines[0].message.as_str()), ("error:", "outer"));
    assert_eq!((lines[1].label.as_str(), lines[1].message.as_str()), ("caused by:", "inner"));
    let lines = error_lines(&vec![String::new()]);
    assert_eq!(lines.len(), 1);
    assert_eq!(lines[0].message, "an undefined error occurred");
}

#[test]
fn start_preparation() {
    let mut config = config();
    assert_eq!(ipv4_string(0x7f00_0001), "127.0.0.1");
    assert_eq!(ipv4_string(0), "0.0.0.0");
    assert_eq!(ipv4_string(0xffff_ffff), "255.255.255.255");
    let changes = server_properties_changes(&config).unwrap();
    let keys: Vec<&str> = changes.iter().map(|(k, _)| k.as_str()).collect();
    assert_eq!(
        keys,
        vec!["server-ip", "server-port", "query.port", "enable-status", "view-distance", "simulation-distance", "spawn-protection"]
    );
    assert_eq!(changes[0].1, "127.0.0.1");
    assert_eq!(changes[1].1, "25566");
    config.join.methods.push(Method::Lobby);
    config.rcon.enabled = true;
    assert!(prepare_rcon(&mut config));
    assert_eq!(config.rcon.password.len(), 32);
    assert!(config.rcon.password.chars().all(|c| c.is_ascii_alphanumeric()));
    let changes = server_properties_changes(&config).unwrap();
    assert_eq!(changes.len(), 11);
    assert_eq!(changes[7], ("network-compression-threshold".to_string(), "256".to_string()));
    assert_eq!(changes[8], ("rcon.port".to_string(), "25575".to_string()));
    assert_eq!(changes[9].1, config.rcon.password);
    config.server.address.ip = IpAddress::V6(1);
    assert_eq!(server_properties_changes(&config).unwrap()[0].1, "::1");
    config.advanced.rewrite_server_properties = false;
    assert!(server_properties_changes(&config).is_none());
    let password = generate_random_password().unwrap();
    assert_eq!(password.chars().count(), 32);
}

#[test]
fn password_from_drawn_bytes() {
    assert_eq!(password_from_draws(b"aZ09xY"), "aZ09xY");
    assert_eq!(password_from_draws(&[]), "");
}
