use plexpaper::config::{
    build_command, env_string, env_u16, env_u32, jar_file, Config, Join, JoinHold, JoinKick,
    JoinLobby, Lockout, Method, Motd, Rcon, RuntimeEnv, Server, Time, Advanced,
};
use plexpaper::net::{IpAddress, SocketAddress};

fn env(port: Option<&str>, version: Option<&str>, protocol: Option<&str>, jar: Option<&str>) -> RuntimeEnv {
    RuntimeEnv {
        server_port: port.map(|s| s.to_string()),
        mc_version: version.map(|s| s.to_string()),
        protocol_number: protocol.map(|s| s.to_string()),
        server_jarfile: jar.map(|s| s.to_string()),
    }
}

#[test]
fn default_command_line() {
    let cmd = build_command(&[], "server.jar");
    assert_eq!(
        cmd,
        "java -Xms128M '-XX:MaxRAMPercentage=95.0' '-Dterminal.jline=false' '-Dterminal.ansi=true' -jar server.jar --nogui"
    );
}

#[test]
fn command_line_from_arguments() {
    let args = vec!["  -Xmx2G ".to_string(), "".to_string(), "   ".to_string()];
    assert_eq!(build_command(&args, "paper.jar"), "java -Xmx2G -jar paper.jar --nogui");
    let args = vec!["-jar".to_string(), "custom.jar".to_string(), "--nogui".to_string()];
    assert_eq!(build_command(&args, "paper.jar"), "java -jar custom.jar --nogui");
    let args = vec!["-jar".to_string()];
    assert_eq!(build_command(&args, "my server.jar"), "java -jar 'my server.jar' --nogui");
}

#[test]
fn environment_values() {
    assert_eq!(env_string(&Some("  x ".to_string())), Some("x".to_string()));
    assert_eq!(env_string(&Some("   ".to_string())), None);
    assert_eq!(env_string(&None), None);
    assert_eq!(env_u16(&Some(" 25570 ".to_string())), Some(25570));
    assert_eq!(env_u16(&Some("+80".to_string())), Some(80));
    assert_eq!(env_u16(&Some("65536".to_string())), None);
    assert_eq!(env_u16(&Some("-1".to_string())), None);
    assert_eq!(env_u16(&Some("+".to_string())), None);
    assert_eq!(env_u16(&Some("12a".to_string())), None);
    assert_eq!(env_u32(&Some("4294967295".to_string())), Some(u32::MAX));
    assert_eq!(env_u32(&Some("4294967296".to_string())), None);
    assert_eq!(env_u32(&Some("00769".to_string())), Some(769));
    assert_eq!(jar_file(&None), "server.jar");
    assert_eq!(jar_file(&Some(" fabric.jar".to_string())), "fabric.jar");
}

#[test]
fn runtime_defaults() {
    let config = Config::runtime(&[], &env(None, None, None, None));
    assert_eq!(config.public.address, SocketAddress { ip: IpAddress::V4(0), port: 25565 });
    assert_eq!(config.public.version, "1.21.4");
    assert_eq!(config.public.protocol, 769);
    assert_eq!(config.server.address, SocketAddress { ip: IpAddress::V4(0x7f00_0001), port: 25566 });
    assert_eq!(config.server.directory, Some(".".to_string()));
    assert_eq!(Server::server_directory(&config), Some(".".to_string()));
    assert!(config.server.command.ends_with("-jar server.jar --nogui"));
    assert_eq!(config.time.sleep_after, 60);
    assert_eq!(config.join.methods, vec![Method::Hold, Method::Kick]);
    assert!(!config.rcon.enabled);
    assert_eq!(config.rcon.port, 25575);
}

#[test]
fn runtime_from_environment() {
    let config = Config::runtime(
        &["-Xmx1G".to_string()],
        &env(Some("25566"), Some(" 1.20.4 "), Some("765"), Some("paper.jar")),
    );
    assert_eq!(config.public.address.port, 25566);
    assert_eq!(config.server.address.port, 25567);
    assert_eq!(config.public.version, "1.20.4");
    assert_eq!(config.public.protocol, 765);
    assert_eq!(config.server.command, "java -Xmx1G -jar paper.jar --nogui");
}

#[test]
fn section_defaults() {
    assert_eq!(Time::default().min_online_time, 60);
    assert!(Motd::default().sleeping.starts_with("§bPlexScale§f - Server is sleeping"));
    assert!(!Motd::default().from_server);
    let join = Join::default();
    assert_eq!(join.hold.timeout, 25);
    assert_eq!(join.lobby.timeout, 600);
    assert_eq!(join.lobby.ready_sound, Some("block.note_block.chime".to_string()));
    assert_eq!(join.forward.address, SocketAddress { ip: IpAddress::V4(0x7f00_0001), port: 25565 });
    assert_eq!(JoinHold::default().timeout, 25);
    assert!(JoinKick::default().stopping.contains("going to sleep"));
    assert_eq!(JoinLobby::default().message, "§bPlexScale§f\n§fServer is starting, please wait...");
    assert!(!Lockout::default().enabled);
    assert!(Rcon::default().randomize_password);
    assert!(Advanced::default().rewrite_server_properties);
    let server = Server::default_for("server.jar");
    assert_eq!(server.start_timeout, 120);
    assert_eq!(server.stop_timeout, 60);
    assert!(server.wake_whitelist && server.block_banned_ips && !server.drop_banned_ips);
}

#[test]
fn build_command_keeps_plain_words() {
    assert_eq!(build_command(&["-Xmx1G".to_string()], "server.jar"), "java -Xmx1G -jar server.jar --nogui");
    assert_eq!(
        build_command(
            &["  ".to_string(), "-jar".to_string(), "paper.jar".to_string(), "--nogui".to_string()],
            "server.jar"
        ),
        "java -jar paper.jar --nogui"
    );
}
