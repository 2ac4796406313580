use plexpaper::probe::{probe_login_packet, ProbeAction};
use plexpaper::config::{Config, Method, RuntimeEnv};
use plexpaper::join::{next_occupation, Occupation};
use plexpaper::net::{IpAddress, SocketAddress};
use plexpaper::proto::client::{Client, ClientInfo, ClientState, Handshake};
use plexpaper::proto::codec::{
    decode_handshake, decode_login_name, decode_status_response, encode_handshake,
    login_disconnect, read_string, read_u16, status_request, status_response, write_string,
};
use plexpaper::proto::packet::{is_frame_decodable, take_packet, PacketRead, RawPacket};
use plexpaper::server::{server_command, State};
use plexpaper::status::{serve_packet, ServeAction};
use plexpaper::types::encode_var_int;
use plexpaper::watch::{reload_for, uses_bans, uses_whitelist, whitelist_enabled};

fn config() -> Config {
    Config::runtime(
        &[],
        &RuntimeEnv { server_port: None, mc_version: None, protocol_number: None, server_jarfile: None },
    )
}

fn client() -> Client {
    Client::new(SocketAddress { ip: IpAddress::V4(0x7f00_0001), port: 50000 })
}

fn string_field(s: &str) -> Vec<u8> {
    let mut out = encode_var_int(s.len() as i32).unwrap();
    out.extend_from_slice(s.as_bytes());
    out
}

fn handshake_data(protocol: i32, addr: &str, port: u16, next: i32) -> Vec<u8> {
    let mut out = encode_var_int(protocol).unwrap();
    out.extend(string_field(addr));
    out.extend_from_slice(&port.to_be_bytes());
    out.extend(encode_var_int(next).unwrap());
    out
}

#[test]
fn string_field_reads_back() {
    let mut bytes = write_string("héllo", 100).unwrap();
    assert_eq!(bytes, vec![6, b'h', 0xc3, 0xa9, b'l', b'l', b'o']);
    bytes.extend_from_slice(&[9, 9]);
    assert_eq!(read_string(&bytes, 100), Some((7, "héllo".to_string())));
}

#[test]
fn string_field_refusals() {
    assert_eq!(write_string("abcdef", 5), None);
    assert_eq!(read_string(&[6, b'a', b'b', b'c', b'd', b'e', b'f'], 5), None);
    assert_eq!(read_string(&[3, b'a', b'b'], 10), None);
    assert_eq!(read_string(&[2, 0xff, 0xfe], 10), None);
    assert_eq!(read_string(&[0x80], 10), None);
    assert_eq!(read_string(&[0xff, 0xff, 0xff, 0xff, 0x0f], 10), None);
    assert_eq!(read_string(&[0], 10), Some((1, String::new())));
}

#[test]
fn unsigned_short_is_big_endian() {
    assert_eq!(read_u16(&[0x63, 0xdd]), Some(25565));
    assert_eq!(read_u16(&[0x01]), None);
}

#[test]
fn handshake_decodes_its_fields() {
    let data = handshake_data(769, "play.example.org", 25565, 2);
    let h = decode_handshake(&data).unwrap();
    assert_eq!(h.protocol_version, 769);
    assert_eq!(h.server_addr, "play.example.org");
    assert_eq!(h.server_port, 25565);
    assert_eq!(h.next_state, 2);
    assert!(decode_handshake(&data[..data.len() - 1]).is_none());
    assert!(decode_handshake(&[]).is_none());
}

#[test]
fn login_name_decodes() {
    let mut data = string_field("Notch");
    data.extend_from_slice(&[0u8; 16]);
    assert_eq!(decode_login_name(&data), Some("Notch".to_string()));
    assert_eq!(decode_login_name(&string_field("a_name_that_is_too_long")), None);
}

#[test]
fn status_and_disconnect_packets() {
    let p = status_response("{\"a\":1}").unwrap();
    assert_eq!(p.id, 0);
    assert_eq!(p.data, string_field("{\"a\":1}"));
    let d = login_disconnect("{\"text\":\"bye\"}").unwrap();
    assert_eq!(d.id, 0);
    assert_eq!(d.data, string_field("{\"text\":\"bye\"}"));
    let long = "x".repeat(32768);
    assert!(status_response(&long).is_none());
}

#[test]
fn serving_a_status_ping_exchange() {
    let mut c = client();
    let mut info = ClientInfo::empty();
    let hs = RawPacket::new(0, handshake_data(769, "localhost", 25565, 1));
    match serve_packet(&mut c, &mut info, &hs) {
        ServeAction::Handshaked(st) => assert_eq!(st, ClientState::Status),
        other => panic!("unexpected {:?}", other),
    }
    assert_eq!(c.state(), ClientState::Status);
    assert_eq!(info.protocol, Some(769));
    assert_eq!(info.handshake.as_ref().unwrap().server_addr, "localhost");
    assert!(matches!(serve_packet(&mut c, &mut info, &RawPacket::new(0, vec![])), ServeAction::Status));
    assert!(matches!(serve_packet(&mut c, &mut info, &RawPacket::new(1, vec![1; 8])), ServeAction::Pong));
    assert!(matches!(serve_packet(&mut c, &mut info, &RawPacket::new(5, vec![])), ServeAction::Ignore));
}

#[test]
fn serving_a_login() {
    let mut c = client();
    let mut info = ClientInfo::empty();
    let hs = RawPacket::new(0, handshake_data(-1, "localhost", 25565, 2));
    assert!(matches!(serve_packet(&mut c, &mut info, &hs), ServeAction::Handshaked(ClientState::Login)));
    assert_eq!(info.protocol, Some(u32::MAX));
    match serve_packet(&mut c, &mut info, &RawPacket::new(0, string_field("Steve"))) {
        ServeAction::Login(name) => assert_eq!(name.as_deref(), Some("Steve")),
        other => panic!("unexpected {:?}", other),
    }
    assert_eq!(info.username.as_deref(), Some("Steve"));
}

#[test]
fn serving_bad_handshakes_disconnects() {
    let mut c = client();
    let mut info = ClientInfo::empty();
    let unknown = RawPacket::new(0, handshake_data(769, "localhost", 25565, 3));
    assert!(matches!(serve_packet(&mut c, &mut info, &unknown), ServeAction::Disconnect));
    assert_eq!(c.state(), ClientState::Handshake);
    assert_eq!(info.protocol, None);
    let malformed = RawPacket::new(0, vec![0x80]);
    assert!(matches!(serve_packet(&mut c, &mut info, &malformed), ServeAction::Disconnect));
    assert!(matches!(serve_packet(&mut c, &mut info, &RawPacket::new(1, vec![])), ServeAction::Ignore));
}

#[test]
fn packets_are_taken_off_the_buffer() {
    let c = client();
    let first = RawPacket::new(0, vec![1, 2, 3]).encode_with_len(&c).unwrap();
    let second = RawPacket::new(1, vec![4]).encode_with_len(&c).unwrap();
    let mut buf = first.clone();
    buf.extend(&second[..1]);
    assert!(is_frame_decodable(c.compressed(), &buf));
    match take_packet(&c, &mut buf) {
        PacketRead::Packet(p, raw) => {
            assert_eq!(p.id, 0);
            assert_eq!(p.data, vec![1, 2, 3]);
            assert_eq!(raw, first);
        }
        other => panic!("unexpected {:?}", other),
    }
    assert_eq!(buf, second[..1].to_vec());
    assert!(matches!(take_packet(&c, &mut buf), PacketRead::Incomplete));
    buf.extend(&second[1..]);
    assert!(matches!(take_packet(&c, &mut buf), PacketRead::Packet(_, _)));
    assert!(buf.is_empty());
    let mut bad = vec![0xff, 0xff, 0xff, 0xff, 0xff, 0x01];
    assert!(matches!(take_packet(&c, &mut bad), PacketRead::Malformed));
    assert_eq!(bad.len(), 6);
}

#[test]
fn occupation_follows_the_methods() {
    let methods = vec![Method::Lobby, Method::Hold, Method::Kick];
    assert_eq!(next_occupation(&methods, 0, State::Starting), (Occupation::Hold, 1));
    assert_eq!(next_occupation(&methods, 0, State::Stopped), (Occupation::Kick, 2));
    assert_eq!(next_occupation(&methods, 2, State::Starting), (Occupation::Kick, 2));
    assert_eq!(next_occupation(&methods, 3, State::Starting), (Occupation::Disconnect, 3));
    let only_hold = vec![Method::Hold];
    assert_eq!(next_occupation(&only_hold, 0, State::Stopping), (Occupation::Disconnect, 1));
    assert_eq!(next_occupation(&[Method::Forward, Method::Kick], 0, State::Stopped), (Occupation::Forward, 0));
}

#[test]
fn server_command_splits_into_words() {
    let mut config = config();
    config.server.command = "java -Xmx1G -jar 'my server.jar' --nogui".to_string();
    let (program, args) = server_command(&config).unwrap();
    assert_eq!(program, "java");
    assert_eq!(args, vec!["-Xmx1G", "-jar", "my server.jar", "--nogui"]);
    config.server.command = "java 'unterminated".to_string();
    assert!(server_command(&config).is_none());
    config.server.command = "   ".to_string();
    assert!(server_command(&config).is_none());
}

#[test]
fn file_changes_reload() {
    let r = reload_for("banned-ips.json");
    assert!(r.bans && !r.whitelist);
    for name in ["whitelist.json", "ops.json", "server.properties"] {
        let r = reload_for(name);
        assert!(!r.bans && r.whitelist);
    }
    let r = reload_for("world");
    assert!(!r.bans && !r.whitelist);
}

#[test]
fn whitelist_property_and_settings() {
    assert!(whitelist_enabled(&Some(" true\t".to_string())));
    assert!(!whitelist_enabled(&Some("false".to_string())));
    assert!(!whitelist_enabled(&Some("TRUE".to_string())));
    assert!(!whitelist_enabled(&None));
    let mut config = config();
    assert_eq!(uses_bans(&config), config.server.block_banned_ips || config.server.drop_banned_ips);
    config.server.block_banned_ips = false;
    config.server.drop_banned_ips = false;
    assert!(!uses_bans(&config));
    config.server.wake_whitelist = true;
    assert!(uses_whitelist(&config));
}

#[test]
fn handshake_encodes_and_reads_back() {
    let h = Handshake {
        protocol_version: 769,
        server_addr: "127.0.0.1".to_string(),
        server_port: 25566,
        next_state: 1,
    };
    let p = encode_handshake(&h).unwrap();
    assert_eq!(p.id, 0);
    assert_eq!(p.data, handshake_data(769, "127.0.0.1", 25566, 1));
    let back = decode_handshake(&p.data).unwrap();
    assert_eq!(back.protocol_version, 769);
    assert_eq!(back.server_addr, "127.0.0.1");
    assert_eq!(back.server_port, 25566);
    assert_eq!(back.next_state, 1);
    let long = Handshake { server_addr: "a".repeat(256), ..h };
    assert!(encode_handshake(&long).is_none());
}

#[test]
fn status_request_and_response_text() {
    let r = status_request();
    assert_eq!(r.id, 0);
    assert!(r.data.is_empty());
    let p = status_response("{\"description\":\"x\"}").unwrap();
    assert_eq!(decode_status_response(&p.data), Some("{\"description\":\"x\"}".to_string()));
    assert_eq!(decode_status_response(&[5, b'a']), None);
}

#[test]
fn probe_login_exchange() {
    let mut c = client();
    c.set_state(ClientState::Login);
    match probe_login_packet(&mut c, &RawPacket::new(3, vec![0x80, 0x02]), false) {
        ProbeAction::SetCompression(t) => assert_eq!(t, 256),
        other => panic!("unexpected {:?}", other),
    }
    assert_eq!(c.compressed(), 256);
    let mut request = vec![7u8];
    request.extend(string_field("fml:loginwrapper"));
    request.extend_from_slice(&[9, 9, 9]);
    match probe_login_packet(&mut c, &RawPacket::new(4, request.clone()), false) {
        ProbeAction::Refuse(p) => {
            assert_eq!(p.id, 2);
            assert_eq!(p.data, vec![7, 0]);
        }
        other => panic!("unexpected {:?}", other),
    }
    match probe_login_packet(&mut c, &RawPacket::new(4, request), true) {
        ProbeAction::ForgeRequest(id, channel, data) => {
            assert_eq!(id, 7);
            assert_eq!(channel, "fml:loginwrapper");
            assert_eq!(data, vec![9, 9, 9]);
        }
        other => panic!("unexpected {:?}", other),
    }
    assert!(matches!(probe_login_packet(&mut c, &RawPacket::new(4, vec![7, 40]), false), ProbeAction::Malformed));
    assert!(matches!(probe_login_packet(&mut c, &RawPacket::new(0, vec![]), false), ProbeAction::Ignore));
    assert!(matches!(probe_login_packet(&mut c, &RawPacket::new(2, vec![]), false), ProbeAction::LoginSuccess));
    assert_eq!(c.state(), ClientState::Play);
    assert!(matches!(probe_login_packet(&mut c, &RawPacket::new(3, vec![1]), false), ProbeAction::Ignore));
    assert_eq!(c.compressed(), 256);
}

#[test]
fn login_start_carries_the_name() {
    let p = plexpaper::proto::codec::login_start("_plexpaper_probe").unwrap();
    assert_eq!(p.id, 0);
    assert_eq!(p.data, string_field("_plexpaper_probe"));
    assert!(plexpaper::proto::codec::login_start("a_name_that_is_far_too_long").is_none());
}
