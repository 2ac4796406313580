use plexpaper::mc::ban::{BannedIp, BannedIps};
use plexpaper::mc::favicon::{encode_favicon, supports_favicon};
use plexpaper::mc::server_properties::{read_property_in, rewrite_contents};
use plexpaper::mc::uuid::{java_name_uuid_from_bytes, offline_player_uuid};
use plexpaper::mc::whitelist::{OpUser, Whitelist, WhitelistUser};
use plexpaper::net::IpAddress;
use plexpaper::proto::client::ClientInfo;

fn ban(ip: u32, expires: Option<&str>, reason: Option<&str>) -> BannedIp {
    BannedIp {
        ip: IpAddress::V4(ip),
        created: None,
        source: None,
        expires: expires.map(|s| s.to_string()),
        reason: reason.map(|s| s.to_string()),
    }
}

fn changes(list: &[(&str, &str)]) -> Vec<(String, String)> {
    list.iter().map(|(k, v)| (k.to_string(), v.to_string())).collect()
}

#[test]
fn ban_expiry() {
    // 2020-01-01 00:00:00 +0000
    let t2020: i64 = 1_577_836_800;
    assert!(ban(1, None, None).is_banned_at(t2020));
    assert!(ban(1, Some(" Forever "), None).is_banned_at(t2020));
    assert!(ban(1, Some("not a date"), None).is_banned_at(t2020));
    let b = ban(1, Some("2020-01-01 00:00:00 +0000"), None);
    assert!(b.is_banned_at(t2020 - 1));
    assert!(!b.is_banned_at(t2020));
    let b = ban(1, Some("2020-01-01 01:00:00 +0100"), None);
    assert!(!b.is_banned_at(t2020));
    assert!(!ban(1, Some("2000-01-01 00:00:00 +0000"), None).is_banned());
    assert!(ban(1, Some("forever"), None).is_banned());
}

#[test]
fn banned_ips_lookup_keeps_last_entry() {
    let ips = BannedIps::from_entries(vec![
        ban(1, Some("forever"), Some("first")),
        ban(2, None, None),
        ban(1, Some("2000-01-01 00:00:00 +0000"), Some("second")),
    ]);
    assert_eq!(ips.get(&IpAddress::V4(1)).unwrap().reason, Some("second".to_string()));
    assert!(!ips.is_banned(&IpAddress::V4(1)));
    assert!(ips.is_banned(&IpAddress::V4(2)));
    assert!(!ips.is_banned(&IpAddress::V4(3)));
    assert!(ips.get(&IpAddress::V6(1)).is_none());
    assert!(BannedIps::empty().get(&IpAddress::V4(1)).is_none());
}

#[test]
fn whitelist_membership() {
    let w = Whitelist::from_users(
        vec![WhitelistUser { username: "alice".to_string(), uuid: None }],
        vec![OpUser { username: "bob".to_string(), uuid: None, level: Some(4), byapsses_player_limit: None }],
    );
    assert!(w.is_whitelisted("alice"));
    assert!(w.is_whitelisted("bob"));
    assert!(!w.is_whitelisted("Alice"));
    assert!(!w.is_whitelisted("carol"));
    let w = Whitelist::new(vec![], vec![]);
    assert!(!w.is_whitelisted("alice"));
}

#[test]
fn rewrite_server_properties_contents() {
    let contents = "#Minecraft server properties\nserver-port=25565\nmotd=A Minecraft Server\nServer-IP = 0.0.0.0\nview-distance=5\nbroken line";
    let res = rewrite_contents(
        contents,
        changes(&[("server-port", "25566"), ("server-ip", "127.0.0.1"), ("view-distance", "5"), ("enable-rcon", "true")]),
    )
    .unwrap();
    assert_eq!(
        res,
        "#Minecraft server properties\r\nserver-port=25566\r\nmotd=A Minecraft Server\r\nServer-IP =127.0.0.1\r\nview-distance=5\r\nbroken line\r\nenable-rcon=true"
    );
}

#[test]
fn rewrite_without_effect_gives_none() {
    assert_eq!(rewrite_contents("a=1\n", changes(&[])), None);
    assert_eq!(rewrite_contents("a=1\r\nb=2", changes(&[("a", "1")])), None);
    // a key is used by its first line only
    assert_eq!(
        rewrite_contents("a=1\na=2", changes(&[("a", "1")])),
        None
    );
    assert_eq!(
        rewrite_contents("a=2\na=2", changes(&[("a", "1")])),
        Some("a=1\r\na=2".to_string())
    );
    assert_eq!(rewrite_contents("", changes(&[("a", "1")])), Some("\r\na=1".to_string()));
}

#[test]
fn read_property_values() {
    let contents = "# comment\nwhite-list = true \nWHITE-LIST=false\nempty=\nno equals";
    assert_eq!(read_property_in(contents, "white-list"), Some("true".to_string()));
    assert_eq!(read_property_in(contents, "White-List"), Some("true".to_string()));
    assert_eq!(read_property_in(contents, "empty"), Some("".to_string()));
    assert_eq!(read_property_in(contents, "missing"), None);
}

#[test]
fn offline_uuid_of_notch() {
    let uuid = offline_player_uuid("Notch");
    assert_eq!(uuid, [181, 10, 211, 133, 130, 157, 49, 65, 162, 22, 126, 125, 117, 57, 186, 127]);
    let direct = java_name_uuid_from_bytes(b"OfflinePlayer:Notch");
    assert_eq!(uuid, direct);
    assert_eq!(direct[6] >> 4, 3);
    assert_eq!(direct[8] >> 6, 2);
}

#[test]
fn favicon_data_url() {
    assert_eq!(encode_favicon(b"abc"), "data:image/png;base64,YWJj");
    assert_eq!(encode_favicon(b""), "data:image/png;base64,");
    let png_header = [137u8, 80, 78, 71, 13, 10, 26, 10];
    assert_eq!(encode_favicon(&png_header), "data:image/png;base64,iVBORw0KGgo=");
    let mut info = ClientInfo::empty();
    assert!(supports_favicon(&info));
    info.protocol = Some(3);
    assert!(!supports_favicon(&info));
    info.protocol = Some(4);
    assert!(supports_favicon(&info));
}

#[test]
fn rewritten_properties_read_back_and_stay() {
    let contents = "# settings\r\nServer-Port = 1\nmotd=hi\n\n";
    let changes = vec![
        ("server-port".to_string(), " 25566".to_string()),
        ("enable-rcon".to_string(), "true".to_string()),
    ];
    let first = rewrite_contents(contents, changes.clone()).unwrap();
    assert_eq!(read_property_in(&first, "server-port"), Some("25566".to_string()));
    assert_eq!(read_property_in(&first, "enable-rcon"), Some("true".to_string()));
    assert_eq!(read_property_in(&first, "motd"), Some("hi".to_string()));
    assert_eq!(rewrite_contents(&first, changes), None);
}

#[test]
fn rewritten_properties_read_back_in_any_text() {
    let contents = "# Éléments=oui\nmotd=café\n";
    let changes = vec![("motd".to_string(), "thé".to_string()), ("max-players".to_string(), "5".to_string())];
    let first = rewrite_contents(contents, changes.clone()).unwrap();
    assert_eq!(read_property_in(&first, "motd"), Some("thé".to_string()));
    assert_eq!(read_property_in(&first, "max-players"), Some("5".to_string()));
    assert_eq!(rewrite_contents(&first, changes), None);
}
