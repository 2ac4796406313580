use plexpaper::net::{IpAddress, SocketAddress};
use plexpaper::proto::client::{Client, ClientInfo, ClientState, Handshake};
use plexpaper::proto::packet::{frame_status, is_decodable_with_len, len_as_i32, FrameStatus, RawPacket};
use plexpaper::types::{encode_var_int, read_var_int};

#[test]
fn var_int_known_encodings() {
    let cases: Vec<(i32, Vec<u8>)> = vec![
        (0, vec![0x00]),
        (1, vec![0x01]),
        (127, vec![0x7f]),
        (128, vec![0x80, 0x01]),
        (255, vec![0xff, 0x01]),
        (25565, vec![0xdd, 0xc7, 0x01]),
        (2097151, vec![0xff, 0xff, 0x7f]),
        (i32::MAX, vec![0xff, 0xff, 0xff, 0xff, 0x07]),
        (-1, vec![0xff, 0xff, 0xff, 0xff, 0x0f]),
        (i32::MIN, vec![0x80, 0x80, 0x80, 0x80, 0x08]),
    ];
    for (value, bytes) in cases {
        assert_eq!(encode_var_int(value).unwrap(), bytes);
        assert_eq!(read_var_int(&bytes), Ok((bytes.len(), value)));
    }
}

#[test]
fn var_int_roundtrip_with_trailing_bytes() {
    for value in [0, 5, 300, -300, 1 << 20, i32::MAX, i32::MIN, -2] {
        let mut bytes = encode_var_int(value).unwrap();
        let len = bytes.len();
        bytes.extend_from_slice(&[0x80, 0x01, 0x02]);
        assert_eq!(read_var_int(&bytes), Ok((len, value)));
    }
}

#[test]
fn var_int_read_errors() {
    assert_eq!(read_var_int(&[]), Err(()));
    assert_eq!(read_var_int(&[0x80]), Err(()));
    assert_eq!(read_var_int(&[0x80, 0x80, 0x80, 0x80, 0x80, 0x01]), Err(()));
    // the fifth byte's extra bits fall off the 32-bit value
    assert_eq!(read_var_int(&[0xff, 0xff, 0xff, 0xff, 0x7f]), Ok((5, -1)));
}

#[test]
fn packet_roundtrip_uncompressed() {
    let client = Client::new(SocketAddress { ip: IpAddress::V4(0x7f00_0001), port: 1234 });
    let packet = RawPacket::new(0x21, vec![1, 2, 3, 4]);
    let frame = packet.encode_with_len(&client).unwrap();
    assert_eq!(frame, vec![5, 0x21, 1, 2, 3, 4]);
    assert_eq!(frame_status(&frame), FrameStatus::Complete(6));
    assert!(is_decodable_with_len(client.compressed(), &frame));
    let decoded = RawPacket::decode_with_len(&client, &frame).unwrap();
    assert_eq!(decoded.id, 0x21);
    assert_eq!(decoded.data, vec![1, 2, 3, 4]);
}

#[test]
fn packet_roundtrip_compressed_below_threshold() {
    let mut client = Client::dummy();
    client.set_compression(256);
    let packet = RawPacket::new(0x00, vec![9; 10]);
    let contents = packet.encode_without_len(&client).unwrap();
    assert_eq!(contents[0], 0);
    assert_eq!(contents[1], 0x00);
    let decoded = RawPacket::decode_without_len(&client, &contents).unwrap();
    assert_eq!(decoded.id, 0);
    assert_eq!(decoded.data, vec![9; 10]);
}

#[test]
fn packet_roundtrip_compressed_above_threshold() {
    let mut client = Client::dummy();
    client.set_compression(0);
    let data: Vec<u8> = (0..600u32).map(|i| (i % 7) as u8).collect();
    let packet = RawPacket::new(0x26, data.clone());
    let frame = packet.encode_with_len(&client).unwrap();
    // the uncompressed length 601 stands right after the frame length
    let (n, _) = read_var_int(&frame).unwrap();
    assert_eq!(read_var_int(&frame[n..]), Ok((2, 601)));
    assert!(frame.len() < 601);
    assert!(is_decodable_with_len(client.compressed(), &frame));
    let decoded = RawPacket::decode_with_len(&client, &frame).unwrap();
    assert_eq!(decoded.id, 0x26);
    assert_eq!(decoded.data, data);
}

#[test]
fn packet_decode_rejects_bad_compressed_length() {
    let mut client = Client::dummy();
    client.set_compression(0);
    // announces 5 bytes, but the zlib stream holds 3
    let mut contents = vec![5u8];
    contents.extend_from_slice(&[120, 156, 99, 96, 100, 2, 0, 0, 7, 0, 4]);
    assert!(RawPacket::decode_without_len(&client, &contents).is_err());
    // announces 3 bytes: id 0 and data [1, 2]
    contents[0] = 3;
    let decoded = RawPacket::decode_without_len(&client, &contents).unwrap();
    assert_eq!(decoded.id, 0);
    assert_eq!(decoded.data, vec![1, 2]);
    // not a zlib stream
    assert!(RawPacket::decode_without_len(&client, &[3, 1, 2, 3]).is_err());
}

#[test]
fn packet_id_is_low_byte() {
    let client = Client::dummy();
    // id 300 read as a packet id keeps its low byte
    let decoded = RawPacket::decode_without_len(&client, &[0xac, 0x02, 7]).unwrap();
    assert_eq!(decoded.id, 44);
    assert_eq!(decoded.data, vec![7]);
}

#[test]
fn frame_status_cases() {
    assert_eq!(frame_status(&[]), FrameStatus::Incomplete);
    assert_eq!(frame_status(&[3]), FrameStatus::Incomplete);
    assert_eq!(frame_status(&[3, 0, 1]), FrameStatus::Incomplete);
    assert_eq!(frame_status(&[3, 0, 1, 2, 9]), FrameStatus::Complete(4));
    assert_eq!(frame_status(&[0x80, 0x80]), FrameStatus::Malformed);
    assert_eq!(frame_status(&[0xff, 0xff, 0xff, 0xff, 0x0f]), FrameStatus::Malformed);
}

#[test]
fn frame_with_negative_data_length_is_not_decodable() {
    let frame = vec![6u8, 0xff, 0xff, 0xff, 0xff, 0x0f, 0];
    assert!(!is_decodable_with_len(0, &frame));
    assert!(is_decodable_with_len(-1, &frame));
}

#[test]
fn length_wraps_to_i32() {
    assert_eq!(len_as_i32(5), 5);
    assert_eq!(len_as_i32(0x8000_0000), i32::MIN);
}

#[test]
fn client_state_ids() {
    assert_eq!(ClientState::from_id(0), Some(ClientState::Handshake));
    assert_eq!(ClientState::from_id(1), Some(ClientState::Status));
    assert_eq!(ClientState::from_id(2), Some(ClientState::Login));
    assert_eq!(ClientState::from_id(3), None);
    assert_eq!(ClientState::from_id(-1), None);
    for state in [ClientState::Handshake, ClientState::Status, ClientState::Login] {
        assert_eq!(ClientState::from_id(state.to_id()), Some(state));
    }
    assert_eq!(ClientState::Play.to_id(), -1);
    assert_eq!(ClientState::default_state(), ClientState::Handshake);
}

#[test]
fn client_compression_and_state() {
    let mut client = Client::dummy();
    assert_eq!(client.peer, SocketAddress { ip: IpAddress::V4(0), port: 0 });
    assert!(!client.is_compressed());
    assert_eq!(client.compressed(), -1);
    client.set_compression(256);
    assert!(client.is_compressed());
    client.set_state(ClientState::Login);
    assert_eq!(client.state(), ClientState::Login);
}

#[test]
fn client_info_protocol() {
    let mut info = ClientInfo::empty();
    assert_eq!(info.protocol(), None);
    info.handshake = Some(Handshake {
        protocol_version: 765,
        server_addr: "localhost".to_string(),
        server_port: 25565,
        next_state: 2,
    });
    assert_eq!(info.protocol(), Some(765));
    info.protocol = Some(47);
    assert_eq!(info.protocol(), Some(47));
    info.protocol = None;
    info.handshake.as_mut().unwrap().protocol_version = -1;
    assert_eq!(info.protocol(), Some(u32::MAX));
}

#[test]
fn encoding_with_and_without_compression() {
    let c1 = Client::dummy();
    let mut c2 = Client::dummy();
    c2.set_compression(256);
    let p = RawPacket::new(0, vec![1, 2, 3]);
    assert_eq!(p.encode_without_len(&c1), Ok(vec![0, 1, 2, 3]));
    assert_eq!(p.encode_without_len(&c2), Ok(vec![0, 0, 1, 2, 3]));
    assert_eq!(p.encode_with_len(&c2), Ok(vec![5, 0, 0, 1, 2, 3]));
    let mut c3 = Client::dummy();
    c3.set_compression(0);
    let bytes = p.encode_without_len(&c3).unwrap();
    assert_eq!(bytes[0], 4);
    let back = RawPacket::decode_without_len(&c3, &bytes).unwrap();
    assert_eq!(back.id, 0);
    assert_eq!(back.data, vec![1, 2, 3]);
}
