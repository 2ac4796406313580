//! Raw packets and their framing: a packet is its id as a VarInt followed by its data; a frame
//! is a VarInt length followed by that many bytes. With compression on, a packet whose
//! id-and-data is longer than the threshold is zlib-compressed behind its uncompressed length,
//! and a shorter one is sent as is behind a zero.
use vstd::prelude::*;
use vstd::slice::{slice_subrange, slice_to_vec};

use crate::proto::client::Client;
use crate::types::{
    encode_var_int, i32_bits, lemma_var_int_roundtrip, read_var_int, spec_read_var_int,
    var_int_encoding, wrap_i32,
};

verus! {

/// What flate2's `ZlibEncoder` at the default level writes for `data`.
pub uninterp spec fn zlib_deflate(data: Seq<u8>) -> Seq<u8>;

/// What flate2's `ZlibDecoder` reads out of `data` to its end, if it reads without error.
pub uninterp spec fn zlib_inflate(data: Seq<u8>) -> Option<Seq<u8>>;

/// Compresses `data` with flate2's `ZlibEncoder` (default level) into a `Vec`. Claimed: the
/// output is `zlib_deflate(data)`, and it always comes: as flate2's source shows, the encoder
/// writes into the `Vec`, which does not fail, and compressing a well-formed stream reports
/// no error.
#[verifier::external_body]
fn zlib_compress(data: &[u8]) -> (res: Option<Vec<u8>>)
    ensures
        res is Some,
        res matches Some(out) ==> out@ == zlib_deflate(data@),
{
    let mut encoder = flate2::write::ZlibEncoder::new(Vec::new(), flate2::Compression::default());
    match std::io::Write::write_all(&mut encoder, data) {
        Ok(()) => encoder.finish().ok(),
        Err(_) => None,
    }
}

/// Decompresses `data` with flate2's `ZlibDecoder` and `read_to_end`. Claimed: the result is
/// `zlib_inflate(data)`, and zlib is lossless: what `zlib_deflate` made of some bytes is read
/// back as those bytes.
#[verifier::external_body]
fn zlib_decompress(data: &[u8]) -> (res: Option<Vec<u8>>)
    ensures
        res matches Some(out) ==> zlib_inflate(data@) == Some(out@),
        res is None ==> zlib_inflate(data@) is None,
        res is None ==> forall|d: Seq<u8>| #[trigger] zlib_deflate(d) != data@,
        res matches Some(out) ==> forall|d: Seq<u8>| #[trigger] zlib_deflate(d) == data@ ==> out@ == d,
{
    let mut out = Vec::new();
    match std::io::Read::read_to_end(&mut flate2::read::ZlibDecoder::new(data), &mut out) {
        Ok(_) => Some(out),
        Err(_) => None,
    }
}

/// The low byte of a packet id.
pub open spec fn id_byte(id: i32) -> u8 {
    (i32_bits(id) % 256) as u8
}

/// A packet id and its data, read from `buf`: a VarInt id and all bytes after it.
pub open spec fn spec_read_packet_id_data(buf: Seq<u8>) -> Option<(u8, Seq<u8>)> {
    match spec_read_var_int(buf) {
        Some((n, id)) => Some((id_byte(id), buf.skip(n as int))),
        None => None,
    }
}

/// A packet read from a frame's contents, for a connection whose compression threshold is
/// `compression` (negative: off).
pub open spec fn spec_decode_without_len(compression: i32, buf: Seq<u8>) -> Option<(u8, Seq<u8>)> {
    if compression < 0 {
        spec_read_packet_id_data(buf)
    } else {
        match spec_read_var_int(buf) {
            None => None,
            Some((n, data_len)) => {
                let rest = buf.skip(n as int);
                if data_len == 0 {
                    spec_read_packet_id_data(rest)
                } else {
                    match zlib_inflate(rest) {
                        Some(d) => if d.len() == data_len {
                            spec_read_packet_id_data(d)
                        } else {
                            None
                        },
                        None => None,
                    }
                }
            },
        }
    }
}

/// A frame's contents can be decoded without a panic: with compression on, the uncompressed
/// length it announces is not negative.
pub open spec fn decodable_without_len(compression: i32, buf: Seq<u8>) -> bool {
    compression >= 0 ==> (spec_read_var_int(buf) matches Some((_, data_len)) ==> data_len >= 0)
}

/// A packet read from a whole frame: a VarInt length, then that many bytes of contents.
pub open spec fn spec_decode_with_len(compression: i32, buf: Seq<u8>) -> Option<(u8, Seq<u8>)> {
    match spec_read_var_int(buf) {
        Some((n, len)) => spec_decode_without_len(
            compression,
            buf.subrange(n as int, n + len),
        ),
        None => None,
    }
}

/// A whole frame can be decoded without a panic: the length it announces is not negative,
/// the contents are all there, and they can be decoded.
pub open spec fn decodable_with_len(compression: i32, buf: Seq<u8>) -> bool {
    spec_read_var_int(buf) matches Some((n, len)) ==> {
        &&& 0 <= len
        &&& n + len <= buf.len()
        &&& decodable_without_len(compression, buf.subrange(n as int, n + len))
    }
}

/// A packet id followed by its data.
pub open spec fn spec_encode_uncompressed(id: u8, data: Seq<u8>) -> Seq<u8> {
    var_int_encoding(id as i32) + data
}

/// A packet for a connection with compression threshold `threshold`: compressed behind its
/// length when that is over the threshold, else behind a zero.
pub open spec fn spec_encode_compressed(threshold: i32, id: u8, data: Seq<u8>) -> Seq<u8> {
    let payload = spec_encode_uncompressed(id, data);
    let data_len = wrap_i32(payload.len());
    if data_len > threshold {
        var_int_encoding(data_len) + zlib_deflate(payload)
    } else {
        var_int_encoding(0) + payload
    }
}

/// A packet's frame contents, for a connection with compression threshold `compression`.
pub open spec fn spec_encode_without_len(compression: i32, id: u8, data: Seq<u8>) -> Seq<u8> {
    if compression >= 0 {
        spec_encode_compressed(compression, id, data)
    } else {
        spec_encode_uncompressed(id, data)
    }
}

/// A packet's whole frame: the contents behind their length.
pub open spec fn spec_encode_with_len(compression: i32, id: u8, data: Seq<u8>) -> Seq<u8> {
    let payload = spec_encode_without_len(compression, id, data);
    var_int_encoding(wrap_i32(payload.len())) + payload
}

/// A length written as a signed 32-bit number: its low 32 bits.
pub fn len_as_i32(n: usize) -> (res: i32)
    ensures
        res == wrap_i32(n as nat),
{
    let m: u64 = (n as u64) % 0x1_0000_0000;
    if m < 0x8000_0000 {
        m as i32
    } else {
        (m as i64 - 0x1_0000_0000) as i32
    }
}

fn id_to_u8(id: i32) -> (res: u8)
    ensures
        res == id_byte(id),
{
    let bits: u32 = if id >= 0 {
        id as u32
    } else {
        (id as i64 + 0x1_0000_0000) as u32
    };
    (bits % 256) as u8
}

fn concat(a: Vec<u8>, b: &[u8]) -> (res: Vec<u8>)
    ensures
        res@ == a@ + b@,
{
    let mut out = a;
    let mut tail = slice_to_vec(b);
    out.append(&mut tail);
    out
}

/// A raw packet: its id and the bytes of its data.
#[derive(Debug)]
pub struct RawPacket {
    pub id: u8,
    pub data: Vec<u8>,
}

impl RawPacket {
    pub fn new(id: u8, data: Vec<u8>) -> (res: RawPacket)
        ensures
            res.id == id,
            res.data == data,
    {
        RawPacket { id, data }
    }

    fn read_packet_id_data(buf: &[u8]) -> (res: Result<RawPacket, ()>)
        ensures
            match spec_read_packet_id_data(buf@) {
                Some((id, data)) => res matches Ok(p) && p.id == id && p.data@ == data,
                None => res is Err,
            },
    {
        let (read, packet_id) = read_var_int(buf)?;
        let rest = slice_subrange(buf, read, buf.len());
        proof {
            assert(rest@ =~= buf@.skip(read as int));
        }
        Ok(RawPacket::new(id_to_u8(packet_id), slice_to_vec(rest)))
    }

    /// Decodes a whole frame: its length, then the packet in it. A frame written for a packet
    /// (shorter than `2^31` bytes) decodes back to that packet.
    pub fn decode_with_len(client: &Client, buf: &[u8]) -> (res: Result<RawPacket, ()>)
        requires
            decodable_with_len(client.compression, buf@),
        ensures
            match spec_decode_with_len(client.compression, buf@) {
                Some((id, data)) => res matches Ok(p) && p.id == id && p.data@ == data,
                None => res is Err,
            },
            forall|id: u8, data: Seq<u8>|
                #![trigger spec_encode_with_len(client.compression, id, data)]
                spec_encode_uncompressed(id, data).len() < 0x8000_0000
                    && spec_encode_without_len(client.compression, id, data).len() < 0x8000_0000
                    && buf@ == spec_encode_with_len(client.compression, id, data) ==> (res matches Ok(
                    p,
                ) && p.id == id && p.data@ == data),
    {
        let ghost c = client.compression;
        let (read, len) = match read_var_int(buf) {
            Ok(r) => r,
            Err(()) => {
                proof {
                    assert forall|id: u8, data: Seq<u8>|
                        spec_encode_uncompressed(id, data).len() < 0x8000_0000
                            && spec_encode_without_len(c, id, data).len() < 0x8000_0000 && buf@
                            == #[trigger] spec_encode_with_len(c, id, data) implies false by {
                        lemma_frame_roundtrip(c, spec_encode_without_len(c, id, data));
                    }
                }
                return Err(());
            },
        };
        let contents = slice_subrange(buf, read, read + len as usize);
        proof {
            assert forall|id: u8, data: Seq<u8>|
                spec_encode_uncompressed(id, data).len() < 0x8000_0000
                    && spec_encode_without_len(c, id, data).len() < 0x8000_0000 && buf@
                    == #[trigger] spec_encode_with_len(c, id, data) implies contents@
                == spec_encode_without_len(c, id, data) by {
                lemma_frame_roundtrip(c, spec_encode_without_len(c, id, data));
            }
        }
        RawPacket::decode_without_len(client, contents)
    }

    /// Decodes a frame's contents into a packet. Contents written for a packet (shorter than
    /// `2^31` bytes before compression) decode back to that packet.
    pub fn decode_without_len(client: &Client, buf: &[u8]) -> (res: Result<RawPacket, ()>)
        requires
            decodable_without_len(client.compression, buf@),
        ensures
            match spec_decode_without_len(client.compression, buf@) {
                Some((id, data)) => res matches Ok(p) && p.id == id && p.data@ == data,
                None => res is Err,
            },
            forall|id: u8, data: Seq<u8>|
                #![trigger spec_encode_without_len(client.compression, id, data)]
                spec_encode_uncompressed(id, data).len() < 0x8000_0000 && buf@
                    == spec_encode_without_len(client.compression, id, data) ==> (res matches Ok(p)
                    && p.id == id && p.data@ == data),
    {
        let ghost c = client.compression;
        if !client.is_compressed() {
            proof {
                assert forall|id: u8, data: Seq<u8>|
                    spec_encode_uncompressed(id, data).len() < 0x8000_0000 && buf@
                        == #[trigger] spec_encode_without_len(c, id, data) implies spec_decode_without_len(
                    c,
                    buf@,
                ) == Some((id, data)) by {
                    lemma_contents_roundtrip(c, id, data);
                }
            }
            return RawPacket::read_packet_id_data(buf);
        }
        let (read, data_len) = match read_var_int(buf) {
            Ok(r) => r,
            Err(()) => {
                proof {
                    assert forall|id: u8, data: Seq<u8>|
                        spec_encode_uncompressed(id, data).len() < 0x8000_0000 && buf@
                            == #[trigger] spec_encode_without_len(c, id, data) implies false by {
                        lemma_compressed_header(c, id, data);
                    }
                }
                return Err(());
            },
        };
        let rest = slice_subrange(buf, read, buf.len());
        proof {
            assert(rest@ =~= buf@.skip(read as int));
        }
        if data_len == 0 {
            proof {
                assert forall|id: u8, data: Seq<u8>|
                    spec_encode_uncompressed(id, data).len() < 0x8000_0000 && buf@
                        == #[trigger] spec_encode_without_len(c, id, data) implies spec_decode_without_len(
                    c,
                    buf@,
                ) == Some((id, data)) by {
                    lemma_compressed_header(c, id, data);
                    lemma_contents_roundtrip(c, id, data);
                }
            }
            return RawPacket::read_packet_id_data(rest);
        }
        let decompressed = match zlib_decompress(rest) {
            Some(d) => d,
            None => {
                proof {
                    assert forall|id: u8, data: Seq<u8>|
                        spec_encode_uncompressed(id, data).len() < 0x8000_0000 && buf@
                            == #[trigger] spec_encode_without_len(c, id, data) implies false by {
                        lemma_compressed_header(c, id, data);
                    }
                }
                return Err(());
            },
        };
        if decompressed.len() != data_len as usize {
            proof {
                assert forall|id: u8, data: Seq<u8>|
                    spec_encode_uncompressed(id, data).len() < 0x8000_0000 && buf@
                        == #[trigger] spec_encode_without_len(c, id, data) implies false by {
                    lemma_compressed_header(c, id, data);
                }
            }
            return Err(());
        }
        proof {
            assert forall|id: u8, data: Seq<u8>|
                spec_encode_uncompressed(id, data).len() < 0x8000_0000 && buf@
                    == #[trigger] spec_encode_without_len(c, id, data) implies spec_decode_without_len(
                c,
                buf@,
            ) == Some((id, data)) by {
                lemma_compressed_header(c, id, data);
                lemma_contents_roundtrip(c, id, data);
            }
        }
        RawPacket::read_packet_id_data(decompressed.as_slice())
    }

    /// Encodes this packet as a whole frame for `client`.
    pub fn encode_with_len(&self, client: &Client) -> (res: Result<Vec<u8>, ()>)
        ensures
            res matches Ok(bytes) ==> bytes@ == spec_encode_with_len(
                client.compression,
                self.id,
                self.data@,
            ),
            res is Ok,
            res matches Ok(bytes) ==> (spec_encode_without_len(
                client.compression,
                self.id,
                self.data@,
            ).len() < 0x8000_0000 ==> decodable_with_len(client.compression, bytes@)),
    {
        let payload = self.encode_without_len(client)?;
        proof {
            lemma_encoding_decodable(client.compression, self.id, self.data@);
            let contents = payload@;
            if contents.len() < 0x8000_0000 {
                let len = wrap_i32(contents.len());
                assert(len == contents.len());
                lemma_var_int_roundtrip(len, contents);
                let head = var_int_encoding(len);
                assert((head + contents).subrange(head.len() as int, head.len() + len)
                    =~= contents);
            }
        }
        let header = encode_var_int(len_as_i32(payload.len()))?;
        Ok(concat(header, payload.as_slice()))
    }

    /// Encodes this packet as a frame's contents for `client`.
    pub fn encode_without_len(&self, client: &Client) -> (res: Result<Vec<u8>, ()>)
        ensures
            res matches Ok(bytes) ==> bytes@ == spec_encode_without_len(
                client.compression,
                self.id,
                self.data@,
            ),
            res is Ok,
            res matches Ok(bytes) ==> decodable_without_len(client.compression, bytes@),
    {
        proof {
            lemma_encoding_decodable(client.compression, self.id, self.data@);
        }
        let threshold = client.compressed();
        if threshold >= 0 {
            self.encode_compressed(threshold)
        } else {
            self.encode_uncompressed()
        }
    }

    fn encode_compressed(&self, threshold: i32) -> (res: Result<Vec<u8>, ()>)
        ensures
            res matches Ok(bytes) ==> bytes@ == spec_encode_compressed(threshold, self.id, self.data@),
            res is Ok,
    {
        let payload = self.encode_uncompressed()?;
        let data_len = len_as_i32(payload.len());
        let compress = data_len > threshold;
        let data_len_header = if compress {
            data_len
        } else {
            0
        };
        let body = if compress {
            match zlib_compress(payload.as_slice()) {
                Some(c) => c,
                None => return Err(()),
            }
        } else {
            payload
        };
        let header = encode_var_int(data_len_header)?;
        Ok(concat(header, body.as_slice()))
    }

    fn encode_uncompressed(&self) -> (res: Result<Vec<u8>, ()>)
        ensures
            res matches Ok(bytes) && bytes@ == spec_encode_uncompressed(self.id, self.data@),
    {
        let header = encode_var_int(self.id as i32)?;
        Ok(concat(header, self.data.as_slice()))
    }
}

/// What the bytes buffered from a connection hold so far.
#[derive(Clone, Copy, Debug, PartialEq, Eq, Structural)]
pub enum FrameStatus {
    /// Not enough bytes yet for a frame.
    Incomplete,
    /// The frame length cannot be read, or is negative.
    Malformed,
    /// A whole frame of this many bytes, length included, is at the front.
    Complete(usize),
}

pub open spec fn spec_frame_status(buf: Seq<u8>) -> FrameStatus {
    if buf.len() < 2 {
        FrameStatus::Incomplete
    } else {
        match spec_read_var_int(buf) {
            None => FrameStatus::Malformed,
            Some((n, len)) => if len < 0 {
                FrameStatus::Malformed
            } else if buf.len() < n + len {
                FrameStatus::Incomplete
            } else {
                FrameStatus::Complete((n + len) as usize)
            },
        }
    }
}

/// Whether the bytes buffered from a connection begin with a whole frame: at least two bytes
/// must have arrived before the length is read.
pub fn frame_status(buf: &[u8]) -> (res: FrameStatus)
    ensures
        res == spec_frame_status(buf@),
{
    if buf.len() < 2 {
        return FrameStatus::Incomplete;
    }
    match read_var_int(buf) {
        Err(()) => FrameStatus::Malformed,
        Ok((consumed, len)) => {
            if len < 0 {
                FrameStatus::Malformed
            } else if buf.len() < consumed + len as usize {
                FrameStatus::Incomplete
            } else {
                FrameStatus::Complete(consumed + len as usize)
            }
        },
    }
}

/// Whether a whole frame can be decoded for a connection with compression threshold
/// `compression`.
pub fn is_decodable_with_len(compression: i32, buf: &[u8]) -> (res: bool)
    ensures
        res == decodable_with_len(compression, buf@),
{
    match read_var_int(buf) {
        Err(()) => true,
        Ok((n, len)) => {
            if len < 0 || buf.len() - n < len as usize {
                return false;
            }
            if compression < 0 {
                return true;
            }
            let contents = slice_subrange(buf, n, n + len as usize);
            match read_var_int(contents) {
                Err(()) => true,
                Ok((_, data_len)) => data_len >= 0,
            }
        },
    }
}

/// A whole frame at the front of `buf`, if any, can be decoded with compression threshold
/// `compression`.
pub open spec fn frame_decodable(compression: i32, buf: Seq<u8>) -> bool {
    match spec_frame_status(buf) {
        FrameStatus::Complete(k) => decodable_with_len(compression, buf.take(k as int)),
        _ => true,
    }
}

/// Whether a whole frame at the front of `buf`, if any, can be decoded.
pub fn is_frame_decodable(compression: i32, buf: &[u8]) -> (res: bool)
    ensures
        res == frame_decodable(compression, buf@),
{
    match frame_status(buf) {
        FrameStatus::Complete(k) => {
            let frame = slice_subrange(buf, 0, k);
            assert(frame@ == buf@.take(k as int));
            is_decodable_with_len(compression, frame)
        },
        _ => true,
    }
}

/// What the front of the bytes buffered from a connection yields.
#[derive(Debug)]
pub enum PacketRead {
    /// No whole frame yet: more bytes are needed.
    Incomplete,
    /// The frame's length cannot be read or is negative, or its packet cannot be decoded.
    Malformed,
    /// A packet, with the raw bytes of its frame.
    Packet(RawPacket, Vec<u8>),
}

/// Takes the frame at the front of `buf` off it and decodes its packet. The buffer is left
/// as it is until a whole frame has arrived, and while its length is malformed.
pub fn take_packet(client: &Client, buf: &mut Vec<u8>) -> (res: PacketRead)
    requires
        frame_decodable(client.compression, old(buf)@),
    ensures
        match spec_frame_status(old(buf)@) {
            FrameStatus::Incomplete => res is Incomplete && final(buf)@ == old(buf)@,
            FrameStatus::Malformed => res is Malformed && final(buf)@ == old(buf)@,
            FrameStatus::Complete(k) => {
                &&& final(buf)@ == old(buf)@.skip(k as int)
                &&& match spec_decode_with_len(client.compression, old(buf)@.take(k as int)) {
                    Some((id, data)) => res matches PacketRead::Packet(p, raw) && p.id == id
                        && p.data@ == data && raw@ == old(buf)@.take(k as int),
                    None => res is Malformed,
                }
            },
        },
{
    match frame_status(buf.as_slice()) {
        FrameStatus::Incomplete => PacketRead::Incomplete,
        FrameStatus::Malformed => PacketRead::Malformed,
        FrameStatus::Complete(k) => {
            let mut rest = buf.split_off(k);
            std::mem::swap(buf, &mut rest);
            let raw = rest;
            match RawPacket::decode_with_len(client, raw.as_slice()) {
                Ok(packet) => PacketRead::Packet(packet, raw),
                Err(()) => PacketRead::Malformed,
            }
        },
    }
}

/// Decoding what encoding wrote gives back the packet, for any compression threshold, as
/// long as the packet and its frame contents are shorter than `2^31` bytes and zlib reads
/// back what it wrote. The decompression wrapper states the latter of every buffer it is
/// called on, so `decode_without_len` and `decode_with_len` state the round trip without
/// this premise.
pub proof fn lemma_packet_roundtrip(compression: i32, id: u8, data: Seq<u8>)
    requires
        spec_encode_uncompressed(id, data).len() < 0x8000_0000,
        spec_encode_without_len(compression, id, data).len() < 0x8000_0000,
        zlib_inflate(zlib_deflate(spec_encode_uncompressed(id, data))) == Some(
            spec_encode_uncompressed(id, data),
        ),
    ensures
        decodable_without_len(compression, spec_encode_without_len(compression, id, data)),
        spec_decode_without_len(compression, spec_encode_without_len(compression, id, data))
            == Some((id, data)),
        decodable_with_len(compression, spec_encode_with_len(compression, id, data)),
        spec_decode_with_len(compression, spec_encode_with_len(compression, id, data)) == Some(
            (id, data),
        ),
{
    lemma_contents_roundtrip(compression, id, data);
    let contents = spec_encode_without_len(compression, id, data);
    lemma_frame_roundtrip(compression, contents);
    let frame = spec_encode_with_len(compression, id, data);
    assert(frame.len() == var_int_encoding(wrap_i32(contents.len())).len() + contents.len());
}

/// A frame written for a packet, followed by any bytes, is taken off a connection's buffer
/// as a whole frame that decodes to that packet: what one side writes, the other reads back,
/// under the same conditions as the packet round trip.
pub proof fn lemma_frame_read_back(compression: i32, id: u8, data: Seq<u8>, rest: Seq<u8>)
    requires
        spec_encode_uncompressed(id, data).len() < 0x8000_0000,
        spec_encode_without_len(compression, id, data).len() < 0x8000_0000,
        zlib_inflate(zlib_deflate(spec_encode_uncompressed(id, data))) == Some(
            spec_encode_uncompressed(id, data),
        ),
    ensures
        ({
            let frame = spec_encode_with_len(compression, id, data);
            &&& spec_frame_status(frame + rest) == FrameStatus::Complete(frame.len() as usize)
            &&& frame_decodable(compression, frame + rest)
            &&& spec_decode_with_len(compression, (frame + rest).take(frame.len() as int))
                == Some((id, data))
        }),
{
    let frame = spec_encode_with_len(compression, id, data);
    let buf = frame + rest;
    assert(buf.take(frame.len() as int) =~= frame);
    assert(spec_frame_status(buf) == FrameStatus::Complete(frame.len() as usize)) by {
        lemma_frame_front(spec_encode_without_len(compression, id, data), rest);
        lemma_contents_nonempty(compression, id, data);
    }
    lemma_packet_roundtrip(compression, id, data);
    assert(decodable_with_len(compression, buf.take(frame.len() as int)));
    assert((frame.len() as usize) as int == frame.len()) by {
        let contents = spec_encode_without_len(compression, id, data);
        lemma_var_int_roundtrip(wrap_i32(contents.len()), contents);
    }
    assert(frame_decodable(compression, buf));
    assert(spec_decode_with_len(compression, buf.take(frame.len() as int)) == Some((id, data)));
}

/// The contents of a frame hold at least the packet id.
proof fn lemma_contents_nonempty(compression: i32, id: u8, data: Seq<u8>)
    ensures
        spec_encode_without_len(compression, id, data).len() >= 1,
{
    lemma_var_int_roundtrip(id as i32, data);
    let payload = spec_encode_uncompressed(id, data);
    lemma_var_int_roundtrip(wrap_i32(payload.len()), zlib_deflate(payload));
    lemma_var_int_roundtrip(0, payload);
}

/// A buffer that starts with a frame of `contents` is read as a frame of that length.
proof fn lemma_frame_front(contents: Seq<u8>, rest: Seq<u8>)
    requires
        contents.len() < 0x8000_0000,
    ensures
        ({
            let frame = var_int_encoding(wrap_i32(contents.len())) + contents;
            contents.len() >= 1 ==> spec_frame_status(frame + rest) == FrameStatus::Complete(
                frame.len() as usize,
            )
        }),
{
    let len = wrap_i32(contents.len());
    assert(len == contents.len());
    let head = var_int_encoding(len);
    lemma_var_int_roundtrip(len, contents + rest);
    assert((head + contents) + rest =~= head + (contents + rest));
}

/// Encoding a packet for a connection with compression threshold `compression` compresses it.
pub open spec fn compresses(compression: i32, id: u8, data: Seq<u8>) -> bool {
    compression >= 0 && wrap_i32(spec_encode_uncompressed(id, data).len()) > compression
}

/// zlib reads `x` back as whatever it was deflated from.
pub open spec fn zlib_reads_back(x: Seq<u8>) -> bool {
    forall|d: Seq<u8>| #[trigger] zlib_deflate(d) == x ==> zlib_inflate(x) == Some(d)
}

/// The contents written for a packet can always be decoded without a panic.
proof fn lemma_encoding_decodable(compression: i32, id: u8, data: Seq<u8>)
    ensures
        decodable_without_len(compression, spec_encode_without_len(compression, id, data)),
{
    if compression >= 0 {
        let payload = spec_encode_uncompressed(id, data);
        lemma_var_int_roundtrip(wrap_i32(payload.len()), zlib_deflate(payload));
        lemma_var_int_roundtrip(0, payload);
    }
}

/// With compression on, the contents written for a packet start with the uncompressed length
/// (zero when left uncompressed), followed by the deflated or plain packet.
proof fn lemma_compressed_header(compression: i32, id: u8, data: Seq<u8>)
    requires
        compression >= 0,
        spec_encode_uncompressed(id, data).len() < 0x8000_0000,
    ensures
        ({
            let payload = spec_encode_uncompressed(id, data);
            let h: i32 = if compresses(compression, id, data) {
                wrap_i32(payload.len())
            } else {
                0
            };
            let enc = spec_encode_without_len(compression, id, data);
            let n = var_int_encoding(h).len();
            &&& spec_read_var_int(enc) == Some((n, h))
            &&& compresses(compression, id, data) ==> h != 0 && h == payload.len() && enc.skip(
                n as int,
            ) == zlib_deflate(payload)
            &&& !compresses(compression, id, data) ==> h == 0 && enc.skip(n as int) == payload
        }),
{
    let payload = spec_encode_uncompressed(id, data);
    let len = wrap_i32(payload.len());
    assert(len == payload.len());
    if compresses(compression, id, data) {
        let z = zlib_deflate(payload);
        lemma_var_int_roundtrip(len, z);
        assert((var_int_encoding(len) + z).skip(var_int_encoding(len).len() as int) =~= z);
    } else {
        lemma_var_int_roundtrip(0, payload);
        assert((var_int_encoding(0) + payload).skip(var_int_encoding(0).len() as int)
            =~= payload);
    }
}


proof fn lemma_contents_roundtrip(compression: i32, id: u8, data: Seq<u8>)
    requires
        spec_encode_uncompressed(id, data).len() < 0x8000_0000,
        compresses(compression, id, data) ==> zlib_inflate(
            zlib_deflate(spec_encode_uncompressed(id, data)),
        ) == Some(spec_encode_uncompressed(id, data)),
    ensures
        decodable_without_len(compression, spec_encode_without_len(compression, id, data)),
        spec_decode_without_len(compression, spec_encode_without_len(compression, id, data))
            == Some((id, data)),
{
    let payload = spec_encode_uncompressed(id, data);
    lemma_read_id_data(id, data);
    if compression >= 0 {
        let data_len = wrap_i32(payload.len());
        assert(data_len == payload.len());
        if data_len > compression {
            let z = zlib_deflate(payload);
            lemma_var_int_roundtrip(data_len, z);
            assert((var_int_encoding(data_len) + z).skip(var_int_encoding(data_len).len() as int)
                =~= z);
        } else {
            lemma_var_int_roundtrip(0, payload);
            assert((var_int_encoding(0) + payload).skip(var_int_encoding(0).len() as int)
                =~= payload);
        }
    }
}

proof fn lemma_frame_roundtrip(compression: i32, contents: Seq<u8>)
    requires
        contents.len() < 0x8000_0000,
    ensures
        spec_read_var_int(var_int_encoding(wrap_i32(contents.len())) + contents) matches Some(
            (n, len),
        ) && len == contents.len() && n + len == var_int_encoding(wrap_i32(contents.len())).len()
            + contents.len() && (var_int_encoding(wrap_i32(contents.len()))
            + contents).subrange(n as int, n + len) == contents,
{
    let len = wrap_i32(contents.len());
    assert(len == contents.len());
    lemma_var_int_roundtrip(len, contents);
    let n = var_int_encoding(len).len();
    assert((var_int_encoding(len) + contents).subrange(n as int, n + len) =~= contents);
}

proof fn lemma_read_id_data(id: u8, data: Seq<u8>)
    ensures
        spec_read_packet_id_data(spec_encode_uncompressed(id, data)) == Some((id, data)),
{
    lemma_var_int_roundtrip(id as i32, data);
    let enc = var_int_encoding(id as i32);
    assert((enc + data).skip(enc.len() as int) =~= data);
    assert(i32_bits(id as i32) == id);
}

} // verus!
