//! Offline player UUIDs: a name-based (version 3) UUID of `OfflinePlayer:` and the user name,
//! as Java's `UUID.nameUUIDFromBytes` makes it.
use vstd::prelude::*;

use vstd::utf8::encode_utf8;

use crate::text::{append_chars, chars_of, string_of};

verus! {

/// The MD5 digest of `data`, as the `md-5` crate computes it.
pub uninterp spec fn md5_digest(data: Seq<u8>) -> Seq<u8>;

/// Hashes `data` with `md5::Md5` (crate `md-5`). Claimed: the 16 bytes are
/// `md5_digest(data)`.
#[verifier::external_body]
fn md5(data: &[u8]) -> (res: [u8; 16])
    ensures
        res@ == md5_digest(data@),
{
    <md5::Md5 as md5::Digest>::digest(data).into()
}

/// The UUID bytes made from a digest: version 3 in the high nibble of byte 6, the IETF
/// variant in the high bits of byte 8.
pub open spec fn name_uuid(digest: Seq<u8>) -> Seq<u8> {
    digest.update(6, ((digest[6] & 0x0f) | 0x30) as u8).update(8, ((digest[8] & 0x3f) | 0x80) as u8)
}

/// The name-based UUID of `data`.
pub fn java_name_uuid_from_bytes(data: &[u8]) -> (res: [u8; 16])
    ensures
        md5_digest(data@).len() == 16,
        res@ == name_uuid(md5_digest(data@)),
{
    let d = md5(data);
    let b6: u8 = (d[6] & 0x0f) | 0x30;
    let b8: u8 = (d[8] & 0x3f) | 0x80;
    let res: [u8; 16] = [d[0], d[1], d[2], d[3], d[4], d[5], b6, d[7], b8, d[9], d[10], d[11], d[12], d[13], d[14], d[15]];
    proof {
        assert(res@ =~= name_uuid(md5_digest(data@)));
    }
    res
}

/// The UUID of a player name: name-based, from its UTF-8 bytes.
pub fn player_uuid(username: &str) -> (res: [u8; 16])
    ensures
        md5_digest(encode_utf8(username@)).len() == 16,
        res@ == name_uuid(md5_digest(encode_utf8(username@))),
{
    java_name_uuid_from_bytes(username.as_bytes())
}

/// The text the offline UUID of `username` is made from.
pub open spec fn offline_name(username: Seq<char>) -> Seq<char> {
    "OfflinePlayer:"@ + username
}

/// The UUID an offline-mode server gives the player `username`.
pub fn offline_player_uuid(username: &str) -> (res: [u8; 16])
    ensures
        md5_digest(encode_utf8(offline_name(username@))).len() == 16,
        res@ == name_uuid(md5_digest(encode_utf8(offline_name(username@)))),
{
    let mut name = chars_of("OfflinePlayer:");
    let user = chars_of(username);
    append_chars(&mut name, user.as_slice());
    let full = string_of(name.as_slice());
    let s: &str = full.as_str();
    player_uuid(s)
}

} // verus!
