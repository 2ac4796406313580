//! Minecraft VarInt: a 32-bit integer written as little-endian groups of seven bits, each byte
//! but the last carrying the continuation bit `0x80`, at most five bytes long.
use vstd::prelude::*;

verus! {

/// The bit pattern of `i` read as an unsigned 32-bit number.
pub open spec fn i32_bits(i: i32) -> nat {
    if i >= 0 {
        i as nat
    } else {
        (i + 0x1_0000_0000) as nat
    }
}

/// The signed 32-bit number whose bit pattern is the low 32 bits of `v`.
pub open spec fn wrap_i32(v: nat) -> i32 {
    let m = v % 0x1_0000_0000;
    if m < 0x8000_0000 {
        m as i32
    } else {
        (m - 0x1_0000_0000) as i32
    }
}

/// The seven-bit groups of `v`, least significant first, with the continuation bit set on
/// every byte but the last.
pub open spec fn var_int_digits(v: nat) -> Seq<u8>
    decreases v,
{
    if v < 128 {
        seq![v as u8]
    } else {
        seq![(v % 128 + 128) as u8] + var_int_digits(v / 128)
    }
}

/// The VarInt bytes of `i`.
pub open spec fn var_int_encoding(i: i32) -> Seq<u8> {
    var_int_digits(i32_bits(i))
}

/// The number that the seven-bit groups of `s` stand for, least significant first.
pub open spec fn digits_value(s: Seq<u8>) -> nat
    decreases s.len(),
{
    if s.len() == 0 {
        0
    } else {
        (s[0] % 128) as nat + 128 * digits_value(s.drop_first())
    }
}

/// Length of the VarInt that starts at `buf[0]`, looking for its last byte from index `k` on:
/// the first byte without the continuation bit among the first five.
pub open spec fn var_int_end_from(buf: Seq<u8>, k: nat) -> Option<nat>
    decreases 5 - k,
{
    if k >= 5 || k >= buf.len() {
        None
    } else if buf[k as int] < 128 {
        Some(k + 1)
    } else {
        var_int_end_from(buf, k + 1)
    }
}

/// Length of the VarInt at the front of `buf`, if its last byte is among the first five.
pub open spec fn var_int_len(buf: Seq<u8>) -> Option<nat> {
    var_int_end_from(buf, 0)
}

/// The length and value of the VarInt at the front of `buf`.
pub open spec fn spec_read_var_int(buf: Seq<u8>) -> Option<(nat, i32)> {
    match var_int_len(buf) {
        Some(n) => Some((n, wrap_i32(digits_value(buf.take(n as int))))),
        None => None,
    }
}

proof fn lemma_end_from_bound(buf: Seq<u8>, k: nat)
    ensures
        var_int_end_from(buf, k) matches Some(n) ==> k < n <= 5 && n <= buf.len(),
    decreases 5 - k,
{
    if k < 5 && k < buf.len() && buf[k as int] >= 128 {
        lemma_end_from_bound(buf, k + 1);
    }
}

/// A VarInt that can be read takes one to five bytes of the buffer.
pub proof fn lemma_read_var_int_len(buf: Seq<u8>)
    ensures
        spec_read_var_int(buf) matches Some((n, _)) ==> 1 <= n <= 5 && n <= buf.len(),
{
    lemma_end_from_bound(buf, 0);
}

pub open spec fn pow128(k: nat) -> nat
    decreases k,
{
    if k == 0 {
        1
    } else {
        128 * pow128((k - 1) as nat)
    }
}

proof fn lemma_pow128_bounds(k: nat)
    requires
        k <= 5,
    ensures
        1 <= pow128(k) <= pow128(5),
        pow128(5) == 0x8_0000_0000,
        pow128(4) == 0x1000_0000,
    decreases 5 - k,
{
    reveal_with_fuel(pow128, 6);
    if k < 5 {
        lemma_pow128_bounds(k + 1);
    }
}

proof fn lemma_digits_value_step(s: Seq<u8>, i: int, n: int)
    requires
        0 < i <= n <= s.len(),
    ensures
        digits_value(s.subrange(i - 1, n)) == (s[i - 1] % 128) as nat + 128 * digits_value(
            s.subrange(i, n),
        ),
{
    assert(s.subrange(i - 1, n).drop_first() =~= s.subrange(i, n));
}

proof fn lemma_digits_value_bound(s: Seq<u8>)
    ensures
        digits_value(s) < pow128(s.len()),
    decreases s.len(),
{
    if s.len() > 0 {
        lemma_digits_value_bound(s.drop_first());
    }
}

/// Reads the VarInt at the front of `buf`: its length in bytes and its value. Only the first
/// five bytes are looked at; the VarInt ends at the first of them without the continuation bit.
pub fn read_var_int(buf: &[u8]) -> (res: Result<(usize, i32), ()>)
    ensures
        match spec_read_var_int(buf@) {
            Some((n, v)) => res matches Ok((m, w)) && m == n && w == v,
            None => res is Err,
        },
        res matches Ok((n, _)) ==> 1 <= n <= 5 && n <= buf@.len(),
{
    proof {
        lemma_read_var_int_len(buf@);
    }
    let max: usize = if buf.len() < 5 {
        buf.len()
    } else {
        5
    };
    let mut len: usize = 0;
    while len < max
        invariant
            max <= 5,
            max <= buf.len(),
            max == 5 || max == buf.len(),
            len <= max,
            var_int_len(buf@) == var_int_end_from(buf@, len as nat),
        decreases max - len,
    {
        if buf[len] < 128 {
            let n = len + 1;
            let mut acc: u64 = 0;
            let mut i: usize = n;
            proof {
                lemma_pow128_bounds(0);
            }
            while i > 0
                invariant
                    n <= 5,
                    n <= buf.len(),
                    i <= n,
                    acc == digits_value(buf@.subrange(i as int, n as int)),
                    acc < pow128((n - i) as nat),
                decreases i,
            {
                proof {
                    lemma_digits_value_step(buf@, i as int, n as int);
                    lemma_pow128_bounds((n - i) as nat);
                    lemma_pow128_bounds((n - i + 1) as nat);
                }
                i = i - 1;
                acc = acc * 128 + (buf[i] % 128) as u64;
            }
            proof {
                assert(buf@.subrange(0, n as int) =~= buf@.take(n as int));
            }
            let m: u64 = acc % 0x1_0000_0000;
            let v: i32 = if m < 0x8000_0000 {
                m as i32
            } else {
                (m as i64 - 0x1_0000_0000) as i32
            };
            return Ok((n, v));
        }
        len = len + 1;
    }
    Err(())
}

/// Writes `i` as a VarInt. Writing into a growable buffer does not fail.
pub fn encode_var_int(i: i32) -> (res: Result<Vec<u8>, ()>)
    ensures
        res matches Ok(bytes) && bytes@ == var_int_encoding(i),
{
    let mut v: u32 = if i >= 0 {
        i as u32
    } else {
        (i as i64 + 0x1_0000_0000) as u32
    };
    let mut out: Vec<u8> = Vec::new();
    while v >= 128
        invariant
            out@ + var_int_digits(v as nat) == var_int_encoding(i),
        decreases v,
    {
        let ghost old_out = out@;
        proof {
            assert(var_int_digits(v as nat) == seq![(v % 128 + 128) as u8] + var_int_digits(
                (v / 128) as nat,
            ));
            assert(old_out + var_int_digits(v as nat) =~= old_out.push((v % 128 + 128) as u8)
                + var_int_digits((v / 128) as nat));
        }
        out.push((v % 128 + 128) as u8);
        v = v / 128;
    }
    proof {
        assert(out@ + var_int_digits(v as nat) =~= out@.push(v as u8));
    }
    out.push(v as u8);
    Ok(out)
}

/// Decoding the VarInt bytes of a number gives back the number.
pub proof fn lemma_digits_value_of_digits(v: nat)
    ensures
        digits_value(var_int_digits(v)) == v,
    decreases v,
{
    let s = var_int_digits(v);
    if v >= 128 {
        lemma_digits_value_of_digits(v / 128);
        assert(s.drop_first() =~= var_int_digits(v / 128));
        assert(s[0] == (v % 128 + 128) as u8);
        assert((s[0] % 128) as nat == v % 128);
        assert(s.len() > 0);
        assert(digits_value(s) == (s[0] % 128) as nat + 128 * digits_value(s.drop_first()));
        assert(v == 128 * (v / 128) + v % 128);
    } else {
        assert(s.drop_first() =~= Seq::<u8>::empty());
        assert(s[0] == v as u8);
        assert(s.len() == 1);
        assert(digits_value(s) == (s[0] % 128) as nat + 128 * digits_value(s.drop_first()));
    }
}

/// Every byte of an encoding but the last carries the continuation bit, and a number below
/// `128^k` (`k >= 1`) takes at most `k` bytes.
pub proof fn lemma_digits_shape(v: nat, k: nat)
    requires
        k >= 1,
        v < pow128(k),
    ensures
        1 <= var_int_digits(v).len() <= k,
        var_int_digits(v)[var_int_digits(v).len() - 1] < 128,
        forall|j: int| 0 <= j < var_int_digits(v).len() - 1 ==> var_int_digits(v)[j] >= 128,
    decreases v,
{
    if v >= 128 {
        assert(pow128(k) == 128 * pow128((k - 1) as nat));
        if k == 1 {
            assert(pow128(0) == 1);
        }
        lemma_digits_shape(v / 128, (k - 1) as nat);
        let s = var_int_digits(v);
        let t = var_int_digits(v / 128);
        assert(s =~= seq![(v % 128 + 128) as u8] + t);
        assert forall|j: int| 0 <= j < s.len() - 1 implies s[j] >= 128 by {
            if j > 0 {
                assert(s[j] == t[j - 1]);
            }
        }
    }
}

proof fn lemma_end_from(s: Seq<u8>, len: nat, k: nat)
    requires
        1 <= len <= 5,
        len <= s.len(),
        k < len,
        s[len - 1] < 128,
        forall|j: int| 0 <= j < len - 1 ==> s[j] >= 128,
    ensures
        var_int_end_from(s, k) == Some(len),
    decreases len - k,
{
    if k + 1 < len {
        lemma_end_from(s, len, k + 1);
    }
}

/// The bit pattern of a number read back as a signed number is the number.
pub proof fn lemma_wrap_bits(i: i32)
    ensures
        wrap_i32(i32_bits(i)) == i,
        i32_bits(i) < 0x1_0000_0000,
{
}

/// A VarInt read from the front of a buffer that starts with the encoding of `i` is `i`, and
/// it takes exactly the bytes of the encoding, one to five of them.
pub proof fn lemma_var_int_roundtrip(i: i32, rest: Seq<u8>)
    ensures
        spec_read_var_int(var_int_encoding(i) + rest) == Some(
            (var_int_encoding(i).len(), i),
        ),
        1 <= var_int_encoding(i).len() <= 5,
{
    let enc = var_int_encoding(i);
    let s = enc + rest;
    lemma_pow128_bounds(5);
    lemma_digits_shape(i32_bits(i), 5);
    lemma_end_from(s, enc.len(), 0);
    assert(s.take(enc.len() as int) =~= enc);
    lemma_digits_value_of_digits(i32_bits(i));
    lemma_wrap_bits(i);
}

} // verus!
