//! The encoding of integers and byte strings. The integers are encoded and
//! decoded by `parity_scale_codec`; what it writes and accepts is stated
//! here, and the two statements are proved to fit each other.

use crate::primitives::H256;
use vstd::bytes::{spec_u128_from_le_bytes, spec_u128_to_le_bytes};
use vstd::prelude::*;
use vstd::slice::slice_subrange;

verus! {

/// The four bytes of a number below 2^32, lowest first.
pub open spec fn le4(x: int) -> Seq<u8> {
    seq![
        (x % 256) as u8,
        (x / 256 % 256) as u8,
        (x / 65536 % 256) as u8,
        (x / 16777216 % 256) as u8,
    ]
}

/// The number that four bytes stand for, lowest first.
pub open spec fn le4_value(s: Seq<u8>) -> int {
    s[0] + 256 * s[1] + 65536 * s[2] + 16777216 * s[3]
}

/// The encoding of a 32-bit number: four bytes, lowest first.
pub open spec fn spec_encode_u32(n: u32) -> Seq<u8> {
    le4(n as int)
}

/// The 32-bit number at the start of a byte string and the number of bytes
/// it takes.
pub open spec fn spec_parse_u32(s: Seq<u8>) -> Option<(u32, int)> {
    if s.len() < 4 {
        None
    } else {
        Some((le4_value(s.subrange(0, 4)) as u32, 4))
    }
}

/// The encoding of a 128-bit number: sixteen bytes, lowest first.
pub open spec fn spec_encode_u128(n: u128) -> Seq<u8> {
    spec_u128_to_le_bytes(n)
}

/// The 128-bit number at the start of a byte string and the number of bytes
/// it takes.
pub open spec fn spec_parse_u128(s: Seq<u8>) -> Option<(u128, int)> {
    if s.len() < 16 {
        None
    } else {
        Some((spec_u128_from_le_bytes(s.subrange(0, 16)), 16))
    }
}

/// The compact encoding of a 32-bit number. The two lowest bits of the
/// first byte say how many bytes follow: numbers below 2^6 take one byte,
/// below 2^14 two, below 2^30 four, and all others five.
pub open spec fn spec_compact(n: u32) -> Seq<u8> {
    if n < 0x40 {
        seq![(n * 4) as u8]
    } else if n < 0x4000 {
        seq![((n * 4 + 1) % 256) as u8, ((n * 4 + 1) / 256) as u8]
    } else if n < 0x4000_0000 {
        le4(n * 4 + 2)
    } else {
        seq![3u8].add(le4(n as int))
    }
}

/// The compactly encoded number at the start of a byte string and the
/// number of bytes it takes. A number that is written with more bytes than
/// it needs is not accepted.
pub open spec fn spec_parse_compact(s: Seq<u8>) -> Option<(u32, int)> {
    if s.len() == 0 {
        None
    } else if s[0] % 4 == 0 {
        Some(((s[0] / 4) as u32, 1))
    } else if s[0] % 4 == 1 {
        if s.len() < 2 {
            None
        } else if (s[0] + 256 * s[1]) / 4 > 0x3f {
            Some((((s[0] + 256 * s[1]) / 4) as u32, 2))
        } else {
            None
        }
    } else if s[0] % 4 == 2 {
        if s.len() < 4 {
            None
        } else if le4_value(s.subrange(0, 4)) / 4 > 0x3fff {
            Some(((le4_value(s.subrange(0, 4)) / 4) as u32, 4))
        } else {
            None
        }
    } else {
        if s[0] / 4 != 0 || s.len() < 5 {
            None
        } else if le4_value(s.subrange(1, 5)) > 0x3fff_ffff {
            Some((le4_value(s.subrange(1, 5)) as u32, 5))
        } else {
            None
        }
    }
}

/// The encoding of a byte string: its length, compactly, then the bytes.
pub open spec fn spec_encode_bytes(b: Seq<u8>) -> Seq<u8> {
    spec_compact(b.len() as u32).add(b)
}

/// The byte string at the start of a byte string and the number of bytes
/// that its encoding takes.
pub open spec fn spec_parse_bytes(s: Seq<u8>) -> Option<(Seq<u8>, int)> {
    match spec_parse_compact(s) {
        Some((n, k)) => if s.len() - k >= n {
            Some((s.subrange(k, k + n), k + n))
        } else {
            None
        },
        None => None,
    }
}

/// The encoding of a hash: its 32 bytes.
pub open spec fn spec_encode_h256(h: H256) -> Seq<u8> {
    h@
}

/// The hash at the start of a byte string, if 32 bytes are there.
pub open spec fn spec_parse_h256(s: Seq<u8>) -> Option<(H256, int)> {
    if s.len() < 32 {
        None
    } else {
        Some((choose|h: H256| h@ == s.subrange(0, 32), 32))
    }
}

/// What is written of a 32-bit number is read back as that number.
pub proof fn lemma_u32_roundtrip(n: u32, rest: Seq<u8>)
    ensures
        spec_encode_u32(n).len() == 4,
        spec_parse_u32(spec_encode_u32(n).add(rest)) == Some((n, 4int)),
{
    let s = spec_encode_u32(n).add(rest);
    lemma_le4_value(n as int);
    assert(s.subrange(0, 4) =~= le4(n as int));
}

/// What is written of a 128-bit number is read back as that number.
pub proof fn lemma_u128_roundtrip(n: u128, rest: Seq<u8>)
    ensures
        spec_encode_u128(n).len() == 16,
        spec_parse_u128(spec_encode_u128(n).add(rest)) == Some((n, 16int)),
{
    vstd::bytes::lemma_auto_spec_u128_to_from_le_bytes();
    let s = spec_encode_u128(n).add(rest);
    assert(s.subrange(0, 16) =~= spec_encode_u128(n));
}

/// Four bytes stand for the number they were made of.
pub proof fn lemma_le4_value(x: int)
    requires
        0 <= x < 0x1_0000_0000,
    ensures
        le4(x).len() == 4,
        le4_value(le4(x)) == x,
        le4(x)[0] % 4 == x % 4,
{
    let b0 = x % 256;
    let q1 = x / 256;
    let b1 = q1 % 256;
    let q2 = x / 65536;
    let b2 = q2 % 256;
    let q3 = x / 16777216;
    assert(x == b0 + 256 * q1);
    assert(q2 == q1 / 256);
    assert(q1 == b1 + 256 * q2);
    assert(q3 == q2 / 256);
    assert(q2 == b2 + 256 * q3);
    assert(0 <= q3 < 256);
    assert(q3 % 256 == q3);
    assert(le4(x)[0] == b0 as u8);
    assert(le4(x)[1] == b1 as u8);
    assert(le4(x)[2] == b2 as u8);
    assert(le4(x)[3] == q3 as u8);
    assert(b0 % 4 == x % 4);
}

/// What is written compactly of a number below 2^6 is read back as it.
proof fn lemma_compact_roundtrip_1(n: u32, rest: Seq<u8>)
    requires
        n < 0x40,
    ensures
        spec_parse_compact(spec_compact(n).add(rest)) == Some((n, 1int)),
{
    let s = spec_compact(n).add(rest);
    assert(s[0] == (n * 4) as u8);
    assert((n * 4) % 4 == 0);
    assert((n * 4) / 4 == n);
}

/// What is written compactly of a number below 2^14 is read back as it.
proof fn lemma_compact_roundtrip_2(n: u32, rest: Seq<u8>)
    requires
        0x40 <= n < 0x4000,
    ensures
        spec_parse_compact(spec_compact(n).add(rest)) == Some((n, 2int)),
{
    let s = spec_compact(n).add(rest);
    let x = n * 4 + 1;
    assert(s[0] == (x % 256) as u8);
    assert(s[1] == (x / 256) as u8);
    assert(x == x % 256 + 256 * (x / 256));
    assert(x / 256 < 256);
    assert((x % 256) % 4 == 1);
    assert(s[0] + 256 * s[1] == x);
    assert(x / 4 == n);
}

/// What is written compactly of a number below 2^30 is read back as it.
proof fn lemma_compact_roundtrip_4(n: u32, rest: Seq<u8>)
    requires
        0x4000 <= n < 0x4000_0000,
    ensures
        spec_parse_compact(spec_compact(n).add(rest)) == Some((n, 4int)),
{
    let s = spec_compact(n).add(rest);
    let x = n * 4 + 2;
    lemma_le4_value(x);
    assert(s.subrange(0, 4) =~= le4(x));
    assert(s[0] == le4(x)[0]);
    assert(x % 4 == 2);
    assert(x / 4 == n);
}

/// What is written compactly of a number from 2^30 on is read back as it.
proof fn lemma_compact_roundtrip_5(n: u32, rest: Seq<u8>)
    requires
        0x4000_0000 <= n,
    ensures
        spec_parse_compact(spec_compact(n).add(rest)) == Some((n, 5int)),
{
    let s = spec_compact(n).add(rest);
    lemma_le4_value(n as int);
    assert(s[0] == 3u8);
    assert(s.subrange(1, 5) =~= le4(n as int));
}

/// What is written compactly of a number is read back as that number.
pub proof fn lemma_compact_roundtrip(n: u32, rest: Seq<u8>)
    ensures
        1 <= spec_compact(n).len() <= 5,
        spec_parse_compact(spec_compact(n).add(rest)) == Some((n, spec_compact(n).len() as int)),
{
    if n < 0x40 {
        lemma_compact_roundtrip_1(n, rest);
    } else if n < 0x4000 {
        lemma_compact_roundtrip_2(n, rest);
    } else if n < 0x4000_0000 {
        lemma_compact_roundtrip_4(n, rest);
    } else {
        lemma_compact_roundtrip_5(n, rest);
    }
}

/// What is written of a byte string is read back as that byte string.
pub proof fn lemma_bytes_roundtrip(b: Seq<u8>, rest: Seq<u8>)
    requires
        b.len() <= u32::MAX,
    ensures
        spec_parse_bytes(spec_encode_bytes(b).add(rest)) == Some(
            (b, spec_encode_bytes(b).len() as int),
        ),
{
    let n = b.len() as u32;
    let s = spec_encode_bytes(b).add(rest);
    assert(s =~= spec_compact(n).add(b.add(rest)));
    lemma_compact_roundtrip(n, b.add(rest));
    let k = spec_compact(n).len() as int;
    assert(s.subrange(k, k + n) =~= b);
}

/// What is written of a hash is read back as that hash.
pub proof fn lemma_h256_roundtrip(h: H256, rest: Seq<u8>)
    ensures
        spec_encode_h256(h).len() == 32,
        spec_parse_h256(spec_encode_h256(h).add(rest)) == Some((h, 32int)),
{
    let s = spec_encode_h256(h).add(rest);
    assert(s.subrange(0, 32) =~= h@);
    let c = choose|c: H256| c@ == s.subrange(0, 32);
    assert(c@ == h@);
    assert(c.bytes =~= h.bytes);
}

/// `parity_scale_codec::Encode::encode` of a `u32`: the four bytes of the
/// number, lowest first.
#[verifier::external_body]
fn scale_encode_u32(n: u32) -> (r: Vec<u8>)
    ensures
        r@ == spec_encode_u32(n),
{
    parity_scale_codec::Encode::encode(&n)
}

/// `parity_scale_codec::Decode::decode` of a `u32` from a byte slice: the
/// number that the first four bytes stand for, lowest first, with the
/// number of bytes left over; nothing where fewer than four bytes are there.
#[verifier::external_body]
fn scale_decode_u32(data: &[u8]) -> (r: Option<(u32, usize)>)
    ensures
        match r {
            Some((n, left)) => left <= data@.len() && spec_parse_u32(data@) == Some(
                (n, data@.len() - left),
            ),
            None => spec_parse_u32(data@).is_none(),
        },
{
    let mut input: &[u8] = data;
    let r: Result<u32, parity_scale_codec::Error> = parity_scale_codec::Decode::decode(&mut input);
    match r {
        Ok(n) => Some((n, input.len())),
        Err(_) => None,
    }
}

/// `parity_scale_codec::Encode::encode` of a `u128`: its sixteen bytes,
/// lowest first.
#[verifier::external_body]
fn scale_encode_u128(n: u128) -> (r: Vec<u8>)
    ensures
        r@ == spec_encode_u128(n),
{
    parity_scale_codec::Encode::encode(&n)
}

/// `parity_scale_codec::Decode::decode` of a `u128` from a byte slice: the
/// number that the first sixteen bytes stand for, lowest first, with the
/// number of bytes left over; nothing where fewer than sixteen are there.
#[verifier::external_body]
fn scale_decode_u128(data: &[u8]) -> (r: Option<(u128, usize)>)
    ensures
        match r {
            Some((n, left)) => left <= data@.len() && spec_parse_u128(data@) == Some(
                (n, data@.len() - left),
            ),
            None => spec_parse_u128(data@).is_none(),
        },
{
    let mut input: &[u8] = data;
    let r: Result<u128, parity_scale_codec::Error> = parity_scale_codec::Decode::decode(&mut input);
    match r {
        Ok(n) => Some((n, input.len())),
        Err(_) => None,
    }
}

/// `parity_scale_codec::Encode::encode` of a `Compact<u32>`: one, two,
/// four or five bytes, by the size of the number.
#[verifier::external_body]
fn scale_encode_compact(n: u32) -> (r: Vec<u8>)
    ensures
        r@ == spec_compact(n),
{
    parity_scale_codec::Encode::encode(&parity_scale_codec::Compact(n))
}

/// `parity_scale_codec::Decode::decode` of a `Compact<u32>` from a byte
/// slice: the number at the start with the number of bytes left over;
/// nothing where bytes are missing or the number is written with more
/// bytes than it needs.
#[verifier::external_body]
fn scale_decode_compact(data: &[u8]) -> (r: Option<(u32, usize)>)
    ensures
        match r {
            Some((n, left)) => left <= data@.len() && spec_parse_compact(data@) == Some(
                (n, data@.len() - left),
            ),
            None => spec_parse_compact(data@).is_none(),
        },
{
    let mut input: &[u8] = data;
    let r: Result<parity_scale_codec::Compact<u32>, parity_scale_codec::Error> =
        parity_scale_codec::Decode::decode(&mut input);
    match r {
        Ok(n) => Some((n.0, input.len())),
        Err(_) => None,
    }
}

/// Appends the bytes of `v` to `out`.
pub fn push_all(out: &mut Vec<u8>, v: &Vec<u8>)
    ensures
        final(out)@ == old(out)@.add(v@),
{
    let mut i: usize = 0;
    while i < v.len()
        invariant
            i <= v@.len(),
            out@ == old(out)@.add(v@.take(i as int)),
        decreases v@.len() - i,
    {
        out.push(v[i]);
        assert(v@.take(i as int + 1) =~= v@.take(i as int).push(v@[i as int]));
        assert(old(out)@.add(v@.take(i as int)).push(v@[i as int]) =~= old(out)@.add(
            v@.take(i as int + 1),
        ));
        i = i + 1;
    }
    assert(v@.take(v@.len() as int) =~= v@);
}

/// Appends the encoding of a 32-bit number.
pub fn encode_u32(n: u32, out: &mut Vec<u8>)
    ensures
        final(out)@ == old(out)@.add(spec_encode_u32(n)),
{
    let v = scale_encode_u32(n);
    push_all(out, &v);
}

/// Reads a 32-bit number at `pos`; returns it with the place after it.
pub fn decode_u32(data: &[u8], pos: usize) -> (r: Option<(u32, usize)>)
    requires
        pos <= data@.len(),
    ensures
        match r {
            Some((n, next)) => pos <= next <= data@.len() && spec_parse_u32(data@.skip(pos as int))
                == Some((n, next - pos)),
            None => spec_parse_u32(data@.skip(pos as int)).is_none(),
        },
{
    let tail = slice_subrange(data, pos, data.len());
    assert(tail@ =~= data@.skip(pos as int));
    match scale_decode_u32(tail) {
        Some((n, left)) => Some((n, data.len() - left)),
        None => None,
    }
}

/// Appends the encoding of a 128-bit number.
pub fn encode_u128(n: u128, out: &mut Vec<u8>)
    ensures
        final(out)@ == old(out)@.add(spec_encode_u128(n)),
{
    let v = scale_encode_u128(n);
    push_all(out, &v);
}

/// Reads a 128-bit number at `pos`; returns it with the place after it.
pub fn decode_u128(data: &[u8], pos: usize) -> (r: Option<(u128, usize)>)
    requires
        pos <= data@.len(),
    ensures
        match r {
            Some((n, next)) => pos <= next <= data@.len() && spec_parse_u128(
                data@.skip(pos as int),
            ) == Some((n, next - pos)),
            None => spec_parse_u128(data@.skip(pos as int)).is_none(),
        },
{
    let tail = slice_subrange(data, pos, data.len());
    assert(tail@ =~= data@.skip(pos as int));
    match scale_decode_u128(tail) {
        Some((n, left)) => Some((n, data.len() - left)),
        None => None,
    }
}

/// Appends the compact encoding of a number.
pub fn encode_compact(n: u32, out: &mut Vec<u8>)
    ensures
        final(out)@ == old(out)@.add(spec_compact(n)),
{
    let v = scale_encode_compact(n);
    push_all(out, &v);
}

/// Reads a compactly encoded number at `pos`; returns it with the place
/// after it.
pub fn decode_compact(data: &[u8], pos: usize) -> (r: Option<(u32, usize)>)
    requires
        pos <= data@.len(),
    ensures
        match r {
            Some((n, next)) => pos <= next <= data@.len() && spec_parse_compact(
                data@.skip(pos as int),
            ) == Some((n, next - pos)),
            None => spec_parse_compact(data@.skip(pos as int)).is_none(),
        },
{
    let tail = slice_subrange(data, pos, data.len());
    assert(tail@ =~= data@.skip(pos as int));
    match scale_decode_compact(tail) {
        Some((n, left)) => Some((n, data.len() - left)),
        None => None,
    }
}

/// Appends the encoding of a byte string.
pub fn encode_bytes(b: &Vec<u8>, out: &mut Vec<u8>)
    requires
        b@.len() <= u32::MAX,
    ensures
        final(out)@ == old(out)@.add(spec_encode_bytes(b@)),
{
    encode_compact(b.len() as u32, out);
    push_all(out, b);
    assert(out@ =~= old(out)@.add(spec_encode_bytes(b@)));
}

/// Reads a byte string at `pos`; returns it with the place after it.
pub fn decode_bytes(data: &[u8], pos: usize) -> (r: Option<(Vec<u8>, usize)>)
    requires
        pos <= data@.len(),
    ensures
        match r {
            Some((b, next)) => pos <= next <= data@.len() && spec_parse_bytes(data@.skip(pos as int))
                == Some((b@, next - pos)),
            None => spec_parse_bytes(data@.skip(pos as int)).is_none(),
        },
{
    let (n, start) = match decode_compact(data, pos) {
        Some(x) => x,
        None => {
            return None;
        },
    };
    if data.len() - start < n as usize {
        return None;
    }
    let mut b: Vec<u8> = Vec::new();
    let mut i: usize = 0;
    while i < n as usize
        invariant
            i <= n,
            start + n <= data.len(),
            b@ == data@.subrange(start as int, start + i),
        decreases n - i,
    {
        b.push(data[start + i]);
        assert(data@.subrange(start as int, start + i + 1) =~= data@.subrange(
            start as int,
            start + i,
        ).push(data@[start + i]));
        i = i + 1;
    }
    proof {
        let s = data@.skip(pos as int);
        let k = start - pos;
        assert(s.subrange(k, k + n) =~= data@.subrange(start as int, start + n));
    }
    Some((b, start + n as usize))
}

/// Appends the 32 bytes of a hash.
pub fn encode_h256(h: &H256, out: &mut Vec<u8>)
    ensures
        final(out)@ == old(out)@.add(spec_encode_h256(*h)),
{
    let mut i: usize = 0;
    while i < 32
        invariant
            i <= 32,
            out@ == old(out)@.add(h@.take(i as int)),
        decreases 32 - i,
    {
        out.push(h.bytes[i]);
        assert(h@.take(i as int + 1) =~= h@.take(i as int).push(h@[i as int]));
        assert(old(out)@.add(h@.take(i as int)).push(h@[i as int]) =~= old(out)@.add(
            h@.take(i as int + 1),
        ));
        i = i + 1;
    }
    assert(h@.take(32) =~= h@);
}

/// Reads a hash at `pos`; returns it with the place after it.
pub fn decode_h256(data: &[u8], pos: usize) -> (r: Option<(H256, usize)>)
    requires
        pos <= data@.len(),
    ensures
        match r {
            Some((h, next)) => pos <= next <= data@.len() && spec_parse_h256(data@.skip(pos as int))
                == Some((h, next - pos)),
            None => spec_parse_h256(data@.skip(pos as int)).is_none(),
        },
{
    if data.len() - pos < 32 {
        return None;
    }
    let mut bytes = [0u8; 32];
    let mut i: usize = 0;
    while i < 32
        invariant
            i <= 32,
            pos + 32 <= data.len(),
            forall|k: int| 0 <= k < i ==> bytes@[k] == data@[pos + k],
        decreases 32 - i,
    {
        bytes[i] = data[pos + i];
        i = i + 1;
    }
    let h = H256 { bytes };
    proof {
        let s = data@.skip(pos as int);
        assert(h@ =~= s.subrange(0, 32));
        let c = choose|c: H256| c@ == s.subrange(0, 32);
        assert(c.bytes =~= h.bytes);
    }
    Some((h, pos + 32))
}

} // verus!
