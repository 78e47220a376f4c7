//! What a peer says of itself when it identifies: the protocol it speaks,
//! its version and the magic bytes of its network.

use crate::error::ProtocolError;
use crate::primitives::SemVer;
use vstd::prelude::*;
use vstd::string::StringSliceAdditionalSpecFns;

verus! {

/// The name with which the protocol text starts.
pub open spec fn protocol_prefix() -> Seq<u8> {
    seq![0x2fu8, 0x6d, 0x69, 0x6e, 0x74, 0x6c, 0x61, 0x79, 0x65, 0x72, 0x2f]
}

/// The value of a digit in a base of ten or sixteen.
pub open spec fn digit_value(c: u8, base: int) -> Option<int> {
    if 0x30 <= c <= 0x39 {
        Some(c - 0x30)
    } else if base == 16 && 0x61 <= c <= 0x66 {
        Some(c - 0x61 + 10)
    } else if base == 16 && 0x41 <= c <= 0x46 {
        Some(c - 0x41 + 10)
    } else {
        None
    }
}

/// The number that the digits from `at` on stand for, continuing from
/// `acc` with `count` digits read: the longest run of digits is taken, at
/// least one digit is asked for, and the number must not exceed `max`.
/// Returns the number and the place after it.
pub open spec fn spec_read_number(s: Seq<u8>, at: int, base: int, max: int, acc: int, count: int) -> Option<
    (int, int),
>
    decreases s.len() - at,
{
    if 0 <= at < s.len() && digit_value(s[at], base).is_some() {
        let next = acc * base + digit_value(s[at], base).unwrap();
        if next > max {
            None
        } else {
            spec_read_number(s, at + 1, base, max, next, count + 1)
        }
    } else if count > 0 {
        Some((acc, at))
    } else {
        None
    }
}

/// Whether `s` holds the byte `c` at `at`.
pub open spec fn has_byte(s: Seq<u8>, at: int, c: u8) -> bool {
    0 <= at < s.len() && s[at] == c
}

/// What the protocol text of a peer says: the text must be
/// `/mintlayer/` major `.` minor `.` patch `-` magic, with the three parts
/// of the version in decimal and the magic number in hexadecimal.
pub open spec fn spec_parse_protocol(s: Seq<u8>) -> Option<(SemVer, u32)> {
    let p = protocol_prefix();
    if s.len() < p.len() || s.subrange(0, p.len() as int) != p {
        None
    } else {
        match spec_read_number(s, p.len() as int, 10, 255, 0, 0) {
            Some((major, a)) => if !has_byte(s, a, 0x2e) {
                None
            } else {
                match spec_read_number(s, a + 1, 10, 255, 0, 0) {
                    Some((minor, b)) => if !has_byte(s, b, 0x2e) {
                        None
                    } else {
                        match spec_read_number(s, b + 1, 10, 65535, 0, 0) {
                            Some((patch, c)) => if !has_byte(s, c, 0x2d) {
                                None
                            } else {
                                match spec_read_number(s, c + 1, 16, 0xffff_ffff, 0, 0) {
                                    Some((magic, d)) => if d == s.len() {
                                        Some(
                                            (
                                                SemVer {
                                                    major: major as u8,
                                                    minor: minor as u8,
                                                    patch: patch as u16,
                                                },
                                                magic as u32,
                                            ),
                                        )
                                    } else {
                                        None
                                    },
                                    None => None,
                                }
                            },
                            None => None,
                        }
                    },
                    None => None,
                }
            },
            None => None,
        }
    }
}

/// The four bytes of a number, lowest first.
pub open spec fn magic_bytes_of(magic: u32) -> Seq<u8> {
    crate::codec::prim::le4(magic as int)
}

/// The value of a digit in a base of ten or sixteen.
pub fn digit_of(c: u8, base: u64) -> (r: Option<u64>)
    ensures
        match r {
            Some(d) => digit_value(c, base as int) == Some(d as int) && d < 16,
            None => digit_value(c, base as int).is_none(),
        },
{
    if 0x30 <= c && c <= 0x39 {
        Some((c - 0x30) as u64)
    } else if base == 16 && 0x61 <= c && c <= 0x66 {
        Some((c - 0x61 + 10) as u64)
    } else if base == 16 && 0x41 <= c && c <= 0x46 {
        Some((c - 0x41 + 10) as u64)
    } else {
        None
    }
}

/// Reads a number at `at`: the longest run of digits, at least one, and
/// not above `max`.
pub fn read_number(s: &[u8], at: usize, base: u64, max: u64) -> (r: Option<(u64, usize)>)
    requires
        at <= s@.len(),
        base == 10 || base == 16,
        max <= 0xffff_ffff,
    ensures
        match r {
            Some((n, next)) => spec_read_number(s@, at as int, base as int, max as int, 0, 0)
                == Some((n as int, next as int)) && at < next <= s@.len() && n <= max,
            None => spec_read_number(s@, at as int, base as int, max as int, 0, 0).is_none(),
        },
{
    let mut acc: u64 = 0;
    let mut i: usize = at;
    while i < s.len() && digit_of(s[i], base).is_some()
        invariant
            at <= i <= s@.len(),
            base == 10 || base == 16,
            acc <= max <= 0xffff_ffff,
            spec_read_number(s@, at as int, base as int, max as int, 0, 0) == spec_read_number(
                s@,
                i as int,
                base as int,
                max as int,
                acc as int,
                i - at,
            ),
        decreases s@.len() - i,
    {
        let d = match digit_of(s[i], base) {
            Some(d) => d,
            None => 0,
        };
        assert(acc * base <= 0xffff_ffff * 16) by (nonlinear_arith)
            requires
                acc <= 0xffff_ffff,
                base <= 16,
        ;
        let next = acc * base + d;
        if next > max {
            return None;
        }
        acc = next;
        i = i + 1;
    }
    if i > at {
        Some((acc, i))
    } else {
        None
    }
}

/// What a peer says of itself, as far as it is checked.
#[derive(Clone, Copy, Debug, PartialEq, Eq)]
pub struct ProtocolInfo {
    pub version: SemVer,
    pub magic_bytes: [u8; 4],
}

/// Reads the protocol text of a peer. A text of another form, or with a
/// number out of range, gives `InvalidProtocol`.
pub fn parse_protocol(text: &str) -> (r: Result<ProtocolInfo, ProtocolError>)
    ensures
        match r {
            Ok(info) => spec_parse_protocol(text.spec_bytes()) matches Some((version, magic))
                && info.version == version && info.magic_bytes@ == magic_bytes_of(magic),
            Err(e) => e == ProtocolError::InvalidProtocol && spec_parse_protocol(
                text.spec_bytes(),
            ).is_none(),
        },
{
    let s = text.as_bytes();
    let prefix: [u8; 11] = [0x2f, 0x6d, 0x69, 0x6e, 0x74, 0x6c, 0x61, 0x79, 0x65, 0x72, 0x2f];
    assert(protocol_prefix().len() == 11);
    assert(prefix@ =~= protocol_prefix());
    if s.len() < 11 {
        return Err(ProtocolError::InvalidProtocol);
    }
    let mut i: usize = 0;
    while i < 11
        invariant
            i <= 11,
            s@.len() >= 11,
            s@ == text.spec_bytes(),
            prefix@ == protocol_prefix(),
            forall|k: int| 0 <= k < i ==> s@[k] == protocol_prefix()[k],
        decreases 11 - i,
    {
        if s[i] != prefix[i] {
            assert(s@.subrange(0, 11)[i as int] == s@[i as int]);
            assert(s@.subrange(0, 11)[i as int] != protocol_prefix()[i as int]);
            assert(protocol_prefix().len() == 11);
            return Err(ProtocolError::InvalidProtocol);
        }
        i = i + 1;
    }
    assert(s@.subrange(0, 11) =~= protocol_prefix());
    let (major, a) = match read_number(s, 11, 10, 255) {
        Some(x) => x,
        None => {
            return Err(ProtocolError::InvalidProtocol);
        },
    };
    if a >= s.len() || s[a] != 0x2e {
        return Err(ProtocolError::InvalidProtocol);
    }
    let (minor, b) = match read_number(s, a + 1, 10, 255) {
        Some(x) => x,
        None => {
            return Err(ProtocolError::InvalidProtocol);
        },
    };
    if b >= s.len() || s[b] != 0x2e {
        return Err(ProtocolError::InvalidProtocol);
    }
    let (patch, c) = match read_number(s, b + 1, 10, 65535) {
        Some(x) => x,
        None => {
            return Err(ProtocolError::InvalidProtocol);
        },
    };
    if c >= s.len() || s[c] != 0x2d {
        return Err(ProtocolError::InvalidProtocol);
    }
    let (magic, d) = match read_number(s, c + 1, 16, 0xffff_ffff) {
        Some(x) => x,
        None => {
            return Err(ProtocolError::InvalidProtocol);
        },
    };
    if d != s.len() {
        return Err(ProtocolError::InvalidProtocol);
    }
    let m = magic as u32;
    let magic_bytes: [u8; 4] = [
        (m % 256) as u8,
        (m / 256 % 256) as u8,
        (m / 65536 % 256) as u8,
        (m / 16777216 % 256) as u8,
    ];
    assert(magic_bytes@ =~= magic_bytes_of(m));
    Ok(
        ProtocolInfo {
            version: SemVer::new(major as u8, minor as u8, patch as u16),
            magic_bytes,
        },
    )
}

} // verus!
