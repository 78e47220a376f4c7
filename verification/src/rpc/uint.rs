//! 256-bit numbers as they are written in hexadecimal text.

use crate::hexcode::{hex_digit, spec_hex_encode};
use vstd::prelude::*;
use vstd::std_specs::bits::u64_leading_zeros;
use vstd::string::StringSliceAdditionalSpecFns;

verus! {

/// A 256-bit number: four words of 64 bits, the lowest first.
#[derive(Debug, Default, Clone, Copy, PartialEq, Eq, Hash)]
pub struct U256 {
    pub words: [u64; 4],
}

/// The eight bytes of a word, highest first.
pub open spec fn word_be_bytes(n: u64) -> Seq<u8> {
    seq![
        (n / 0x100_0000_0000_0000 % 256) as u8,
        (n / 0x1_0000_0000_0000 % 256) as u8,
        (n / 0x100_0000_0000 % 256) as u8,
        (n / 0x1_0000_0000 % 256) as u8,
        (n / 0x100_0000 % 256) as u8,
        (n / 0x1_0000 % 256) as u8,
        (n / 0x100 % 256) as u8,
        (n % 256) as u8,
    ]
}

/// The word that eight bytes stand for, highest first.
pub open spec fn word_of_be_bytes(s: Seq<u8>) -> int {
    s[0] * 0x100_0000_0000_0000 + s[1] * 0x1_0000_0000_0000 + s[2] * 0x100_0000_0000 + s[3]
        * 0x1_0000_0000 + s[4] * 0x100_0000 + s[5] * 0x1_0000 + s[6] * 0x100 + s[7]
}

/// Why a text is not taken as a number.
#[derive(Clone, Copy, Debug, PartialEq, Eq, Structural)]
pub enum UintError {
    /// The text is longer than 64 characters.
    TooLong,
    /// A character that is neither a hexadecimal digit nor white space, at
    /// this place.
    InvalidHexCharacter(usize),
    /// The digits do not pair up.
    InvalidHexLength,
}

/// Whether a byte of text is white space that the decoder passes over.
pub open spec fn is_space(c: u8) -> bool {
    c == 0x20 || c == 0x0d || c == 0x0a || c == 0x09
}

/// The first place from `from` on that holds neither a digit nor white space.
pub open spec fn first_bad(s: Seq<u8>, from: int) -> Option<int>
    decreases s.len() - from,
{
    if from < 0 || from >= s.len() {
        None
    } else if crate::hexcode::hex_value(s[from]).is_none() && !is_space(s[from]) {
        Some(from)
    } else {
        first_bad(s, from + 1)
    }
}

/// What decoding a text gives, with white space passed over: an error for
/// the first character that is neither digit nor white space, an error for
/// an odd number of digits, and else the bytes that the digits stand for.
pub open spec fn spec_lenient_decode(s: Seq<u8>) -> Result<Seq<u8>, UintError> {
    match first_bad(s, 0) {
        Some(i) => Err(UintError::InvalidHexCharacter(i as usize)),
        None => {
            let digits = s.filter(|c: u8| !is_space(c));
            if digits.len() % 2 != 0 {
                Err(UintError::InvalidHexLength)
            } else {
                Ok(crate::hexcode::hex_bytes(digits))
            }
        },
    }
}

/// The view of a result of decoding.
pub open spec fn lenient_view(r: Result<Vec<u8>, UintError>) -> Result<Seq<u8>, UintError> {
    match r {
        Ok(v) => Ok(v@),
        Err(e) => Err(e),
    }
}

/// `byteorder::BigEndian::write_u64` into a buffer of eight bytes: the
/// bytes of the word, highest first.
#[verifier::external_body]
fn be_bytes_of(n: u64) -> (r: [u8; 8])
    ensures
        r@ == word_be_bytes(n),
{
    let mut buf = [0u8; 8];
    <byteorder::BigEndian as byteorder::ByteOrder>::write_u64(&mut buf, n);
    buf
}

/// `rustc_hex::ToHex::to_hex`, collected into characters: two hexadecimal
/// digits in lower case for each byte.
#[verifier::external_body]
fn rustc_hex_encode(data: &[u8]) -> (r: Vec<char>)
    ensures
        r@ == spec_hex_encode(data@),
{
    rustc_hex::ToHex::to_hex(data)
}

/// `rustc_hex::FromHex::from_hex`: the bytes that the hexadecimal digits of
/// a text stand for, white space passed over.
#[verifier::external_body]
fn rustc_hex_decode(text: &str) -> (r: Result<Vec<u8>, UintError>)
    ensures
        lenient_view(r) == spec_lenient_decode(text.spec_bytes()),
{
    match rustc_hex::FromHex::from_hex(text) {
        Ok(v) => Ok(v),
        Err(rustc_hex::FromHexError::InvalidHexCharacter(_, index)) => Err(
            UintError::InvalidHexCharacter(index),
        ),
        Err(rustc_hex::FromHexError::InvalidHexLength) => Err(UintError::InvalidHexLength),
    }
}

/// `String::from_iter` over characters: the text made of them.
#[verifier::external_body]
fn string_of(chars: &Vec<char>) -> (r: String)
    ensures
        r@ == chars@,
{
    String::from_iter(chars.iter())
}

/// `concat` of the text `"0"` and a text: the text with the digit zero
/// before it.
#[verifier::external_body]
fn zero_before(text: &str) -> (r: String)
    ensures
        r@ == seq!['0'].add(text@),
        vstd::utf8::encode_utf8(r@) == seq![0x30u8].add(text.spec_bytes()),
{
    ["0", text].concat()
}

impl U256 {
    /// The 32 bytes of the number, highest first.
    pub open spec fn spec_be_bytes(self) -> Seq<u8> {
        word_be_bytes(self.words[3]).add(
            word_be_bytes(self.words[2]).add(
                word_be_bytes(self.words[1]).add(word_be_bytes(self.words[0])),
            ),
        )
    }

    /// Whether the number is zero.
    pub open spec fn spec_is_zero(self) -> bool {
        self.words[0] == 0 && self.words[1] == 0 && self.words[2] == 0 && self.words[3] == 0
    }

    /// The number of bits that the number takes, and 0 for zero.
    pub open spec fn spec_bits(self) -> int {
        if self.words[3] > 0 {
            256 - u64_leading_zeros(self.words[3])
        } else if self.words[2] > 0 {
            192 - u64_leading_zeros(self.words[2])
        } else if self.words[1] > 0 {
            128 - u64_leading_zeros(self.words[1])
        } else {
            64 - u64_leading_zeros(self.words[0])
        }
    }

    /// The number of hexadecimal digits that the number takes; one for zero.
    pub open spec fn spec_hex_digits(self) -> int {
        if self.spec_bits() == 0 {
            1
        } else {
            (self.spec_bits() + 3) / 4
        }
    }

    /// The number in hexadecimal, without leading zeros: the last digits of
    /// its full form of 64 digits, as many as it takes.
    pub open spec fn spec_to_hex(self) -> Seq<char> {
        spec_hex_encode(self.spec_be_bytes()).skip(64 - self.spec_hex_digits())
    }

    /// The number that a word is.
    pub fn from_u64(n: u64) -> (r: U256)
        ensures
            r.words@ == seq![n, 0u64, 0u64, 0u64],
    {
        let r = U256 { words: [n, 0, 0, 0] };
        assert(r.words@ =~= seq![n, 0u64, 0u64, 0u64]);
        r
    }
}

/// The number of bits that the number takes.
pub fn bits(val: &U256) -> (r: usize)
    ensures
        r == val.spec_bits(),
        0 <= r <= 256,
        r == 0 <==> val.spec_is_zero(),
{
    broadcast use vstd::std_specs::bits::axiom_u64_leading_zeros;

    let arr = &val.words;
    let mut i: usize = 1;
    while i < 4
        invariant
            1 <= i <= 4,
            arr == &val.words,
            forall|j: int| 4 - i < j < 4 ==> val.words[j] == 0,
        decreases 4 - i,
    {
        if arr[4 - i] > 0 {
            return (0x40 * (4 - i + 1)) - arr[4 - i].leading_zeros() as usize;
        }
        i = i + 1;
    }
    0x40 - arr[0].leading_zeros() as usize
}

/// Whether the number is zero.
pub fn is_zero(val: &U256) -> (r: bool)
    ensures
        r == val.spec_is_zero(),
{
    let arr = &val.words;
    let mut i: usize = 0;
    while i < 4
        invariant
            i <= 4,
            arr == &val.words,
            forall|k: int| 0 <= k < i ==> val.words[k] == 0,
        decreases 4 - i,
    {
        if arr[i] != 0 {
            return false;
        }
        i = i + 1;
    }
    true
}

/// The 32 bytes of the number, highest first.
pub fn to_big_endian(val: &U256) -> (r: Vec<u8>)
    ensures
        r@ == val.spec_be_bytes(),
        r@.len() == 32,
{
    let mut bytes: Vec<u8> = Vec::new();
    let mut i: usize = 0;
    while i < 4
        invariant
            i <= 4,
            bytes@.len() == 8 * i,
            i == 0 ==> bytes@ =~= Seq::<u8>::empty(),
            i == 1 ==> bytes@ =~= word_be_bytes(val.words[3]),
            i == 2 ==> bytes@ =~= word_be_bytes(val.words[3]).add(word_be_bytes(val.words[2])),
            i == 3 ==> bytes@ =~= word_be_bytes(val.words[3]).add(
                word_be_bytes(val.words[2]).add(word_be_bytes(val.words[1])),
            ),
            i == 4 ==> bytes@ =~= val.spec_be_bytes(),
        decreases 4 - i,
    {
        let word = be_bytes_of(val.words[4 - i - 1]);
        let ghost before = bytes@;
        let mut k: usize = 0;
        while k < 8
            invariant
                k <= 8,
                word@ == word_be_bytes(val.words[4 - i - 1]),
                bytes@ == before.add(word@.take(k as int)),
            decreases 8 - k,
        {
            bytes.push(word[k]);
            assert(word@.take(k as int + 1) =~= word@.take(k as int).push(word@[k as int]));
            assert(before.add(word@.take(k as int)).push(word@[k as int]) =~= before.add(
                word@.take(k as int + 1),
            ));
            k = k + 1;
        }
        assert(word@.take(8) =~= word@);
        i = i + 1;
    }
    bytes
}

/// The number in hexadecimal, in lower case and without leading zeros;
/// `0` for zero.
pub fn to_hex(val: &U256) -> (r: String)
    ensures
        r@ == val.spec_to_hex(),
        r@.len() == val.spec_hex_digits(),
        val.spec_is_zero() ==> r@ == seq!['0'],
{
    let bytes = to_big_endian(val);
    let n = bits(val);
    let bp7 = n + 7;
    let len = if bp7 / 8 > 1 {
        bp7 / 8
    } else {
        1
    };
    let tail = vstd::slice::slice_subrange(bytes.as_slice(), bytes.len() - len, bytes.len());
    let bytes_hex = rustc_hex_encode(tail);
    let skip = if n == 0 {
        1
    } else {
        1 - bp7 % 8 / 4
    };
    let mut chars: Vec<char> = Vec::new();
    let mut i: usize = skip;
    while i < bytes_hex.len()
        invariant
            skip <= i <= bytes_hex@.len(),
            chars@ == bytes_hex@.subrange(skip as int, i as int),
        decreases bytes_hex@.len() - i,
    {
        chars.push(bytes_hex[i]);
        assert(bytes_hex@.subrange(skip as int, i as int + 1) =~= bytes_hex@.subrange(
            skip as int,
            i as int,
        ).push(bytes_hex@[i as int]));
        i = i + 1;
    }
    proof {
        let full = spec_hex_encode(bytes@);
        assert(bytes_hex@ =~= full.skip(64 - 2 * len));
        assert(chars@ =~= full.skip(64 - val.spec_hex_digits()));
        if val.spec_is_zero() {
            assert(chars@.len() == 1);
            assert(full[63] == hex_digit(bytes@[31] as int % 16));
            assert(word_be_bytes(0)[7] == 0);
            assert(bytes@[31] == word_be_bytes(val.words[0])[7]);
            assert(chars@ =~= seq!['0']);
        }
    }
    string_of(&chars)
}

/// The word that eight bytes stand for, highest first.
fn word_from(s: &[u8], end: usize) -> (r: u64)
    requires
        end <= s@.len(),
        end <= 32,
    ensures
        r == word_of_be_bytes(
            Seq::new(
                8,
                |k: int|
                    if end - 8 + k >= 0 {
                        s@[end - 8 + k]
                    } else {
                        0u8
                    },
            ),
        ),
{
    let ghost padded = Seq::new(
        8,
        |k: int|
            if end - 8 + k >= 0 {
                s@[end - 8 + k]
            } else {
                0u8
            },
    );
    let mut r: u64 = 0;
    let mut k: usize = 0;
    while k < 8
        invariant
            k <= 8,
            end <= s@.len(),
            end <= 32,
            padded == Seq::new(
                8,
                |k: int|
                    if end - 8 + k >= 0 {
                        s@[end - 8 + k]
                    } else {
                        0u8
                    },
            ),
            k == 0 ==> r == 0,
            k == 1 ==> r == padded[0],
            k == 2 ==> r == padded[0] * 0x100 + padded[1],
            k == 3 ==> r == padded[0] * 0x1_0000 + padded[1] * 0x100 + padded[2],
            k == 4 ==> r == padded[0] * 0x100_0000 + padded[1] * 0x1_0000 + padded[2] * 0x100
                + padded[3],
            k == 5 ==> r == padded[0] * 0x1_0000_0000 + padded[1] * 0x100_0000 + padded[2]
                * 0x1_0000 + padded[3] * 0x100 + padded[4],
            k == 6 ==> r == padded[0] * 0x100_0000_0000 + padded[1] * 0x1_0000_0000 + padded[2]
                * 0x100_0000 + padded[3] * 0x1_0000 + padded[4] * 0x100 + padded[5],
            k == 7 ==> r == padded[0] * 0x1_0000_0000_0000 + padded[1] * 0x100_0000_0000
                + padded[2] * 0x1_0000_0000 + padded[3] * 0x100_0000 + padded[4] * 0x1_0000
                + padded[5] * 0x100 + padded[6],
            k == 8 ==> r == word_of_be_bytes(padded),
        decreases 8 - k,
    {
        let byte: u8 = if end + k >= 8 {
            s[end + k - 8]
        } else {
            0
        };
        assert(byte == padded[k as int]);
        r = r * 256 + byte as u64;
        k = k + 1;
    }
    r
}

/// The eight bytes of word `w` of a number that is given by its bytes,
/// highest first; bytes that are not there count as zero.
pub open spec fn padded_word(s: Seq<u8>, w: int) -> Seq<u8> {
    Seq::new(
        8,
        |k: int|
            if s.len() - 8 * w - 8 + k >= 0 {
                s[s.len() - 8 * w - 8 + k]
            } else {
                0u8
            },
    )
}

/// Whether `v` is the number that the bytes stand for, highest first.
pub open spec fn is_number_of(v: U256, s: Seq<u8>) -> bool {
    forall|w: int| 0 <= w < 4 ==> #[trigger] v.words[w] == word_of_be_bytes(padded_word(s, w))
}

/// The number that up to 32 bytes stand for, highest first.
pub fn from_big_endian(s: &[u8]) -> (r: U256)
    requires
        s@.len() <= 32,
    ensures
        is_number_of(r, s@),
{
    let n = s.len();
    let w0 = word_from(s, n);
    let w1 = if n >= 8 {
        word_from(s, n - 8)
    } else {
        0
    };
    let w2 = if n >= 16 {
        word_from(s, n - 16)
    } else {
        0
    };
    let w3 = if n >= 24 {
        word_from(s, n - 24)
    } else {
        0
    };
    let r = U256 { words: [w0, w1, w2, w3] };
    proof {
        assert forall|w: int| 0 <= w < 4 implies #[trigger] r.words[w] == word_of_be_bytes(
            padded_word(s@, w),
        ) by {
            let padded = padded_word(s@, w);
            if n < 8 * w {
                assert(padded =~= seq![0u8, 0u8, 0u8, 0u8, 0u8, 0u8, 0u8, 0u8]);
            } else {
                let end = n - 8 * w;
                assert(padded =~= Seq::new(
                    8,
                    |k: int|
                        if end - 8 + k >= 0 {
                            s@[end - 8 + k]
                        } else {
                            0u8
                        },
                ));
            }
        }
    }
    r
}

/// Whether reading gave what decoding gave: the same error, or the number
/// that the decoded bytes stand for.
pub open spec fn decoded_bytes_fit(r: Result<U256, UintError>, bytes: Result<Seq<u8>, UintError>) -> bool {
    match (r, bytes) {
        (Err(e), Err(f)) => e == f,
        (Ok(v), Ok(b)) => b.len() <= 32 && is_number_of(v, b),
        _ => false,
    }
}

/// Reads a number from hexadecimal text of up to 64 characters. A text
/// with an odd number of characters is read as if a zero stood before it.
pub fn from_str(value: &str) -> (r: Result<U256, UintError>)
    ensures
        value.spec_bytes().len() > 64 ==> r == Err::<U256, UintError>(UintError::TooLong),
        value.spec_bytes().len() <= 64 ==> decoded_bytes_fit(
            r,
            spec_lenient_decode(
                if value.spec_bytes().len() % 2 == 0 {
                    value.spec_bytes()
                } else {
                    seq![0x30u8].add(value.spec_bytes())
                },
            ),
        ),
{
    let text = value.as_bytes();
    if text.len() > 64 {
        return Err(UintError::TooLong);
    }
    let decoded = if text.len() % 2 == 0 {
        rustc_hex_decode(value)
    } else {
        let padded = zero_before(value);
        rustc_hex_decode(padded.as_str())
    };
    match decoded {
        Err(e) => Err(e),
        Ok(bytes) => {
            proof {
                let s = if value.spec_bytes().len() % 2 == 0 {
                    value.spec_bytes()
                } else {
                    seq![0x30u8].add(value.spec_bytes())
                };
                let digits = s.filter(|c: u8| !is_space(c));
                s.lemma_filter_len(|c: u8| !is_space(c));
                assert(bytes@.len() == digits.len() / 2);
            }
            Ok(from_big_endian(bytes.as_slice()))
        },
    }
}

} // verus!
