//! Wrapper around `Vec<u8>`

use crate::hexcode::{hex_decode, hex_encode, spec_hex_decode, spec_hex_encode, HexError};
use vstd::prelude::*;
use vstd::string::StringSliceAdditionalSpecFns;

verus! {

/// Wrapper around `Vec<u8>`
#[derive(Default, PartialEq, Clone, Eq, Hash)]
pub struct Bytes {
    pub bytes: Vec<u8>,
}

impl View for Bytes {
    type V = Seq<u8>;

    open spec fn view(&self) -> Seq<u8> {
        self.bytes@
    }
}

/// The view of a result of parsing.
pub open spec fn parsed_view(r: Result<Bytes, HexError>) -> Result<Seq<u8>, HexError> {
    match r {
        Ok(b) => Ok(b@),
        Err(e) => Err(e),
    }
}

impl Bytes {
    pub fn new() -> (r: Self)
        ensures
            r@ == Seq::<u8>::empty(),
    {
        Bytes { bytes: Vec::new() }
    }

    /// `len` bytes, all zero.
    pub fn new_with_len(len: usize) -> (r: Self)
        ensures
            r@.len() == len,
            forall|i: int| 0 <= i < len ==> r@[i] == 0,
    {
        let mut bytes: Vec<u8> = Vec::new();
        let mut i: usize = 0;
        while i < len
            invariant
                i <= len,
                bytes@.len() == i,
                forall|k: int| 0 <= k < i ==> bytes@[k] == 0,
            decreases len - i,
        {
            bytes.push(0);
            i = i + 1;
        }
        Bytes { bytes }
    }

    /// Wraps a vector.
    pub fn from_vec(v: Vec<u8>) -> (r: Self)
        ensures
            r.bytes == v,
    {
        Bytes { bytes: v }
    }

    pub fn take(self) -> (r: Vec<u8>)
        ensures
            r == self.bytes,
    {
        self.bytes
    }

    pub fn len(&self) -> (r: usize)
        ensures
            r == self@.len(),
    {
        self.bytes.len()
    }

    /// Moves the bytes of `other` to the end of `self`, leaving `other` empty.
    pub fn append(&mut self, other: &mut Bytes)
        ensures
            final(self)@ == old(self)@ + old(other)@,
            final(other)@ == Seq::<u8>::empty(),
    {
        self.bytes.append(&mut other.bytes);
    }

    /// Cuts the bytes at `at`: the first part stays, the rest is returned.
    pub fn split_off(&mut self, at: usize) -> (r: Bytes)
        requires
            at <= old(self)@.len(),
        ensures
            final(self)@ == old(self)@.subrange(0, at as int),
            r@ == old(self)@.subrange(at as int, old(self)@.len() as int),
    {
        Bytes { bytes: self.bytes.split_off(at) }
    }

    /// The bytes that a hexadecimal text stands for.
    ///
    /// A text of odd length gives `OddLength`; otherwise the first character
    /// that is no hexadecimal digit gives `InvalidHexCharacter` with the
    /// character and its place.
    pub fn parse_hex(s: &str) -> (r: Result<Bytes, HexError>)
        ensures
            parsed_view(r) == spec_hex_decode(s.spec_bytes()),
    {
        match hex_decode(s.as_bytes()) {
            Ok(v) => Ok(Bytes { bytes: v }),
            Err(e) => Err(e),
        }
    }

    /// The bytes as hexadecimal text, in lower case: what is printed of them.
    pub fn to_hex(&self) -> (r: String)
        ensures
            r@ == spec_hex_encode(self@),
    {
        hex_encode(self.bytes.as_slice())
    }
}

impl core::str::FromStr for Bytes {
    type Err = HexError;

    /// The bytes that a hexadecimal text stands for, as `parse_hex` gives
    /// them: a text of odd length gives `OddLength`; otherwise the first
    /// character that is no hexadecimal digit gives `InvalidHexCharacter`.
    fn from_str(s: &str) -> (r: Result<Self, HexError>)
        ensures
            parsed_view(r) == spec_hex_decode(s.spec_bytes()),
    {
        Bytes::parse_hex(s)
    }
}

/// Wrapper around `Vec<u8>` which represent associated type
#[derive(Default, PartialEq)]
pub struct TaggedBytes<T> {
    pub bytes: Bytes,
    pub label: core::marker::PhantomData<T>,
}

impl<T> TaggedBytes<T> {
    pub fn new(bytes: Bytes) -> (r: Self)
        ensures
            r.bytes == bytes,
    {
        TaggedBytes { bytes: bytes, label: core::marker::PhantomData }
    }

    pub fn into_raw(self) -> (r: Bytes)
        ensures
            r == self.bytes,
    {
        self.bytes
    }
}

} // verus!
