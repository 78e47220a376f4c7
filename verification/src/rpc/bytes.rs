//! Serializable wrapper around vector of bytes

use crate::hexcode::{hex_decode, hex_encode, spec_hex_decode, spec_hex_encode};
use vstd::prelude::*;
use vstd::string::StringSliceAdditionalSpecFns;

verus! {

/// Wrapper structure around vector of bytes.
#[derive(Debug, PartialEq, Eq, Default, Hash, Clone)]
pub struct Bytes(pub Vec<u8>);

impl View for Bytes {
    type V = Seq<u8>;

    open spec fn view(&self) -> Seq<u8> {
        self.0@
    }
}

/// Why a text is not taken as bytes.
#[derive(Clone, Copy, Debug, PartialEq, Eq, Structural)]
pub enum BytesFormatError {
    /// The text is empty or has an odd number of characters.
    InvalidFormat,
    /// A character of the text is no hexadecimal digit.
    InvalidHex,
}

/// What reading bytes from a text gives: the text must not be empty, must
/// have an even length and must hold hexadecimal digits only.
pub open spec fn spec_visit_str(s: Seq<u8>) -> Result<Seq<u8>, BytesFormatError> {
    if s.len() > 0 && s.len() % 2 == 0 {
        match spec_hex_decode(s) {
            Ok(b) => Ok(b),
            Err(_) => Err(BytesFormatError::InvalidHex),
        }
    } else {
        Err(BytesFormatError::InvalidFormat)
    }
}

/// The view of a result of reading.
pub open spec fn visited_view(r: Result<Bytes, BytesFormatError>) -> Result<Seq<u8>, BytesFormatError> {
    match r {
        Ok(b) => Ok(b@),
        Err(e) => Err(e),
    }
}

impl Bytes {
    /// Simple constructor.
    pub fn new(bytes: Vec<u8>) -> (r: Bytes)
        ensures
            r.0 == bytes,
    {
        Bytes(bytes)
    }

    /// Convert back to vector
    pub fn to_vec(self) -> (r: Vec<u8>)
        ensures
            r == self.0,
    {
        self.0
    }

    /// The text that the bytes are serialized as: their hexadecimal form.
    pub fn serialized(&self) -> (r: String)
        ensures
            r@ == spec_hex_encode(self@),
    {
        hex_encode(self.0.as_slice())
    }

    /// Reads bytes from the text that they were serialized as.
    pub fn visit_str(value: &str) -> (r: Result<Bytes, BytesFormatError>)
        ensures
            visited_view(r) == spec_visit_str(value.spec_bytes()),
    {
        let text = value.as_bytes();
        let len = text.len();
        assert(len & 1 == 0 <==> len % 2 == 0) by (bit_vector);
        if len > 0 && len & 1 == 0 {
            match hex_decode(text) {
                Ok(v) => Ok(Bytes(v)),
                Err(_) => Err(BytesFormatError::InvalidHex),
            }
        } else {
            Err(BytesFormatError::InvalidFormat)
        }
    }
}

} // verus!
