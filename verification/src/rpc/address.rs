//! Addresses as they are read from and written to text.

use vstd::prelude::*;

verus! {

/// An address, as text.
#[derive(Debug, PartialEq, Eq, Clone)]
pub struct Address {
    pub address: String,
}

impl Address {
    /// The text of the address.
    pub fn get(&self) -> (r: &String)
        ensures
            *r == self.address,
    {
        &self.address
    }
}

/// Reads an address from text.
#[derive(Default, Clone, Copy, Debug)]
pub struct AddressVisitor;

#[derive(Clone, Copy, Debug, PartialEq, Eq, Structural)]
pub enum Error {
    InvalidPublic,
    InvalidSecret,
    InvalidMessage,
    InvalidSignature,
    InvalidNetwork,
    InvalidChecksum,
    InvalidPrivate,
    InvalidAddress,
    FailedKeyGeneration,
}

impl AddressVisitor {
    /// What the visitor expects to be given.
    pub fn expecting(&self) -> (r: String)
        ensures
            r@ == "an address"@,
    {
        "an address".to_owned()
    }

    /// The address that a text is: every text is taken, as it is.
    pub fn visit_str(self, value: &str) -> (r: Result<Address, Error>)
        ensures
            r matches Ok(a) && a.address@ == value@,
    {
        Ok(Address { address: value.to_owned() })
    }
}

impl Error {
    /// The message of each error.
    pub open spec fn spec_message(self) -> Seq<char> {
        match self {
            Error::InvalidPublic => "Invalid Public"@,
            Error::InvalidSecret => "Invalid Secret"@,
            Error::InvalidMessage => "Invalid Message"@,
            Error::InvalidSignature => "Invalid Signature"@,
            Error::InvalidNetwork => "Invalid Network"@,
            Error::InvalidChecksum => "Invalid Checksum"@,
            Error::InvalidPrivate => "Invalid Private"@,
            Error::InvalidAddress => "Invalid Address"@,
            Error::FailedKeyGeneration => "Key generation failed"@,
        }
    }

    /// What is shown of the error.
    pub fn message(&self) -> (r: String)
        ensures
            r@ == self.spec_message(),
    {
        let msg = match *self {
            Error::InvalidPublic => "Invalid Public",
            Error::InvalidSecret => "Invalid Secret",
            Error::InvalidMessage => "Invalid Message",
            Error::InvalidSignature => "Invalid Signature",
            Error::InvalidNetwork => "Invalid Network",
            Error::InvalidChecksum => "Invalid Checksum",
            Error::InvalidPrivate => "Invalid Private",
            Error::InvalidAddress => "Invalid Address",
            Error::FailedKeyGeneration => "Key generation failed",
        };
        msg.to_owned()
    }
}

/// The texts of a list of addresses, in order.
pub fn address_texts(addresses: &Vec<Address>) -> (r: Vec<String>)
    ensures
        r@.len() == addresses@.len(),
        forall|i: int| 0 <= i < r@.len() ==> (#[trigger] r@[i])@ == addresses@[i].address@,
{
    let mut r: Vec<String> = Vec::new();
    let mut i: usize = 0;
    while i < addresses.len()
        invariant
            i <= addresses@.len(),
            r@.len() == i,
            forall|k: int| 0 <= k < i ==> (#[trigger] r@[k])@ == addresses@[k].address@,
        decreases addresses@.len() - i,
    {
        r.push(addresses[i].address.clone());
        i = i + 1;
    }
    r
}

} // verus!
