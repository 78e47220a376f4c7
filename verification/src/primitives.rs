//! Hashes, typed identifiers and heights shared by every other module.

use vstd::prelude::*;

verus! {

/// A 256-bit hash, held as 32 bytes in the order in which they are written
/// on the wire.
#[derive(Clone, Copy, Debug, Hash)]
pub struct H256 {
    pub bytes: [u8; 32],
}

impl PartialEq for H256 {
    fn eq(&self, other: &Self) -> (r: bool) {
        let mut i: usize = 0;
        while i < 32
            invariant
                i <= 32,
                forall|j: int| 0 <= j < i ==> self.bytes[j] == other.bytes[j],
            decreases 32 - i,
        {
            if self.bytes[i] != other.bytes[i] {
                return false;
            }
            i = i + 1;
        }
        assert(self.bytes =~= other.bytes);
        true
    }
}

impl Eq for H256 {

}

impl vstd::std_specs::cmp::PartialEqSpecImpl for H256 {
    open spec fn obeys_eq_spec() -> bool {
        true
    }

    open spec fn eq_spec(&self, other: &Self) -> bool {
        *self == *other
    }
}

/// Lexicographic comparison of two byte strings of equal length, from the
/// first byte on.
pub open spec fn bytes_lt(a: Seq<u8>, b: Seq<u8>) -> bool
    recommends
        a.len() == b.len(),
{
    exists|k: int|
        0 <= k < a.len() && a[k] < b[k] && forall|j: int| 0 <= j < k ==> a[j] == #[trigger] b[j]
}

impl H256 {
    /// The bytes of the hash as a sequence of length 32.
    pub open spec fn view(&self) -> Seq<u8> {
        self.bytes@
    }

    /// Strict order on hashes: byte by byte, the first difference decides.
    pub open spec fn spec_lt(self, other: H256) -> bool {
        bytes_lt(self@, other@)
    }

    /// The hash whose 32 bytes are all zero.
    pub fn zero() -> (r: H256)
        ensures
            forall|i: int| 0 <= i < 32 ==> r@[i] == 0,
            r.spec_is_zero(),
            r == zero_hash(),
    {
        let r = H256 { bytes: [0u8; 32] };
        proof {
            lemma_zero_hash(r);
        }
        r
    }

    pub open spec fn spec_is_zero(self) -> bool {
        forall|i: int| 0 <= i < 32 ==> self@[i] == 0
    }

    /// Whether every byte is zero.
    pub fn is_zero(&self) -> (r: bool)
        ensures
            r == self.spec_is_zero(),
    {
        let mut i: usize = 0;
        while i < 32
            invariant
                i <= 32,
                forall|j: int| 0 <= j < i ==> self@[j] == 0,
            decreases 32 - i,
        {
            if self.bytes[i] != 0 {
                assert(self@[i as int] != 0);
                return false;
            }
            i = i + 1;
        }
        true
    }

    /// Wraps 32 bytes.
    pub fn from_bytes(bytes: [u8; 32]) -> (r: H256)
        ensures
            r.bytes == bytes,
    {
        H256 { bytes }
    }

    /// The 32 bytes.
    pub fn as_bytes(&self) -> (r: &[u8; 32])
        ensures
            *r == self.bytes,
    {
        &self.bytes
    }

    /// Whether `self` comes strictly before `other`.
    pub fn lt(&self, other: &H256) -> (r: bool)
        ensures
            r == self.spec_lt(*other),
    {
        let mut i: usize = 0;
        while i < 32
            invariant
                i <= 32,
                forall|j: int| 0 <= j < i ==> self@[j] == other@[j],
            decreases 32 - i,
        {
            if self.bytes[i] < other.bytes[i] {
                assert(self@[i as int] < other@[i as int]);
                return true;
            }
            if self.bytes[i] > other.bytes[i] {
                assert(other@[i as int] < self@[i as int]);
                return false;
            }
            i = i + 1;
        }
        false
    }
}

/// The hash whose 32 bytes are all zero.
pub open spec fn zero_hash() -> H256 {
    choose|h: H256| h.spec_is_zero()
}

/// There is one hash whose bytes are all zero.
pub proof fn lemma_zero_hash(h: H256)
    requires
        h.spec_is_zero(),
    ensures
        h == zero_hash(),
        zero_hash().spec_is_zero(),
{
    let z = zero_hash();
    assert(z.spec_is_zero());
    assert forall|i: int| 0 <= i < 32 implies z.bytes[i] == h.bytes[i] by {
        assert(z@[i] == 0);
        assert(h@[i] == 0);
    }
    assert(z.bytes =~= h.bytes);
}

/// `bytes_lt` is a strict total order on byte strings of one length.
pub proof fn lemma_bytes_lt_total(a: Seq<u8>, b: Seq<u8>)
    requires
        a.len() == b.len(),
    ensures
        !(bytes_lt(a, b) && bytes_lt(b, a)),
        !bytes_lt(a, a),
        a != b ==> bytes_lt(a, b) || bytes_lt(b, a),
    decreases a.len(),
{
    if a != b {
        assert(!(a =~= b));
        let k = first_difference(a, b, 0);
        if a[k] < b[k] {
            assert(bytes_lt(a, b));
        } else {
            assert(bytes_lt(b, a));
        }
    }
}

/// The first index from `from` on at which `a` and `b` differ.
proof fn first_difference(a: Seq<u8>, b: Seq<u8>, from: int) -> (k: int)
    requires
        a.len() == b.len(),
        0 <= from <= a.len(),
        forall|j: int| 0 <= j < from ==> a[j] == b[j],
        exists|j: int| from <= j < a.len() && a[j] != b[j],
    ensures
        from <= k < a.len(),
        a[k] != b[k],
        forall|j: int| 0 <= j < k ==> a[j] == b[j],
    decreases a.len() - from,
{
    if a[from] != b[from] {
        from
    } else {
        first_difference(a, b, from + 1)
    }
}

/// `bytes_lt` is transitive.
pub proof fn lemma_bytes_lt_transitive(a: Seq<u8>, b: Seq<u8>, c: Seq<u8>)
    requires
        a.len() == b.len(),
        b.len() == c.len(),
        bytes_lt(a, b),
        bytes_lt(b, c),
    ensures
        bytes_lt(a, c),
{
    let k1 = choose|k: int|
        0 <= k < a.len() && a[k] < b[k] && forall|j: int| 0 <= j < k ==> a[j] == #[trigger] b[j];
    let k2 = choose|k: int|
        0 <= k < b.len() && b[k] < c[k] && forall|j: int| 0 <= j < k ==> b[j] == #[trigger] c[j];
    let k = if k1 <= k2 {
        k1
    } else {
        k2
    };
    assert(a[k] < c[k]);
    assert forall|j: int| 0 <= j < k implies a[j] == #[trigger] c[j] by {
        assert(a[j] == b[j]);
        assert(b[j] == c[j]);
    }
}

/// The identifier of a block: the hash of its header.
#[derive(Clone, Copy, Debug, Hash)]
pub struct BlockId {
    pub hash: H256,
}

impl PartialEq for BlockId {
    fn eq(&self, other: &Self) -> (r: bool) {
        self.hash == other.hash
    }
}

impl Eq for BlockId {

}

impl vstd::std_specs::cmp::PartialEqSpecImpl for BlockId {
    open spec fn obeys_eq_spec() -> bool {
        true
    }

    open spec fn eq_spec(&self, other: &Self) -> bool {
        *self == *other
    }
}

impl View for BlockId {
    type V = BlockId;

    open spec fn view(&self) -> BlockId {
        *self
    }
}

impl BlockId {
    /// Wraps a hash.
    pub fn new(hash: H256) -> (r: BlockId)
        ensures
            r.hash == hash,
    {
        BlockId { hash }
    }

    /// The hash inside.
    pub fn get(&self) -> (r: H256)
        ensures
            r == self.hash,
    {
        self.hash
    }
}

/// The identifier of a transaction: the hash of its encoding without witnesses.
#[derive(Clone, Copy, Debug, Hash)]
pub struct TxId {
    pub hash: H256,
}

impl PartialEq for TxId {
    fn eq(&self, other: &Self) -> (r: bool) {
        self.hash == other.hash
    }
}

impl Eq for TxId {

}

impl vstd::std_specs::cmp::PartialEqSpecImpl for TxId {
    open spec fn obeys_eq_spec() -> bool {
        true
    }

    open spec fn eq_spec(&self, other: &Self) -> bool {
        *self == *other
    }
}

impl TxId {
    /// Wraps a hash.
    pub fn new(hash: H256) -> (r: TxId)
        ensures
            r.hash == hash,
    {
        TxId { hash }
    }

    /// The hash inside.
    pub fn get(&self) -> (r: H256)
        ensures
            r == self.hash,
    {
        self.hash
    }
}

/// The height of a block: its distance from genesis along its chain.
#[derive(Clone, Copy, Debug, PartialEq, Eq, Structural, Hash)]
pub struct BlockHeight {
    pub height: u64,
}

impl BlockHeight {
    pub fn new(height: u64) -> (r: BlockHeight)
        ensures
            r.height == height,
    {
        BlockHeight { height }
    }

    pub fn get(&self) -> (r: u64)
        ensures
            r == self.height,
    {
        self.height
    }
}

/// A number of blocks between two heights.
#[derive(Clone, Copy, Debug, PartialEq, Eq, Structural, Hash)]
pub struct BlockDistance {
    pub blocks: u64,
}

impl BlockDistance {
    pub fn new(blocks: u64) -> (r: BlockDistance)
        ensures
            r.blocks == blocks,
    {
        BlockDistance { blocks }
    }
}

/// An amount of coins, in atoms.
#[derive(Clone, Copy, Debug, PartialEq, Eq, Structural, Hash)]
pub struct Amount {
    pub atoms: u128,
}

impl Amount {
    pub fn from_atoms(atoms: u128) -> (r: Amount)
        ensures
            r.atoms == atoms,
    {
        Amount { atoms }
    }

    pub fn into_atoms(&self) -> (r: u128)
        ensures
            r == self.atoms,
    {
        self.atoms
    }
}

/// A semantic version number.
#[derive(Clone, Copy, Debug, PartialEq, Eq, Structural, Hash)]
pub struct SemVer {
    pub major: u8,
    pub minor: u8,
    pub patch: u16,
}

impl SemVer {
    pub fn new(major: u8, minor: u8, patch: u16) -> (r: SemVer)
        ensures
            r == (SemVer { major, minor, patch }),
    {
        SemVer { major, minor, patch }
    }
}

} // verus!
