//! Transactions, format version 1, and the outpoints that refer to their outputs.

use crate::primitives::{bytes_lt, Amount, TxId, H256};
use vstd::prelude::*;

verus! {

/// Copies a byte vector.
pub fn clone_bytes(v: &Vec<u8>) -> (r: Vec<u8>)
    ensures
        r@ == v@,
{
    let mut r: Vec<u8> = Vec::new();
    let mut i: usize = 0;
    while i < v.len()
        invariant
            i <= v.len(),
            r@ == v@.take(i as int),
        decreases v.len() - i,
    {
        r.push(v[i]);
        assert(v@.take(i as int + 1) =~= v@.take(i as int).push(v@[i as int]));
        i = i + 1;
    }
    assert(v@.take(v.len() as int) =~= v@);
    r
}

/// A reference to one output of one transaction.
#[derive(Clone, Copy, Debug, Hash)]
pub struct OutPoint {
    pub id: TxId,
    pub index: u32,
}

impl PartialEq for OutPoint {
    fn eq(&self, other: &Self) -> (r: bool) {
        self.id == other.id && self.index == other.index
    }
}

impl Eq for OutPoint {

}

impl vstd::std_specs::cmp::PartialEqSpecImpl for OutPoint {
    open spec fn obeys_eq_spec() -> bool {
        true
    }

    open spec fn eq_spec(&self, other: &Self) -> bool {
        *self == *other
    }
}

impl OutPoint {
    /// The order of outpoints: by transaction id, then by output index.
    pub open spec fn spec_lt(self, other: OutPoint) -> bool {
        bytes_lt(self.id.hash@, other.id.hash@) || (self.id == other.id && self.index < other.index)
    }

    /// The sentinel that a block reward spends: the null transaction id and
    /// the largest index.
    pub open spec fn spec_is_coinbase(self) -> bool {
        self.id.hash.spec_is_zero() && self.index == u32::MAX
    }

    pub fn new(prev_tx_id: TxId, output_index: u32) -> (r: OutPoint)
        ensures
            r.id == prev_tx_id,
            r.index == output_index,
    {
        OutPoint { id: prev_tx_id, index: output_index }
    }

    pub fn get_tx_id(&self) -> (r: TxId)
        ensures
            r == self.id,
    {
        self.id
    }

    pub fn get_output_index(&self) -> (r: u32)
        ensures
            r == self.index,
    {
        self.index
    }

    /// The coinbase sentinel.
    pub fn coinbase() -> (r: OutPoint)
        ensures
            r.spec_is_coinbase(),
    {
        OutPoint { id: TxId::new(H256::zero()), index: u32::MAX }
    }

    /// Whether this is the coinbase sentinel.
    pub fn is_coinbase(&self) -> (r: bool)
        ensures
            r == self.spec_is_coinbase(),
    {
        self.id.hash.is_zero() && self.index == u32::MAX
    }

    /// Whether `self` comes strictly before `other` in the order of outpoints.
    pub fn lt(&self, other: &OutPoint) -> (r: bool)
        ensures
            r == self.spec_lt(*other),
    {
        if self.id.hash.lt(&other.id.hash) {
            true
        } else if self.id == other.id {
            self.index < other.index
        } else {
            false
        }
    }
}

/// The order of outpoints is a strict total order.
pub proof fn lemma_outpoint_order_total(a: OutPoint, b: OutPoint)
    ensures
        !(a.spec_lt(b) && b.spec_lt(a)),
        !a.spec_lt(a),
        a != b ==> a.spec_lt(b) || b.spec_lt(a),
{
    crate::primitives::lemma_bytes_lt_total(a.id.hash@, b.id.hash@);
    crate::primitives::lemma_bytes_lt_total(a.id.hash@, a.id.hash@);
    if a.id.hash@ == b.id.hash@ {
        assert(a.id.hash.bytes =~= b.id.hash.bytes);
    }
}

/// The order of outpoints is transitive.
pub proof fn lemma_outpoint_order_transitive(a: OutPoint, b: OutPoint, c: OutPoint)
    requires
        a.spec_lt(b),
        b.spec_lt(c),
    ensures
        a.spec_lt(c),
{
    if bytes_lt(a.id.hash@, b.id.hash@) && bytes_lt(b.id.hash@, c.id.hash@) {
        crate::primitives::lemma_bytes_lt_transitive(a.id.hash@, b.id.hash@, c.id.hash@);
    }
}

/// What a transaction input is, with its witness as a sequence of bytes.
pub struct TxInputView {
    pub outpoint: OutPoint,
    pub witness: Seq<u8>,
}

/// One input of a transaction: the output it spends and the witness that
/// authorises the spending.
#[derive(Debug, PartialEq, Eq)]
pub struct TxInput {
    pub outpoint: OutPoint,
    pub witness: Vec<u8>,
}

impl View for TxInput {
    type V = TxInputView;

    open spec fn view(&self) -> TxInputView {
        TxInputView { outpoint: self.outpoint, witness: self.witness@ }
    }
}

impl Clone for TxInput {
    fn clone(&self) -> (r: Self)
        ensures
            r@ == self@,
    {
        TxInput { outpoint: self.outpoint, witness: clone_bytes(&self.witness) }
    }
}

impl TxInput {
    pub fn new(prev_tx_id: TxId, output_index: u32, witness: Vec<u8>) -> (r: TxInput)
        ensures
            r.outpoint.id == prev_tx_id,
            r.outpoint.index == output_index,
            r.witness == witness,
    {
        TxInput { outpoint: OutPoint::new(prev_tx_id, output_index), witness }
    }

    pub fn get_outpoint(&self) -> (r: &OutPoint)
        ensures
            *r == self.outpoint,
    {
        &self.outpoint
    }

    pub fn get_witness(&self) -> (r: &Vec<u8>)
        ensures
            *r == self.witness,
    {
        &self.witness
    }
}

/// Who may spend an output, with byte strings as sequences.
pub enum DestinationView {
    AnyoneCanSpend,
    PublicKey(Seq<u8>),
    Address(Seq<u8>),
    ScriptHash(H256),
}

/// Who may spend an output.
#[derive(Debug, PartialEq, Eq)]
pub enum Destination {
    /// No authorisation is asked for.
    AnyoneCanSpend,
    /// The holder of the private key to this public key.
    PublicKey(Vec<u8>),
    /// The holder of the key whose public key hashes to this.
    Address(Vec<u8>),
    /// Whoever presents a script with this hash.
    ScriptHash(H256),
}

impl View for Destination {
    type V = DestinationView;

    open spec fn view(&self) -> DestinationView {
        match self {
            Destination::AnyoneCanSpend => DestinationView::AnyoneCanSpend,
            Destination::PublicKey(k) => DestinationView::PublicKey(k@),
            Destination::Address(a) => DestinationView::Address(a@),
            Destination::ScriptHash(h) => DestinationView::ScriptHash(*h),
        }
    }
}

impl Clone for Destination {
    fn clone(&self) -> (r: Self)
        ensures
            r@ == self@,
    {
        match self {
            Destination::AnyoneCanSpend => Destination::AnyoneCanSpend,
            Destination::PublicKey(k) => Destination::PublicKey(clone_bytes(k)),
            Destination::Address(a) => Destination::Address(clone_bytes(a)),
            Destination::ScriptHash(h) => Destination::ScriptHash(*h),
        }
    }
}

/// What a transaction output is.
pub struct TxOutputView {
    pub value: Amount,
    pub destination: DestinationView,
}

/// One output of a transaction: an amount and who may spend it.
#[derive(Debug, PartialEq, Eq)]
pub struct TxOutput {
    pub value: Amount,
    pub destination: Destination,
}

impl View for TxOutput {
    type V = TxOutputView;

    open spec fn view(&self) -> TxOutputView {
        TxOutputView { value: self.value, destination: self.destination@ }
    }
}

impl Clone for TxOutput {
    fn clone(&self) -> (r: Self)
        ensures
            r@ == self@,
    {
        TxOutput { value: self.value, destination: self.destination.clone() }
    }
}

impl TxOutput {
    pub fn new(value: Amount, destination: Destination) -> (r: TxOutput)
        ensures
            r.value == value,
            r.destination == destination,
    {
        TxOutput { value, destination }
    }

    pub fn get_value(&self) -> (r: Amount)
        ensures
            r == self.value,
    {
        self.value
    }

    pub fn get_destination(&self) -> (r: &Destination)
        ensures
            *r == self.destination,
    {
        &self.destination
    }
}

/// The views of the inputs of a transaction, in order.
pub open spec fn inputs_view(v: Seq<TxInput>) -> Seq<TxInputView> {
    v.map_values(|i: TxInput| i@)
}

/// The views of the outputs of a transaction, in order.
pub open spec fn outputs_view(v: Seq<TxOutput>) -> Seq<TxOutputView> {
    v.map_values(|o: TxOutput| o@)
}

/// Copies a list of inputs.
pub fn clone_inputs(v: &Vec<TxInput>) -> (r: Vec<TxInput>)
    ensures
        inputs_view(r@) == inputs_view(v@),
{
    let mut r: Vec<TxInput> = Vec::new();
    let mut i: usize = 0;
    while i < v.len()
        invariant
            i <= v.len(),
            r@.len() == i,
            forall|j: int| 0 <= j < i ==> r@[j]@ == v@[j]@,
        decreases v.len() - i,
    {
        r.push(v[i].clone());
        i = i + 1;
    }
    assert(inputs_view(r@) =~= inputs_view(v@));
    r
}

/// Copies a list of outputs.
pub fn clone_outputs(v: &Vec<TxOutput>) -> (r: Vec<TxOutput>)
    ensures
        outputs_view(r@) == outputs_view(v@),
{
    let mut r: Vec<TxOutput> = Vec::new();
    let mut i: usize = 0;
    while i < v.len()
        invariant
            i <= v.len(),
            r@.len() == i,
            forall|j: int| 0 <= j < i ==> r@[j]@ == v@[j]@,
        decreases v.len() - i,
    {
        r.push(v[i].clone());
        i = i + 1;
    }
    assert(outputs_view(r@) =~= outputs_view(v@));
    r
}

/// What a version 1 transaction is.
pub struct TransactionV1View {
    pub flags: u32,
    pub inputs: Seq<TxInputView>,
    pub outputs: Seq<TxOutputView>,
    pub lock_time: u32,
}

/// Why a transaction could not be made.
#[derive(Clone, Copy, Debug, PartialEq, Eq, Structural)]
pub enum TransactionCreationError {
    Unknown,
}

/// Transaction, format version 1.
#[derive(Debug, PartialEq, Eq)]
pub struct TransactionV1 {
    pub flags: u32,
    pub inputs: Vec<TxInput>,
    pub outputs: Vec<TxOutput>,
    pub lock_time: u32,
}

impl View for TransactionV1 {
    type V = TransactionV1View;

    open spec fn view(&self) -> TransactionV1View {
        TransactionV1View {
            flags: self.flags,
            inputs: inputs_view(self.inputs@),
            outputs: outputs_view(self.outputs@),
            lock_time: self.lock_time,
        }
    }
}

impl Clone for TransactionV1 {
    fn clone(&self) -> (r: Self)
        ensures
            r@ == self@,
    {
        TransactionV1 {
            flags: self.flags,
            inputs: clone_inputs(&self.inputs),
            outputs: clone_outputs(&self.outputs),
            lock_time: self.lock_time,
        }
    }
}

/// The byte that stands before a version 1 transaction on the wire and in
/// what is hashed for its id.
pub const TRANSACTION_V1_VERSION_BYTE: u8 = 0x01;

impl TransactionV1 {
    /// Builds a transaction; every combination of fields is accepted.
    pub fn new(flags: u32, inputs: Vec<TxInput>, outputs: Vec<TxOutput>, lock_time: u32) -> (r:
        Result<TransactionV1, TransactionCreationError>)
        ensures
            r == Ok::<TransactionV1, TransactionCreationError>(
                TransactionV1 { flags, inputs, outputs, lock_time },
            ),
    {
        Ok(TransactionV1 { flags, inputs, outputs, lock_time })
    }

    /// Whether the lowest bit of the flags is set.
    pub open spec fn spec_is_replaceable(&self) -> bool {
        self.flags & 1 != 0
    }

    /// Whether the transaction may be replaced in the pool: the lowest bit of
    /// its flags.
    pub fn is_replaceable(&self) -> (r: bool)
        ensures
            r == self.spec_is_replaceable(),
            r == (self.flags % 2 == 1),
    {
        let flags = self.flags;
        assert(flags & 1 != 0 <==> flags % 2 == 1) by (bit_vector);
        (self.flags & 1) != 0
    }

    pub fn get_flags(&self) -> (r: u32)
        ensures
            r == self.flags,
    {
        self.flags
    }

    pub fn get_inputs(&self) -> (r: &Vec<TxInput>)
        ensures
            *r == self.inputs,
    {
        &self.inputs
    }

    pub fn get_outputs(&self) -> (r: &Vec<TxOutput>)
        ensures
            *r == self.outputs,
    {
        &self.outputs
    }

    pub fn get_lock_time(&self) -> (r: u32)
        ensures
            r == self.lock_time,
    {
        self.lock_time
    }
}

/// What a transaction of any version is.
pub enum TransactionView {
    V1(TransactionV1View),
}

/// A transaction of any known format version.
#[derive(Debug, PartialEq, Eq)]
pub enum Transaction {
    V1(TransactionV1),
}

impl View for Transaction {
    type V = TransactionView;

    open spec fn view(&self) -> TransactionView {
        match self {
            Transaction::V1(t) => TransactionView::V1(t@),
        }
    }
}

impl Clone for Transaction {
    fn clone(&self) -> (r: Self)
        ensures
            r@ == self@,
    {
        match self {
            Transaction::V1(t) => Transaction::V1(t.clone()),
        }
    }
}

/// The views of a list of transactions, in order.
pub open spec fn transactions_view(v: Seq<Transaction>) -> Seq<TransactionView> {
    v.map_values(|t: Transaction| t@)
}

/// Copies a list of transactions.
pub fn clone_transactions(v: &Vec<Transaction>) -> (r: Vec<Transaction>)
    ensures
        transactions_view(r@) == transactions_view(v@),
{
    let mut r: Vec<Transaction> = Vec::new();
    let mut i: usize = 0;
    while i < v.len()
        invariant
            i <= v.len(),
            r@.len() == i,
            forall|j: int| 0 <= j < i ==> r@[j]@ == v@[j]@,
        decreases v.len() - i,
    {
        r.push(v[i].clone());
        i = i + 1;
    }
    assert(transactions_view(r@) =~= transactions_view(v@));
    r
}

/// A point in blockchain time, either in number of blocks or in real world time.
#[derive(Clone, Copy, Debug, PartialEq, Eq, Structural)]
pub enum BlockTime {
    /// Number of blocks since genesis.
    Blocks(u32),
    /// Real world time, in seconds.
    Timestamp(u64),
}

} // verus!
