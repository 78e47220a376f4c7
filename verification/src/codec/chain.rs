//! The wire encoding of transactions, headers and blocks, and the proof
//! that decoding undoes encoding.

use crate::chain::block::{
    Block, BlockHeader, BlockHeaderView, BlockV1, BlockV1View, BlockView, BLOCK_V1_VERSION_BYTE,
};
use crate::chain::transaction::{
    Destination, DestinationView, OutPoint, Transaction, TransactionV1, TransactionV1View,
    TransactionView, TxInput, TxInputView, TxOutput, TxOutputView, TRANSACTION_V1_VERSION_BYTE,
};
use crate::codec::prim::{
    decode_bytes, decode_h256, decode_u128, decode_u32, encode_bytes, encode_h256, encode_u128,
    encode_u32, lemma_bytes_roundtrip, lemma_h256_roundtrip, lemma_u128_roundtrip,
    lemma_u32_roundtrip, spec_encode_bytes, spec_encode_h256, spec_encode_u128, spec_encode_u32,
    spec_parse_bytes, spec_parse_h256, spec_parse_u128, spec_parse_u32,
};
use crate::codec::wire::{
    check_list_encodable, decode_list, encode_list, lemma_list_roundtrip, list_encodable,
    spec_encode_list, spec_parse_list, views, Wire,
};
use crate::primitives::{Amount, BlockId, TxId};
use vstd::prelude::*;

verus! {

/// The tag bytes of the four kinds of destination.
pub const DESTINATION_ANYONE_TAG: u8 = 0;

pub const DESTINATION_PUBLIC_KEY_TAG: u8 = 1;

pub const DESTINATION_ADDRESS_TAG: u8 = 2;

pub const DESTINATION_SCRIPT_HASH_TAG: u8 = 3;

impl Wire for TxInput {
    /// The id of the transaction, the index of the output, the witness.
    open spec fn spec_encode(v: TxInputView) -> Seq<u8> {
        spec_encode_h256(v.outpoint.id.hash).add(
            spec_encode_u32(v.outpoint.index).add(spec_encode_bytes(v.witness)),
        )
    }

    open spec fn spec_parse(s: Seq<u8>) -> Option<(TxInputView, int)> {
        match spec_parse_h256(s) {
            Some((h, k1)) => match spec_parse_u32(s.skip(k1)) {
                Some((index, k2)) => match spec_parse_bytes(s.skip(k1 + k2)) {
                    Some((witness, k3)) => Some(
                        (
                            TxInputView { outpoint: OutPoint { id: TxId { hash: h }, index }, witness },
                            k1 + k2 + k3,
                        ),
                    ),
                    None => None,
                },
                None => None,
            },
            None => None,
        }
    }

    open spec fn encodable(v: TxInputView) -> bool {
        v.witness.len() <= u32::MAX
    }

    proof fn lemma_roundtrip(v: TxInputView, rest: Seq<u8>) {
        let e1 = spec_encode_h256(v.outpoint.id.hash);
        let e2 = spec_encode_u32(v.outpoint.index);
        let e3 = spec_encode_bytes(v.witness);
        let s = Self::spec_encode(v).add(rest);
        assert(s =~= e1.add(e2.add(e3.add(rest))));
        lemma_h256_roundtrip(v.outpoint.id.hash, e2.add(e3.add(rest)));
        assert(s.skip(32) =~= e2.add(e3.add(rest)));
        lemma_u32_roundtrip(v.outpoint.index, e3.add(rest));
        assert(s.skip(36) =~= e3.add(rest));
        lemma_bytes_roundtrip(v.witness, rest);
    }

    fn check_encodable(&self) -> (r: bool) {
        self.witness.len() <= 0xffff_ffff
    }

    fn encode_to(&self, out: &mut Vec<u8>) {
        encode_h256(&self.outpoint.id.hash, out);
        encode_u32(self.outpoint.index, out);
        encode_bytes(&self.witness, out);
        assert(out@ =~= old(out)@.add(Self::spec_encode(self@)));
    }

    fn decode_from(data: &[u8], pos: usize) -> (r: Option<(Self, usize)>) {
        let ghost s = data@.skip(pos as int);
        let (h, at1) = match decode_h256(data, pos) {
            Some(x) => x,
            None => {
                return None;
            },
        };
        assert(s.skip(at1 - pos) =~= data@.skip(at1 as int));
        let (index, at2) = match decode_u32(data, at1) {
            Some(x) => x,
            None => {
                return None;
            },
        };
        assert(s.skip(at2 - pos) =~= data@.skip(at2 as int));
        let (witness, at3) = match decode_bytes(data, at2) {
            Some(x) => x,
            None => {
                return None;
            },
        };
        Some((TxInput { outpoint: OutPoint { id: TxId { hash: h }, index }, witness }, at3))
    }
}

/// The encoding of a destination: the tag of its kind, then what it holds.
pub open spec fn spec_encode_destination(d: DestinationView) -> Seq<u8> {
    match d {
        DestinationView::AnyoneCanSpend => seq![DESTINATION_ANYONE_TAG],
        DestinationView::PublicKey(k) => seq![DESTINATION_PUBLIC_KEY_TAG].add(spec_encode_bytes(k)),
        DestinationView::Address(a) => seq![DESTINATION_ADDRESS_TAG].add(spec_encode_bytes(a)),
        DestinationView::ScriptHash(h) => seq![DESTINATION_SCRIPT_HASH_TAG].add(spec_encode_h256(h)),
    }
}

/// The destination at the start of a byte string.
pub open spec fn spec_parse_destination(s: Seq<u8>) -> Option<(DestinationView, int)> {
    if s.len() == 0 {
        None
    } else if s[0] == DESTINATION_ANYONE_TAG {
        Some((DestinationView::AnyoneCanSpend, 1))
    } else if s[0] == DESTINATION_PUBLIC_KEY_TAG {
        match spec_parse_bytes(s.skip(1)) {
            Some((k, n)) => Some((DestinationView::PublicKey(k), 1 + n)),
            None => None,
        }
    } else if s[0] == DESTINATION_ADDRESS_TAG {
        match spec_parse_bytes(s.skip(1)) {
            Some((a, n)) => Some((DestinationView::Address(a), 1 + n)),
            None => None,
        }
    } else if s[0] == DESTINATION_SCRIPT_HASH_TAG {
        match spec_parse_h256(s.skip(1)) {
            Some((h, n)) => Some((DestinationView::ScriptHash(h), 1 + n)),
            None => None,
        }
    } else {
        None
    }
}

/// Whether a destination can be written.
pub open spec fn destination_encodable(d: DestinationView) -> bool {
    match d {
        DestinationView::PublicKey(k) => k.len() <= u32::MAX,
        DestinationView::Address(a) => a.len() <= u32::MAX,
        _ => true,
    }
}

/// What is written of a destination is read back as that destination.
pub proof fn lemma_destination_roundtrip(d: DestinationView, rest: Seq<u8>)
    requires
        destination_encodable(d),
    ensures
        spec_parse_destination(spec_encode_destination(d).add(rest)) == Some(
            (d, spec_encode_destination(d).len() as int),
        ),
{
    let s = spec_encode_destination(d).add(rest);
    match d {
        DestinationView::AnyoneCanSpend => {
            assert(s[0] == DESTINATION_ANYONE_TAG);
        },
        DestinationView::PublicKey(k) => {
            assert(s[0] == DESTINATION_PUBLIC_KEY_TAG);
            assert(s.skip(1) =~= spec_encode_bytes(k).add(rest));
            lemma_bytes_roundtrip(k, rest);
        },
        DestinationView::Address(a) => {
            assert(s[0] == DESTINATION_ADDRESS_TAG);
            assert(s.skip(1) =~= spec_encode_bytes(a).add(rest));
            lemma_bytes_roundtrip(a, rest);
        },
        DestinationView::ScriptHash(h) => {
            assert(s[0] == DESTINATION_SCRIPT_HASH_TAG);
            assert(s.skip(1) =~= spec_encode_h256(h).add(rest));
            lemma_h256_roundtrip(h, rest);
        },
    }
}

/// Appends the encoding of a destination.
pub fn encode_destination(d: &Destination, out: &mut Vec<u8>)
    requires
        destination_encodable(d@),
    ensures
        final(out)@ == old(out)@.add(spec_encode_destination(d@)),
{
    match d {
        Destination::AnyoneCanSpend => {
            out.push(DESTINATION_ANYONE_TAG);
        },
        Destination::PublicKey(k) => {
            out.push(DESTINATION_PUBLIC_KEY_TAG);
            encode_bytes(k, out);
        },
        Destination::Address(a) => {
            out.push(DESTINATION_ADDRESS_TAG);
            encode_bytes(a, out);
        },
        Destination::ScriptHash(h) => {
            out.push(DESTINATION_SCRIPT_HASH_TAG);
            encode_h256(h, out);
        },
    }
    assert(out@ =~= old(out)@.add(spec_encode_destination(d@)));
}

/// Reads a destination at `pos`; returns it with the place after it.
pub fn decode_destination(data: &[u8], pos: usize) -> (r: Option<(Destination, usize)>)
    requires
        pos <= data@.len(),
    ensures
        match r {
            Some((d, next)) => pos <= next <= data@.len() && spec_parse_destination(
                data@.skip(pos as int),
            ) == Some((d@, next - pos)),
            None => spec_parse_destination(data@.skip(pos as int)).is_none(),
        },
{
    let ghost s = data@.skip(pos as int);
    if pos >= data.len() {
        return None;
    }
    let tag = data[pos];
    assert(s[0] == tag);
    assert(s.skip(1) =~= data@.skip(pos + 1));
    if tag == DESTINATION_ANYONE_TAG {
        Some((Destination::AnyoneCanSpend, pos + 1))
    } else if tag == DESTINATION_PUBLIC_KEY_TAG {
        match decode_bytes(data, pos + 1) {
            Some((k, next)) => Some((Destination::PublicKey(k), next)),
            None => None,
        }
    } else if tag == DESTINATION_ADDRESS_TAG {
        match decode_bytes(data, pos + 1) {
            Some((a, next)) => Some((Destination::Address(a), next)),
            None => None,
        }
    } else if tag == DESTINATION_SCRIPT_HASH_TAG {
        match decode_h256(data, pos + 1) {
            Some((h, next)) => Some((Destination::ScriptHash(h), next)),
            None => None,
        }
    } else {
        None
    }
}

impl Wire for TxOutput {
    /// The amount in sixteen bytes, then the destination.
    open spec fn spec_encode(v: TxOutputView) -> Seq<u8> {
        spec_encode_u128(v.value.atoms).add(spec_encode_destination(v.destination))
    }

    open spec fn spec_parse(s: Seq<u8>) -> Option<(TxOutputView, int)> {
        match spec_parse_u128(s) {
            Some((atoms, k1)) => match spec_parse_destination(s.skip(k1)) {
                Some((destination, k2)) => Some(
                    (TxOutputView { value: Amount { atoms }, destination }, k1 + k2),
                ),
                None => None,
            },
            None => None,
        }
    }

    open spec fn encodable(v: TxOutputView) -> bool {
        destination_encodable(v.destination)
    }

    proof fn lemma_roundtrip(v: TxOutputView, rest: Seq<u8>) {
        let e1 = spec_encode_u128(v.value.atoms);
        let e2 = spec_encode_destination(v.destination);
        let s = Self::spec_encode(v).add(rest);
        assert(s =~= e1.add(e2.add(rest)));
        lemma_u128_roundtrip(v.value.atoms, e2.add(rest));
        assert(s.skip(16) =~= e2.add(rest));
        lemma_destination_roundtrip(v.destination, rest);
    }

    fn check_encodable(&self) -> (r: bool) {
        match &self.destination {
            Destination::PublicKey(k) => k.len() <= 0xffff_ffff,
            Destination::Address(a) => a.len() <= 0xffff_ffff,
            _ => true,
        }
    }

    fn encode_to(&self, out: &mut Vec<u8>) {
        encode_u128(self.value.atoms, out);
        encode_destination(&self.destination, out);
        assert(out@ =~= old(out)@.add(Self::spec_encode(self@)));
    }

    fn decode_from(data: &[u8], pos: usize) -> (r: Option<(Self, usize)>) {
        let ghost s = data@.skip(pos as int);
        let (atoms, at1) = match decode_u128(data, pos) {
            Some(x) => x,
            None => {
                return None;
            },
        };
        assert(s.skip(at1 - pos) =~= data@.skip(at1 as int));
        let (destination, at2) = match decode_destination(data, at1) {
            Some(x) => x,
            None => {
                return None;
            },
        };
        Some((TxOutput { value: Amount { atoms }, destination }, at2))
    }
}

/// The encoding of the end of a transaction: the outputs and the lock time.
pub open spec fn spec_encode_tx_end(outputs: Seq<TxOutputView>, lock_time: u32) -> Seq<u8> {
    spec_encode_list::<TxOutput>(outputs).add(spec_encode_u32(lock_time))
}

/// The end of a transaction at the start of a byte string.
pub open spec fn spec_parse_tx_end(s: Seq<u8>) -> Option<((Seq<TxOutputView>, u32), int)> {
    match spec_parse_list::<TxOutput>(s) {
        Some((outputs, k3)) => if 0 <= k3 <= s.len() {
            match spec_parse_u32(s.skip(k3)) {
                Some((lock_time, k4)) => Some(((outputs, lock_time), k3 + k4)),
                None => None,
            }
        } else {
            None
        },
        None => None,
    }
}

/// What is written of the end of a transaction is read back as it.
pub proof fn lemma_tx_end_roundtrip(outputs: Seq<TxOutputView>, lock_time: u32, rest: Seq<u8>)
    requires
        list_encodable::<TxOutput>(outputs),
    ensures
        spec_parse_tx_end(spec_encode_tx_end(outputs, lock_time).add(rest)) == Some(
            ((outputs, lock_time), spec_encode_tx_end(outputs, lock_time).len() as int),
        ),
{
    let e3 = spec_encode_list::<TxOutput>(outputs);
    let e4 = spec_encode_u32(lock_time);
    let s = spec_encode_tx_end(outputs, lock_time).add(rest);
    assert(s =~= e3.add(e4.add(rest)));
    lemma_list_roundtrip::<TxOutput>(outputs, e4.add(rest));
    assert(s.skip(e3.len() as int) =~= e4.add(rest));
    lemma_u32_roundtrip(lock_time, rest);
}

/// The encoding of a version 1 transaction: flags, inputs, outputs, lock time.
#[verifier::opaque]
pub open spec fn spec_encode_tx_v1(t: TransactionV1View) -> Seq<u8> {
    spec_encode_u32(t.flags).add(
        spec_encode_list::<TxInput>(t.inputs).add(spec_encode_tx_end(t.outputs, t.lock_time)),
    )
}

/// The version 1 transaction at the start of a byte string.
#[verifier::opaque]
pub open spec fn spec_parse_tx_v1(s: Seq<u8>) -> Option<(TransactionV1View, int)> {
    match spec_parse_u32(s) {
        Some((flags, k1)) => match spec_parse_list::<TxInput>(s.skip(k1)) {
            Some((inputs, k2)) => if 0 <= k2 <= s.len() - k1 {
                match spec_parse_tx_end(s.skip(k1 + k2)) {
                    Some(((outputs, lock_time), k3)) => Some(
                        (TransactionV1View { flags, inputs, outputs, lock_time }, k1 + k2 + k3),
                    ),
                    None => None,
                }
            } else {
                None
            },
            None => None,
        },
        None => None,
    }
}

/// Whether a version 1 transaction can be written.
pub open spec fn tx_v1_encodable(t: TransactionV1View) -> bool {
    list_encodable::<TxInput>(t.inputs) && list_encodable::<TxOutput>(t.outputs)
}

/// What is written of a version 1 transaction is read back as it.
pub proof fn lemma_tx_v1_roundtrip(t: TransactionV1View, rest: Seq<u8>)
    requires
        tx_v1_encodable(t),
    ensures
        spec_parse_tx_v1(spec_encode_tx_v1(t).add(rest)) == Some(
            (t, spec_encode_tx_v1(t).len() as int),
        ),
{
    reveal(spec_encode_tx_v1);
    reveal(spec_parse_tx_v1);
    let e1 = spec_encode_u32(t.flags);
    let e2 = spec_encode_list::<TxInput>(t.inputs);
    let e3 = spec_encode_tx_end(t.outputs, t.lock_time);
    let s = spec_encode_tx_v1(t).add(rest);
    assert(s =~= e1.add(e2.add(e3.add(rest))));
    lemma_u32_roundtrip(t.flags, e2.add(e3.add(rest)));
    assert(s.skip(4) =~= e2.add(e3.add(rest)));
    lemma_list_roundtrip::<TxInput>(t.inputs, e3.add(rest));
    assert(s.skip(4 + e2.len() as int) =~= e3.add(rest));
    lemma_tx_end_roundtrip(t.outputs, t.lock_time, rest);
}

/// Reads the end of a transaction at `pos`; returns it with the place after it.
pub fn decode_tx_end(data: &[u8], pos: usize) -> (r: Option<(Vec<TxOutput>, u32, usize)>)
    requires
        pos <= data@.len(),
    ensures
        match r {
            Some((outputs, lock_time, next)) => pos <= next <= data@.len() && spec_parse_tx_end(
                data@.skip(pos as int),
            ) == Some(((views(outputs@), lock_time), next - pos)),
            None => spec_parse_tx_end(data@.skip(pos as int)).is_none(),
        },
{
    let ghost s = data@.skip(pos as int);
    let (outputs, at1) = match decode_list::<TxOutput>(data, pos) {
        Some(x) => x,
        None => {
            return None;
        },
    };
    assert(s.skip(at1 - pos) =~= data@.skip(at1 as int));
    let (lock_time, at2) = match decode_u32(data, at1) {
        Some(x) => x,
        None => {
            return None;
        },
    };
    Some((outputs, lock_time, at2))
}

/// Appends the encoding of a version 1 transaction.
pub fn encode_tx_v1(t: &TransactionV1, out: &mut Vec<u8>)
    requires
        tx_v1_encodable(t@),
    ensures
        final(out)@ == old(out)@.add(spec_encode_tx_v1(t@)),
{
    reveal(spec_encode_tx_v1);
    encode_u32(t.flags, out);
    encode_list(&t.inputs, out);
    encode_list(&t.outputs, out);
    encode_u32(t.lock_time, out);
    proof {
        lemma_tx_views(*t);
    }
    assert(out@ =~= old(out)@.add(spec_encode_tx_v1(t@)));
}

/// Reads a version 1 transaction at `pos`; returns it with the place after it.
pub fn decode_tx_v1(data: &[u8], pos: usize) -> (r: Option<(TransactionV1, usize)>)
    requires
        pos <= data@.len(),
    ensures
        match r {
            Some((t, next)) => pos <= next <= data@.len() && spec_parse_tx_v1(
                data@.skip(pos as int),
            ) == Some((t@, next - pos)),
            None => spec_parse_tx_v1(data@.skip(pos as int)).is_none(),
        },
{
    reveal(spec_parse_tx_v1);
    let ghost t = data@.skip(pos as int);
    let (flags, at1) = match decode_u32(data, pos) {
        Some(x) => x,
        None => {
            return None;
        },
    };
    assert(t.skip(at1 - pos) =~= data@.skip(at1 as int));
    let (inputs, at2) = match decode_list::<TxInput>(data, at1) {
        Some(x) => x,
        None => {
            return None;
        },
    };
    assert(t.skip(at2 - pos) =~= data@.skip(at2 as int));
    let (outputs, lock_time, at3) = match decode_tx_end(data, at2) {
        Some(x) => x,
        None => {
            return None;
        },
    };
    let tx = TransactionV1 { flags, inputs, outputs, lock_time };
    proof {
        lemma_tx_views(tx);
    }
    Some((tx, at3))
}

/// The view of a transaction holds the views of its inputs and outputs.
pub proof fn lemma_tx_views(t: TransactionV1)
    ensures
        t@.inputs == views(t.inputs@),
        t@.outputs == views(t.outputs@),
{
    assert(t@.inputs =~= views(t.inputs@));
    assert(t@.outputs =~= views(t.outputs@));
}

impl Wire for Transaction {
    /// The version byte, then the transaction of that version.
    open spec fn spec_encode(v: TransactionView) -> Seq<u8> {
        match v {
            TransactionView::V1(t) => seq![TRANSACTION_V1_VERSION_BYTE].add(spec_encode_tx_v1(t)),
        }
    }

    open spec fn spec_parse(s: Seq<u8>) -> Option<(TransactionView, int)> {
        if s.len() == 0 || s[0] != TRANSACTION_V1_VERSION_BYTE {
            None
        } else {
            match spec_parse_tx_v1(s.skip(1)) {
                Some((t, k)) => Some((TransactionView::V1(t), 1 + k)),
                None => None,
            }
        }
    }

    open spec fn encodable(v: TransactionView) -> bool {
        match v {
            TransactionView::V1(t) => tx_v1_encodable(t),
        }
    }

    proof fn lemma_roundtrip(v: TransactionView, rest: Seq<u8>) {
        match v {
            TransactionView::V1(t) => {
                let s = Self::spec_encode(v).add(rest);
                assert(s[0] == TRANSACTION_V1_VERSION_BYTE);
                assert(s.skip(1) =~= spec_encode_tx_v1(t).add(rest));
                lemma_tx_v1_roundtrip(t, rest);
            },
        }
    }

    fn check_encodable(&self) -> (r: bool) {
        match self {
            Transaction::V1(t) => check_list_encodable(&t.inputs) && check_list_encodable(
                &t.outputs,
            ),
        }
    }

    fn encode_to(&self, out: &mut Vec<u8>) {
        match self {
            Transaction::V1(t) => {
                out.push(TRANSACTION_V1_VERSION_BYTE);
                encode_tx_v1(t, out);
                assert(out@ =~= old(out)@.add(Self::spec_encode(self@)));
            },
        }
    }

    fn decode_from(data: &[u8], pos: usize) -> (r: Option<(Self, usize)>) {
        let ghost s = data@.skip(pos as int);
        if pos >= data.len() {
            return None;
        }
        if data[pos] != TRANSACTION_V1_VERSION_BYTE {
            assert(s[0] == data@[pos as int]);
            return None;
        }
        assert(s[0] == data@[pos as int]);
        assert(s.skip(1) =~= data@.skip(pos + 1));
        match decode_tx_v1(data, pos + 1) {
            Some((t, next)) => Some((Transaction::V1(t), next)),
            None => None,
        }
    }
}

/// The encoding of the end of a header: the witness Merkle root, the time,
/// the consensus data.
pub open spec fn spec_encode_header_end(root: crate::primitives::H256, time: u32, data: Seq<u8>) -> Seq<
    u8,
> {
    spec_encode_h256(root).add(spec_encode_u32(time).add(spec_encode_bytes(data)))
}

/// The end of a header at the start of a byte string.
pub open spec fn spec_parse_header_end(s: Seq<u8>) -> Option<
    ((crate::primitives::H256, u32, Seq<u8>), int),
> {
    match spec_parse_h256(s) {
        Some((root, k3)) => match spec_parse_u32(s.skip(k3)) {
            Some((time, k4)) => match spec_parse_bytes(s.skip(k3 + k4)) {
                Some((data, k5)) => Some(((root, time, data), k3 + k4 + k5)),
                None => None,
            },
            None => None,
        },
        None => None,
    }
}

/// What is written of the end of a header is read back as it.
pub proof fn lemma_header_end_roundtrip(
    root: crate::primitives::H256,
    time: u32,
    data: Seq<u8>,
    rest: Seq<u8>,
)
    requires
        data.len() <= u32::MAX,
    ensures
        spec_parse_header_end(spec_encode_header_end(root, time, data).add(rest)) == Some(
            ((root, time, data), spec_encode_header_end(root, time, data).len() as int),
        ),
{
    let e3 = spec_encode_h256(root);
    let e4 = spec_encode_u32(time);
    let e5 = spec_encode_bytes(data);
    let s = spec_encode_header_end(root, time, data).add(rest);
    assert(s =~= e3.add(e4.add(e5.add(rest))));
    lemma_h256_roundtrip(root, e4.add(e5.add(rest)));
    assert(s.skip(32) =~= e4.add(e5.add(rest)));
    lemma_u32_roundtrip(time, e5.add(rest));
    assert(s.skip(36) =~= e5.add(rest));
    lemma_bytes_roundtrip(data, rest);
}

/// Reads the end of a header at `pos`; returns it with the place after it.
pub fn decode_header_end(data: &[u8], pos: usize) -> (r: Option<
    (crate::primitives::H256, u32, Vec<u8>, usize),
>)
    requires
        pos <= data@.len(),
    ensures
        match r {
            Some((root, time, bytes, next)) => pos <= next <= data@.len() && spec_parse_header_end(
                data@.skip(pos as int),
            ) == Some(((root, time, bytes@), next - pos)),
            None => spec_parse_header_end(data@.skip(pos as int)).is_none(),
        },
{
    let ghost s = data@.skip(pos as int);
    let (root, at1) = match decode_h256(data, pos) {
        Some(x) => x,
        None => {
            return None;
        },
    };
    assert(s.skip(at1 - pos) =~= data@.skip(at1 as int));
    let (time, at2) = match decode_u32(data, at1) {
        Some(x) => x,
        None => {
            return None;
        },
    };
    assert(s.skip(at2 - pos) =~= data@.skip(at2 as int));
    let (bytes, at3) = match decode_bytes(data, at2) {
        Some(x) => x,
        None => {
            return None;
        },
    };
    Some((root, time, bytes, at3))
}

/// The encoding of a header: the id of the block before, the two Merkle
/// roots, the time, the consensus data.
#[verifier::opaque]
pub open spec fn spec_encode_header(v: BlockHeaderView) -> Seq<u8> {
    spec_encode_h256(v.hash_prev_block.hash).add(
        spec_encode_h256(v.tx_merkle_root).add(
            spec_encode_header_end(v.witness_merkle_root, v.time, v.consensus_data),
        ),
    )
}

/// The header at the start of a byte string.
#[verifier::opaque]
pub open spec fn spec_parse_header(s: Seq<u8>) -> Option<(BlockHeaderView, int)> {
    match spec_parse_h256(s) {
        Some((prev, k1)) => match spec_parse_h256(s.skip(k1)) {
            Some((tx_merkle_root, k2)) => match spec_parse_header_end(s.skip(k1 + k2)) {
                Some(((witness_merkle_root, time, consensus_data), k3)) => Some(
                    (
                        BlockHeaderView {
                            hash_prev_block: BlockId { hash: prev },
                            tx_merkle_root,
                            witness_merkle_root,
                            time,
                            consensus_data,
                        },
                        k1 + k2 + k3,
                    ),
                ),
                None => None,
            },
            None => None,
        },
        None => None,
    }
}

impl Wire for BlockHeader {
    open spec fn spec_encode(v: BlockHeaderView) -> Seq<u8> {
        spec_encode_header(v)
    }

    open spec fn spec_parse(s: Seq<u8>) -> Option<(BlockHeaderView, int)> {
        spec_parse_header(s)
    }

    open spec fn encodable(v: BlockHeaderView) -> bool {
        v.consensus_data.len() <= u32::MAX
    }

    proof fn lemma_roundtrip(v: BlockHeaderView, rest: Seq<u8>) {
        reveal(spec_encode_header);
        reveal(spec_parse_header);
        let e1 = spec_encode_h256(v.hash_prev_block.hash);
        let e2 = spec_encode_h256(v.tx_merkle_root);
        let e3 = spec_encode_header_end(v.witness_merkle_root, v.time, v.consensus_data);
        let s = spec_encode_header(v).add(rest);
        assert(s =~= e1.add(e2.add(e3.add(rest))));
        lemma_h256_roundtrip(v.hash_prev_block.hash, e2.add(e3.add(rest)));
        assert(s.skip(32) =~= e2.add(e3.add(rest)));
        lemma_h256_roundtrip(v.tx_merkle_root, e3.add(rest));
        assert(s.skip(64) =~= e3.add(rest));
        lemma_header_end_roundtrip(v.witness_merkle_root, v.time, v.consensus_data, rest);
    }

    fn check_encodable(&self) -> (r: bool) {
        self.consensus_data.len() <= 0xffff_ffff
    }

    fn encode_to(&self, out: &mut Vec<u8>) {
        reveal(spec_encode_header);
        encode_h256(&self.hash_prev_block.hash, out);
        encode_h256(&self.tx_merkle_root, out);
        encode_h256(&self.witness_merkle_root, out);
        encode_u32(self.time, out);
        encode_bytes(&self.consensus_data, out);
        assert(out@ =~= old(out)@.add(Self::spec_encode(self@)));
    }

    fn decode_from(data: &[u8], pos: usize) -> (r: Option<(Self, usize)>) {
        reveal(spec_parse_header);
        let ghost s = data@.skip(pos as int);
        let (prev, at1) = match decode_h256(data, pos) {
            Some(x) => x,
            None => {
                return None;
            },
        };
        assert(s.skip(at1 - pos) =~= data@.skip(at1 as int));
        let (tx_merkle_root, at2) = match decode_h256(data, at1) {
            Some(x) => x,
            None => {
                return None;
            },
        };
        assert(s.skip(at2 - pos) =~= data@.skip(at2 as int));
        let (witness_merkle_root, time, consensus_data, at3) = match decode_header_end(data, at2) {
            Some(x) => x,
            None => {
                return None;
            },
        };
        Some(
            (
                BlockHeader {
                    hash_prev_block: BlockId { hash: prev },
                    tx_merkle_root,
                    witness_merkle_root,
                    time,
                    consensus_data,
                },
                at3,
            ),
        )
    }
}

impl Wire for Block {
    /// The version byte, then the header, then the transactions.
    open spec fn spec_encode(v: BlockView) -> Seq<u8> {
        match v {
            BlockView::V1(b) => seq![BLOCK_V1_VERSION_BYTE].add(
                BlockHeader::spec_encode(b.header).add(
                    spec_encode_list::<Transaction>(b.transactions),
                ),
            ),
        }
    }

    open spec fn spec_parse(s: Seq<u8>) -> Option<(BlockView, int)> {
        if s.len() == 0 || s[0] != BLOCK_V1_VERSION_BYTE {
            None
        } else {
            match BlockHeader::spec_parse(s.skip(1)) {
                Some((header, k1)) => match spec_parse_list::<Transaction>(s.skip(1 + k1)) {
                    Some((transactions, k2)) => Some(
                        (BlockView::V1(BlockV1View { header, transactions }), 1 + k1 + k2),
                    ),
                    None => None,
                },
                None => None,
            }
        }
    }

    open spec fn encodable(v: BlockView) -> bool {
        match v {
            BlockView::V1(b) => BlockHeader::encodable(b.header) && list_encodable::<Transaction>(
                b.transactions,
            ),
        }
    }

    proof fn lemma_roundtrip(v: BlockView, rest: Seq<u8>) {
        match v {
            BlockView::V1(b) => {
                let e1 = BlockHeader::spec_encode(b.header);
                let e2 = spec_encode_list::<Transaction>(b.transactions);
                let s = Self::spec_encode(v).add(rest);
                assert(s[0] == BLOCK_V1_VERSION_BYTE);
                assert(s.skip(1) =~= e1.add(e2.add(rest)));
                BlockHeader::lemma_roundtrip(b.header, e2.add(rest));
                assert(s.skip(1 + e1.len() as int) =~= e2.add(rest));
                lemma_list_roundtrip::<Transaction>(b.transactions, rest);
            },
        }
    }

    fn check_encodable(&self) -> (r: bool) {
        match self {
            Block::V1(b) => b.header.check_encodable() && check_list_encodable(&b.transactions),
        }
    }

    fn encode_to(&self, out: &mut Vec<u8>) {
        match self {
            Block::V1(b) => {
                out.push(BLOCK_V1_VERSION_BYTE);
                b.header.encode_to(out);
                encode_list(&b.transactions, out);
                assert(out@ =~= old(out)@.add(Self::spec_encode(self@)));
            },
        }
    }

    fn decode_from(data: &[u8], pos: usize) -> (r: Option<(Self, usize)>) {
        let ghost s = data@.skip(pos as int);
        if pos >= data.len() {
            return None;
        }
        assert(s[0] == data@[pos as int]);
        if data[pos] != BLOCK_V1_VERSION_BYTE {
            return None;
        }
        assert(s.skip(1) =~= data@.skip(pos + 1));
        let (header, at1) = match BlockHeader::decode_from(data, pos + 1) {
            Some(x) => x,
            None => {
                return None;
            },
        };
        assert(s.skip(at1 - pos) =~= data@.skip(at1 as int));
        let (transactions, at2) = match decode_list::<Transaction>(data, at1) {
            Some(x) => x,
            None => {
                return None;
            },
        };
        Some((Block::V1(BlockV1 { header, transactions }), at2))
    }
}

/// The block that a byte string is the encoding of: the block at its start,
/// if nothing follows it.
pub open spec fn spec_decode_block(s: Seq<u8>) -> Option<BlockView> {
    match Block::spec_parse(s) {
        Some((b, k)) => if k == s.len() {
            Some(b)
        } else {
            None
        },
        None => None,
    }
}

/// Encoding a block and decoding what was written gives the block back.
pub proof fn lemma_block_roundtrip(block: BlockView)
    requires
        Block::encodable(block),
    ensures
        spec_decode_block(Block::spec_encode(block)) == Some(block),
{
    Block::lemma_roundtrip(block, Seq::empty());
    assert(Block::spec_encode(block).add(Seq::empty()) =~= Block::spec_encode(block));
}

/// The encoding of a block; nothing where a list in it is too long to be
/// written.
pub fn encode_block(block: &Block) -> (r: Option<Vec<u8>>)
    ensures
        match r {
            Some(bytes) => Block::encodable(block@) && bytes@ == Block::spec_encode(block@),
            None => !Block::encodable(block@),
        },
{
    if !block.check_encodable() {
        return None;
    }
    let mut out: Vec<u8> = Vec::new();
    block.encode_to(&mut out);
    assert(out@ =~= Block::spec_encode(block@));
    Some(out)
}

/// The block that the bytes are the encoding of; nothing where they are
/// not the encoding of a block, or where bytes are left over.
pub fn decode_block(data: &[u8]) -> (r: Option<Block>)
    ensures
        match r {
            Some(b) => spec_decode_block(data@) == Some(b@),
            None => spec_decode_block(data@).is_none(),
        },
{
    assert(data@.skip(0) =~= data@);
    match Block::decode_from(data, 0) {
        Some((b, next)) => {
            if next == data.len() {
                Some(b)
            } else {
                None
            }
        },
        None => None,
    }
}

/// The encoding of a header with the version byte before it: what is
/// hashed for the id of a block.
pub open spec fn spec_block_id_preimage(h: BlockHeaderView) -> Seq<u8> {
    seq![BLOCK_V1_VERSION_BYTE].add(BlockHeader::spec_encode(h))
}

/// The bytes that are hashed for the id of a block: the version byte and
/// the encoding of the header. The transactions enter through the Merkle
/// roots only.
pub fn block_id_preimage(header: &BlockHeader) -> (r: Option<Vec<u8>>)
    ensures
        match r {
            Some(bytes) => BlockHeader::encodable(header@) && bytes@ == spec_block_id_preimage(
                header@,
            ),
            None => !BlockHeader::encodable(header@),
        },
{
    if !header.check_encodable() {
        return None;
    }
    let mut out: Vec<u8> = Vec::new();
    out.push(BLOCK_V1_VERSION_BYTE);
    header.encode_to(&mut out);
    assert(out@ =~= spec_block_id_preimage(header@));
    Some(out)
}

/// The encoding of an input without its witness: the outpoint alone.
pub open spec fn spec_encode_input_no_witness(v: TxInputView) -> Seq<u8> {
    spec_encode_h256(v.outpoint.id.hash).add(spec_encode_u32(v.outpoint.index))
}

/// The encodings of inputs without their witnesses, one after the other.
pub open spec fn spec_encode_inputs_no_witness(inputs: Seq<TxInputView>) -> Seq<u8>
    decreases inputs.len(),
{
    if inputs.len() == 0 {
        Seq::empty()
    } else {
        spec_encode_inputs_no_witness(inputs.drop_last()).add(
            spec_encode_input_no_witness(inputs.last()),
        )
    }
}

/// The encoding of a transaction without witnesses, with the version byte
/// before it: what is hashed for the id by which outpoints name the
/// transaction, so that a change of a witness does not change the id.
pub open spec fn spec_tx_id_preimage(t: TransactionV1View) -> Seq<u8> {
    seq![TRANSACTION_V1_VERSION_BYTE].add(
        spec_encode_u32(t.flags).add(
            crate::codec::prim::spec_compact(t.inputs.len() as u32).add(
                spec_encode_inputs_no_witness(t.inputs).add(
                    spec_encode_tx_end(t.outputs, t.lock_time),
                ),
            ),
        ),
    )
}

/// The bytes that are hashed for the id of a transaction; nothing where a
/// list in it is too long to be written.
pub fn tx_id_preimage(t: &TransactionV1) -> (r: Option<Vec<u8>>)
    ensures
        match r {
            Some(bytes) => t@.inputs.len() <= u32::MAX && list_encodable::<TxOutput>(t@.outputs)
                && bytes@ == spec_tx_id_preimage(t@),
            None => !(t@.inputs.len() <= u32::MAX && list_encodable::<TxOutput>(t@.outputs)),
        },
{
    proof {
        lemma_tx_views(*t);
    }
    if t.inputs.len() > 0xffff_ffff || !check_list_encodable(&t.outputs) {
        return None;
    }
    let mut out: Vec<u8> = Vec::new();
    out.push(TRANSACTION_V1_VERSION_BYTE);
    encode_u32(t.flags, &mut out);
    crate::codec::prim::encode_compact(t.inputs.len() as u32, &mut out);
    let ghost base = out@;
    let ghost ins = t@.inputs;
    let mut i: usize = 0;
    assert(ins.take(0) =~= Seq::<TxInputView>::empty());
    assert(base.add(spec_encode_inputs_no_witness(ins.take(0))) =~= base);
    while i < t.inputs.len()
        invariant
            i <= t.inputs@.len(),
            ins == t@.inputs,
            out@ == base.add(spec_encode_inputs_no_witness(ins.take(i as int))),
        decreases t.inputs@.len() - i,
    {
        let ghost before = out@;
        encode_h256(&t.inputs[i].outpoint.id.hash, &mut out);
        encode_u32(t.inputs[i].outpoint.index, &mut out);
        proof {
            assert(ins[i as int] == t.inputs@[i as int]@);
            assert(ins.take(i as int + 1).drop_last() =~= ins.take(i as int));
            assert(ins.take(i as int + 1).last() == ins[i as int]);
            assert(out@ =~= before.add(spec_encode_input_no_witness(ins[i as int])));
            assert(out@ =~= base.add(spec_encode_inputs_no_witness(ins.take(i as int + 1))));
        }
        i = i + 1;
    }
    assert(ins.take(t.inputs@.len() as int) =~= ins);
    encode_list(&t.outputs, &mut out);
    encode_u32(t.lock_time, &mut out);
    assert(out@ =~= spec_tx_id_preimage(t@));
    Some(out)
}

/// The preimage of the id of a transaction does not depend on witnesses.
pub proof fn lemma_tx_id_ignores_witnesses(a: TransactionV1View, b: TransactionV1View)
    requires
        a.flags == b.flags,
        a.outputs == b.outputs,
        a.lock_time == b.lock_time,
        a.inputs.len() == b.inputs.len(),
        forall|i: int| 0 <= i < a.inputs.len() ==> a.inputs[i].outpoint == b.inputs[i].outpoint,
    ensures
        spec_tx_id_preimage(a) == spec_tx_id_preimage(b),
{
    lemma_inputs_no_witness(a.inputs, b.inputs);
}

proof fn lemma_inputs_no_witness(a: Seq<TxInputView>, b: Seq<TxInputView>)
    requires
        a.len() == b.len(),
        forall|i: int| 0 <= i < a.len() ==> a[i].outpoint == b[i].outpoint,
    ensures
        spec_encode_inputs_no_witness(a) == spec_encode_inputs_no_witness(b),
    decreases a.len(),
{
    if a.len() > 0 {
        lemma_inputs_no_witness(a.drop_last(), b.drop_last());
    }
}

} // verus!
