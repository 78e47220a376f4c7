//! What it takes for a type to be written on the wire, and the encoding of
//! lists of such values.

use crate::codec::prim::{
    decode_compact, encode_compact, lemma_compact_roundtrip, spec_compact, spec_parse_compact,
};
use vstd::prelude::*;

verus! {

/// A type with a wire encoding. The encoding is stated over the view of
/// the type: what is written of a value, what is read from the start of a
/// byte string, and that the second undoes the first.
pub trait Wire: View + Sized {
    /// The bytes that a value is written as.
    spec fn spec_encode(v: Self::V) -> Seq<u8>;

    /// The value at the start of a byte string and the number of bytes that
    /// it takes, if the byte string starts with the encoding of a value.
    spec fn spec_parse(s: Seq<u8>) -> Option<(Self::V, int)>;

    /// Whether the value can be written: no list in it is longer than a
    /// 32-bit number can say.
    spec fn encodable(v: Self::V) -> bool;

    /// What is written of a value is read back as that value, whatever follows.
    proof fn lemma_roundtrip(v: Self::V, rest: Seq<u8>)
        requires
            Self::encodable(v),
        ensures
            Self::spec_parse(Self::spec_encode(v).add(rest)) == Some(
                (v, Self::spec_encode(v).len() as int),
            ),
    ;

    /// Whether the value can be written.
    fn check_encodable(&self) -> (r: bool)
        ensures
            r == Self::encodable(self@),
    ;

    /// Appends the encoding of the value.
    fn encode_to(&self, out: &mut Vec<u8>)
        requires
            Self::encodable(self@),
        ensures
            final(out)@ == old(out)@.add(Self::spec_encode(self@)),
    ;

    /// Reads a value at `pos`; returns it with the place after it.
    fn decode_from(data: &[u8], pos: usize) -> (r: Option<(Self, usize)>)
        requires
            pos <= data@.len(),
        ensures
            match r {
                Some((v, next)) => pos <= next <= data@.len() && Self::spec_parse(
                    data@.skip(pos as int),
                ) == Some((v@, next - pos)),
                None => Self::spec_parse(data@.skip(pos as int)).is_none(),
            },
    ;
}

/// The views of a list of values, in order.
pub open spec fn views<T: Wire>(items: Seq<T>) -> Seq<T::V> {
    items.map_values(|t: T| t@)
}

/// The encodings of the values of a list, one after the other.
pub open spec fn spec_encode_items<T: Wire>(items: Seq<T::V>) -> Seq<u8>
    decreases items.len(),
{
    if items.len() == 0 {
        Seq::empty()
    } else {
        T::spec_encode(items[0]).add(spec_encode_items::<T>(items.skip(1)))
    }
}

/// The `count` values at the start of a byte string and the number of
/// bytes that they take.
pub open spec fn spec_parse_items<T: Wire>(s: Seq<u8>, count: nat) -> Option<(Seq<T::V>, int)>
    decreases count,
{
    if count == 0 {
        Some((Seq::empty(), 0))
    } else {
        match T::spec_parse(s) {
            Some((v, k)) => if 0 <= k <= s.len() {
                match spec_parse_items::<T>(s.skip(k), (count - 1) as nat) {
                    Some((vs, k2)) => Some((seq![v].add(vs), k + k2)),
                    None => None,
                }
            } else {
                None
            },
            None => None,
        }
    }
}

/// The encoding of a list: the number of its values, compactly, then the
/// values.
#[verifier::opaque]
pub open spec fn spec_encode_list<T: Wire>(items: Seq<T::V>) -> Seq<u8> {
    spec_compact(items.len() as u32).add(spec_encode_items::<T>(items))
}

/// The list at the start of a byte string and the number of bytes it takes.
#[verifier::opaque]
pub open spec fn spec_parse_list<T: Wire>(s: Seq<u8>) -> Option<(Seq<T::V>, int)> {
    match spec_parse_compact(s) {
        Some((n, k)) => if 0 <= k <= s.len() {
            match spec_parse_items::<T>(s.skip(k), n as nat) {
                Some((vs, k2)) => Some((vs, k + k2)),
                None => None,
            }
        } else {
            None
        },
        None => None,
    }
}

/// Whether a list can be written.
pub open spec fn list_encodable<T: Wire>(items: Seq<T::V>) -> bool {
    items.len() <= u32::MAX && forall|i: int| 0 <= i < items.len() ==> T::encodable(#[trigger] items[i])
}

/// The encoding of a list with one more value at its end.
pub proof fn lemma_encode_items_push<T: Wire>(items: Seq<T::V>, v: T::V)
    ensures
        spec_encode_items::<T>(items.push(v)) == spec_encode_items::<T>(items).add(
            T::spec_encode(v),
        ),
    decreases items.len(),
{
    if items.len() == 0 {
        assert(items.push(v).skip(1) =~= Seq::<T::V>::empty());
        assert(items.push(v)[0] == v);
        assert(spec_encode_items::<T>(items.push(v).skip(1)) =~= Seq::<u8>::empty());
        assert(spec_encode_items::<T>(items.push(v)) =~= T::spec_encode(v));
        assert(spec_encode_items::<T>(items).add(T::spec_encode(v)) =~= T::spec_encode(v));
    } else {
        lemma_encode_items_push::<T>(items.skip(1), v);
        assert(items.push(v).skip(1) =~= items.skip(1).push(v));
        assert(items.push(v)[0] == items[0]);
        assert(spec_encode_items::<T>(items.push(v)) =~= spec_encode_items::<T>(items).add(
            T::spec_encode(v),
        ));
    }
}

/// What is written of the values of a list is read back as those values.
pub proof fn lemma_items_roundtrip<T: Wire>(items: Seq<T::V>, rest: Seq<u8>)
    requires
        forall|i: int| 0 <= i < items.len() ==> T::encodable(#[trigger] items[i]),
    ensures
        spec_parse_items::<T>(spec_encode_items::<T>(items).add(rest), items.len()) == Some(
            (items, spec_encode_items::<T>(items).len() as int),
        ),
    decreases items.len(),
{
    if items.len() == 0 {
    } else {
        let head = T::spec_encode(items[0]);
        let tail = spec_encode_items::<T>(items.skip(1));
        let s = spec_encode_items::<T>(items).add(rest);
        assert(s =~= head.add(tail.add(rest)));
        T::lemma_roundtrip(items[0], tail.add(rest));
        assert(s.skip(head.len() as int) =~= tail.add(rest));
        assert forall|i: int| 0 <= i < items.skip(1).len() implies T::encodable(
            #[trigger] items.skip(1)[i],
        ) by {
            assert(items.skip(1)[i] == items[i + 1]);
        }
        lemma_items_roundtrip::<T>(items.skip(1), rest);
        assert(seq![items[0]].add(items.skip(1)) =~= items);
    }
}

/// What is written of a list is read back as that list.
pub proof fn lemma_list_roundtrip<T: Wire>(items: Seq<T::V>, rest: Seq<u8>)
    requires
        list_encodable::<T>(items),
    ensures
        spec_parse_list::<T>(spec_encode_list::<T>(items).add(rest)) == Some(
            (items, spec_encode_list::<T>(items).len() as int),
        ),
{
    reveal(spec_encode_list);
    reveal(spec_parse_list);
    let n = items.len() as u32;
    let body = spec_encode_items::<T>(items);
    let s = spec_encode_list::<T>(items).add(rest);
    assert(s =~= spec_compact(n).add(body.add(rest)));
    lemma_compact_roundtrip(n, body.add(rest));
    assert(s.skip(spec_compact(n).len() as int) =~= body.add(rest));
    lemma_items_roundtrip::<T>(items, rest);
}

/// Appends the encoding of a list.
pub fn encode_list<T: Wire>(items: &Vec<T>, out: &mut Vec<u8>)
    requires
        list_encodable::<T>(views(items@)),
    ensures
        final(out)@ == old(out)@.add(spec_encode_list::<T>(views(items@))),
{
    reveal(spec_encode_list);
    let ghost vs = views(items@);
    encode_compact(items.len() as u32, out);
    let ghost base = out@;
    let mut i: usize = 0;
    assert(vs.take(0) =~= Seq::<T::V>::empty());
    assert(base.add(spec_encode_items::<T>(vs.take(0))) =~= base);
    while i < items.len()
        invariant
            i <= items@.len(),
            vs == views(items@),
            list_encodable::<T>(vs),
            out@ == base.add(spec_encode_items::<T>(vs.take(i as int))),
        decreases items@.len() - i,
    {
        assert(vs[i as int] == items@[i as int]@);
        items[i].encode_to(out);
        proof {
            lemma_encode_items_push::<T>(vs.take(i as int), vs[i as int]);
            assert(vs.take(i as int + 1) =~= vs.take(i as int).push(vs[i as int]));
            assert(out@ =~= base.add(spec_encode_items::<T>(vs.take(i as int + 1))));
        }
        i = i + 1;
    }
    proof {
        assert(vs.take(items@.len() as int) =~= vs);
        assert(out@ =~= old(out)@.add(spec_encode_list::<T>(vs)));
    }
}

/// Reads a list at `pos`; returns it with the place after it.
pub fn decode_list<T: Wire>(data: &[u8], pos: usize) -> (r: Option<(Vec<T>, usize)>)
    requires
        pos <= data@.len(),
    ensures
        match r {
            Some((v, next)) => pos <= next <= data@.len() && spec_parse_list::<T>(
                data@.skip(pos as int),
            ) == Some((views(v@), next - pos)),
            None => spec_parse_list::<T>(data@.skip(pos as int)).is_none(),
        },
{
    reveal(spec_parse_list);
    let (n, start) = match decode_compact(data, pos) {
        Some(x) => x,
        None => {
            return None;
        },
    };
    let ghost s0 = data@.skip(pos as int);
    let ghost whole = spec_parse_items::<T>(data@.skip(start as int), n as nat);
    assert(s0.skip(start - pos) =~= data@.skip(start as int));
    let mut items: Vec<T> = Vec::new();
    let mut at: usize = start;
    let mut i: u32 = 0;
    assert(views(items@) =~= Seq::<T::V>::empty());
    while i < n
        invariant
            i <= n,
            pos <= start <= at <= data@.len(),
            s0 == data@.skip(pos as int),
            spec_parse_compact(s0) == Some((n, start - pos)),
            s0.skip(start - pos) == data@.skip(start as int),
            whole == spec_parse_items::<T>(data@.skip(start as int), n as nat),
            whole == match spec_parse_items::<T>(data@.skip(at as int), (n - i) as nat) {
                Some((vs, k)) => Some((views(items@).add(vs), (at - start) + k)),
                None => None,
            },
        decreases n - i,
    {
        let ghost before = views(items@);
        let ghost s = data@.skip(at as int);
        match T::decode_from(data, at) {
            None => {
                proof {
                    reveal(spec_parse_list);
                }
                assert(spec_parse_items::<T>(s, (n - i) as nat).is_none());
                return None;
            },
            Some((v, next)) => {
                proof {
                    assert(s.skip(next - at) =~= data@.skip(next as int));
                    match spec_parse_items::<T>(data@.skip(next as int), (n - i - 1) as nat) {
                        Some((vs, k)) => {
                            assert(before.add(seq![v@].add(vs)) =~= before.push(v@).add(vs));
                        },
                        None => {},
                    }
                }
                items.push(v);
                assert(views(items@) =~= before.push(v@));
                at = next;
            },
        }
        i = i + 1;
    }
    proof {
        assert(views(items@).add(Seq::<T::V>::empty()) =~= views(items@));
    }
    Some((items, at))
}

/// Whether a list can be written.
pub fn check_list_encodable<T: Wire>(items: &Vec<T>) -> (r: bool)
    ensures
        r == list_encodable::<T>(views(items@)),
{
    if items.len() > 0xffff_ffff {
        return false;
    }
    let ghost vs = views(items@);
    let mut i: usize = 0;
    while i < items.len()
        invariant
            i <= items@.len(),
            vs == views(items@),
            forall|k: int| 0 <= k < i ==> T::encodable(#[trigger] vs[k]),
        decreases items@.len() - i,
    {
        assert(vs[i as int] == items@[i as int]@);
        if !items[i].check_encodable() {
            return false;
        }
        i = i + 1;
    }
    true
}

} // verus!
