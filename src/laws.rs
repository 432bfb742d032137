//! Laws that relate the operations of the codec to one another.
use vstd::prelude::*;

use crate::codec::{decode_seq, encode_seq, written_into, ZigZag};

verus! {

/// Encoding is a bijection between the signed and the unsigned type: two
/// values with the same encoding are equal, and every unsigned value is the
/// encoding of exactly one signed value, its decoding.
pub proof fn lemma_encode_bijective<T: ZigZag>(a: T, b: T, u: T::UInt)
    ensures
        T::spec_encode(a) == T::spec_encode(b) ==> a == b,
        T::spec_encode(T::spec_decode(u)) == u,
        T::spec_encode(a) == u ==> a == T::spec_decode(u),
{
    T::lemma_decode_encode(a);
    T::lemma_decode_encode(b);
    T::lemma_encode_decode(u);
}

/// The lazy sequence and the batch operation agree, element by element and
/// in order: the `i`th value produced lazily from `values` is the encoding
/// of `values[i]`, and it is what the batch operation writes into slot `i`.
pub proof fn lemma_lazy_encode_matches_batch<T: ZigZag>(
    values: Seq<T>,
    before: Seq<T::UInt>,
    after: Seq<T::UInt>,
)
    requires
        written_into(values, |v: T| T::spec_encode(v), before, after),
        before.len() >= values.len(),
    ensures
        encode_seq(values).len() == values.len(),
        forall|i: int|
            0 <= i < values.len() ==> #[trigger] encode_seq(values)[i] == T::spec_encode(values[i]),
        after.subrange(0, values.len() as int) == encode_seq(values),
{
    assert(after.subrange(0, values.len() as int) =~= encode_seq(values));
}

/// The lazy sequence and the batch operation agree, element by element and
/// in order: the `i`th value produced lazily from `values` is the decoding
/// of `values[i]`, and it is what the batch operation writes into slot `i`.
pub proof fn lemma_lazy_decode_matches_batch<T: ZigZag>(
    values: Seq<T::UInt>,
    before: Seq<T>,
    after: Seq<T>,
)
    requires
        written_into(values, |u: T::UInt| T::spec_decode(u), before, after),
        before.len() >= values.len(),
    ensures
        decode_seq::<T>(values).len() == values.len(),
        forall|i: int|
            0 <= i < values.len() ==> #[trigger] decode_seq::<T>(values)[i] == T::spec_decode(
                values[i],
            ),
        after.subrange(0, values.len() as int) == decode_seq::<T>(values),
{
    assert(after.subrange(0, values.len() as int) =~= decode_seq::<T>(values));
}

/// Encoding a sequence lazily and decoding the result lazily gives the
/// sequence back.
pub proof fn lemma_lazy_round_trip<T: ZigZag>(values: Seq<T>)
    ensures
        decode_seq::<T>(encode_seq(values)) == values,
{
    assert forall|i: int| 0 <= i < values.len() implies #[trigger] decode_seq::<T>(
        encode_seq(values),
    )[i] == values[i] by {
        T::lemma_decode_encode(values[i]);
    }
    assert(decode_seq::<T>(encode_seq(values)) =~= values);
}

} // verus!
