//! The codec trait, its batch operations and its instances for each width.
use vstd::prelude::*;

use crate::error::ZigZagError;
use crate::model::{
    lemma_unzigzag_in_range, lemma_unzigzag_zigzag, lemma_zigzag_in_range, lemma_zigzag_unzigzag,
    unzigzag, zigzag,
};

verus! {

/// The values of `values`, each encoded.
pub open spec fn encode_seq<T: ZigZag>(values: Seq<T>) -> Seq<T::UInt> {
    values.map_values(|v: T| T::spec_encode(v))
}

/// The values of `values`, each decoded.
pub open spec fn decode_seq<T: ZigZag>(values: Seq<T::UInt>) -> Seq<T> {
    values.map_values(|u: T::UInt| T::spec_decode(u))
}

/// `after` is `before` with its first `values.len()` slots replaced by the
/// images of `values` under `f`, in order, and its other slots kept.
pub open spec fn written_into<A, B>(
    values: Seq<A>,
    f: spec_fn(A) -> B,
    before: Seq<B>,
    after: Seq<B>,
) -> bool {
    &&& after.len() == before.len()
    &&& forall|i: int| 0 <= i < values.len() ==> after[i] == f(#[trigger] values[i])
    &&& forall|i: int| values.len() <= i < before.len() ==> after[i] == before[i]
}

/// A signed integer type paired with the unsigned type of the same width,
/// with ZigZag encoding between the two.
///
/// The instances for `i8`, `i16`, `i32`, `i64` and `i128` all compute
/// `(value << 1) ^ (value >> (W - 1))` with an arithmetic right shift to
/// encode, and `(value >> 1) ^ -(value & 1)` to decode, and each proves that
/// this is [`zigzag`] and [`unzigzag`] of the unbounded integers.
pub trait ZigZag: Sized + Copy {
    /// The unsigned type of the same width.
    type UInt: Copy;

    /// What `zigzag_encode` returns for `value`.
    spec fn spec_encode(value: Self) -> Self::UInt;

    /// What `zigzag_decode` returns for `value`.
    spec fn spec_decode(value: Self::UInt) -> Self;

    /// Decoding an encoded value gives the value back.
    proof fn lemma_decode_encode(value: Self)
        ensures
            Self::spec_decode(Self::spec_encode(value)) == value,
    ;

    /// Encoding a decoded value gives the value back.
    proof fn lemma_encode_decode(value: Self::UInt)
        ensures
            Self::spec_encode(Self::spec_decode(value)) == value,
    ;

    /// Encodes a signed integer.
    fn zigzag_encode(value: Self) -> (r: Self::UInt)
        ensures
            r == Self::spec_encode(value),
    ;

    /// Decodes an unsigned integer back to the signed one.
    fn zigzag_decode(value: Self::UInt) -> (r: Self)
        ensures
            r == Self::spec_decode(value),
    ;

    /// Encodes `values` into the first `values.len()` slots of `out`; the
    /// other slots keep their values. `out` must be at least as long as
    /// `values`.
    fn zigzag_encode_slice(values: &[Self], out: &mut [Self::UInt])
        requires
            old(out)@.len() >= values@.len(),
        ensures
            written_into(values@, |v: Self| Self::spec_encode(v), old(out)@, final(out)@),
    {
        let n = values.len();
        let mut i: usize = 0;
        while i < n
            invariant
                n == values@.len(),
                n <= old(out)@.len(),
                i <= n,
                out@.len() == old(out)@.len(),
                forall|j: int| 0 <= j < i ==> out@[j] == Self::spec_encode(values@[j]),
                forall|j: int| i <= j < out@.len() ==> out@[j] == old(out)@[j],
            decreases n - i,
        {
            out[i] = Self::zigzag_encode(values[i]);
            i = i + 1;
        }
    }

    /// Decodes `values` into the first `values.len()` slots of `out`; the
    /// other slots keep their values. `out` must be at least as long as
    /// `values`.
    fn zigzag_decode_slice(values: &[Self::UInt], out: &mut [Self])
        requires
            old(out)@.len() >= values@.len(),
        ensures
            written_into(values@, |u: Self::UInt| Self::spec_decode(u), old(out)@, final(out)@),
    {
        let n = values.len();
        let mut i: usize = 0;
        while i < n
            invariant
                n == values@.len(),
                n <= old(out)@.len(),
                i <= n,
                out@.len() == old(out)@.len(),
                forall|j: int| 0 <= j < i ==> out@[j] == Self::spec_decode(values@[j]),
                forall|j: int| i <= j < out@.len() ==> out@[j] == old(out)@[j],
            decreases n - i,
        {
            out[i] = Self::zigzag_decode(values[i]);
            i = i + 1;
        }
    }

    /// Like `zigzag_encode_slice`, but where `out` is shorter than `values`
    /// returns `BufferTooSmall` with both lengths and leaves `out` as it was.
    fn try_zigzag_encode_slice(values: &[Self], out: &mut [Self::UInt]) -> (r: Result<(), ZigZagError>)
        ensures
            r is Ok <==> old(out)@.len() >= values@.len(),
            r is Ok ==> written_into(values@, |v: Self| Self::spec_encode(v), old(out)@, final(out)@),
            r is Err ==> final(out)@ == old(out)@ && r->Err_0 == (ZigZagError::BufferTooSmall {
                needed: values@.len() as usize,
                actual: old(out)@.len() as usize,
            }),
    {
        if out.len() < values.len() {
            return Err(ZigZagError::BufferTooSmall { needed: values.len(), actual: out.len() });
        }
        Self::zigzag_encode_slice(values, out);
        Ok(())
    }

    /// Like `zigzag_decode_slice`, but where `out` is shorter than `values`
    /// returns `BufferTooSmall` with both lengths and leaves `out` as it was.
    fn try_zigzag_decode_slice(values: &[Self::UInt], out: &mut [Self]) -> (r: Result<(), ZigZagError>)
        ensures
            r is Ok <==> old(out)@.len() >= values@.len(),
            r is Ok ==> written_into(values@, |u: Self::UInt| Self::spec_decode(u), old(out)@, final(out)@),
            r is Err ==> final(out)@ == old(out)@ && r->Err_0 == (ZigZagError::BufferTooSmall {
                needed: values@.len() as usize,
                actual: old(out)@.len() as usize,
            }),
    {
        if out.len() < values.len() {
            return Err(ZigZagError::BufferTooSmall { needed: values.len(), actual: out.len() });
        }
        Self::zigzag_decode_slice(values, out);
        Ok(())
    }
}

impl ZigZag for i8 {
    type UInt = u8;

    open spec fn spec_encode(value: i8) -> u8 {
        zigzag(value as int) as u8
    }

    open spec fn spec_decode(value: u8) -> i8 {
        unzigzag(value as int) as i8
    }

    proof fn lemma_decode_encode(value: i8) {
        lemma_zigzag_in_range(value as int, 0x80);
        lemma_unzigzag_zigzag(value as int);
    }

    proof fn lemma_encode_decode(value: u8) {
        lemma_unzigzag_in_range(value as int, 0x80);
        lemma_zigzag_unzigzag(value as int);
    }

    fn zigzag_encode(value: i8) -> (r: u8)
        ensures
            r as int == zigzag(value as int),
    {
        let r = ((value << 1u8) ^ (value >> 7u8)) as u8;
        assert(r == (if value >= 0 { 2 * value } else { -2 * value - 1 }) as u8) by (bit_vector)
            requires
                r == ((value << 1u8) ^ (value >> 7u8)) as u8,
        ;
        proof {
            lemma_zigzag_in_range(value as int, 0x80);
        }
        r
    }

    fn zigzag_decode(value: u8) -> (r: i8)
        ensures
            r as int == unzigzag(value as int),
    {
        assert(value >> 1u8 <= 0x7fu8 && value & 1u8 <= 1u8) by (bit_vector);
        let half = (value >> 1u8) as i8;
        let mask = -((value & 1u8) as i8);
        let r = half ^ mask;
        assert(r as int == if value % 2 == 0 { (value / 2) as int } else { -((value + 1) / 2) })
            by (bit_vector)
            requires
                half == (value >> 1u8) as i8,
                mask == -((value & 1u8) as i8),
                r == half ^ mask,
        ;
        proof {
            lemma_unzigzag_in_range(value as int, 0x80);
        }
        r
    }
}

impl ZigZag for i16 {
    type UInt = u16;

    open spec fn spec_encode(value: i16) -> u16 {
        zigzag(value as int) as u16
    }

    open spec fn spec_decode(value: u16) -> i16 {
        unzigzag(value as int) as i16
    }

    proof fn lemma_decode_encode(value: i16) {
        lemma_zigzag_in_range(value as int, 0x8000);
        lemma_unzigzag_zigzag(value as int);
    }

    proof fn lemma_encode_decode(value: u16) {
        lemma_unzigzag_in_range(value as int, 0x8000);
        lemma_zigzag_unzigzag(value as int);
    }

    fn zigzag_encode(value: i16) -> (r: u16)
        ensures
            r as int == zigzag(value as int),
    {
        let r = ((value << 1u16) ^ (value >> 15u16)) as u16;
        assert(r == (if value >= 0 { 2 * value } else { -2 * value - 1 }) as u16) by (bit_vector)
            requires
                r == ((value << 1u16) ^ (value >> 15u16)) as u16,
        ;
        proof {
            lemma_zigzag_in_range(value as int, 0x8000);
        }
        r
    }

    fn zigzag_decode(value: u16) -> (r: i16)
        ensures
            r as int == unzigzag(value as int),
    {
        assert(value >> 1u16 <= 0x7fffu16 && value & 1u16 <= 1u16) by (bit_vector);
        let half = (value >> 1u16) as i16;
        let mask = -((value & 1u16) as i16);
        let r = half ^ mask;
        assert(r as int == if value % 2 == 0 { (value / 2) as int } else { -((value + 1) / 2) })
            by (bit_vector)
            requires
                half == (value >> 1u16) as i16,
                mask == -((value & 1u16) as i16),
                r == half ^ mask,
        ;
        proof {
            lemma_unzigzag_in_range(value as int, 0x8000);
        }
        r
    }
}

impl ZigZag for i32 {
    type UInt = u32;

    open spec fn spec_encode(value: i32) -> u32 {
        zigzag(value as int) as u32
    }

    open spec fn spec_decode(value: u32) -> i32 {
        unzigzag(value as int) as i32
    }

    proof fn lemma_decode_encode(value: i32) {
        lemma_zigzag_in_range(value as int, 0x8000_0000);
        lemma_unzigzag_zigzag(value as int);
    }

    proof fn lemma_encode_decode(value: u32) {
        lemma_unzigzag_in_range(value as int, 0x8000_0000);
        lemma_zigzag_unzigzag(value as int);
    }

    fn zigzag_encode(value: i32) -> (r: u32)
        ensures
            r as int == zigzag(value as int),
    {
        let r = ((value << 1u32) ^ (value >> 31u32)) as u32;
        assert(r == (if value >= 0 { 2 * value } else { -2 * value - 1 }) as u32) by (bit_vector)
            requires
                r == ((value << 1u32) ^ (value >> 31u32)) as u32,
        ;
        proof {
            lemma_zigzag_in_range(value as int, 0x8000_0000);
        }
        r
    }

    fn zigzag_decode(value: u32) -> (r: i32)
        ensures
            r as int == unzigzag(value as int),
    {
        assert(value >> 1u32 <= 0x7fff_ffffu32 && value & 1u32 <= 1u32) by (bit_vector);
        let half = (value >> 1u32) as i32;
        let mask = -((value & 1u32) as i32);
        let r = half ^ mask;
        assert(r as int == if value % 2 == 0 { (value / 2) as int } else { -((value + 1) / 2) })
            by (bit_vector)
            requires
                half == (value >> 1u32) as i32,
                mask == -((value & 1u32) as i32),
                r == half ^ mask,
        ;
        proof {
            lemma_unzigzag_in_range(value as int, 0x8000_0000);
        }
        r
    }
}

impl ZigZag for i64 {
    type UInt = u64;

    open spec fn spec_encode(value: i64) -> u64 {
        zigzag(value as int) as u64
    }

    open spec fn spec_decode(value: u64) -> i64 {
        unzigzag(value as int) as i64
    }

    proof fn lemma_decode_encode(value: i64) {
        lemma_zigzag_in_range(value as int, 0x8000_0000_0000_0000);
        lemma_unzigzag_zigzag(value as int);
    }

    proof fn lemma_encode_decode(value: u64) {
        lemma_unzigzag_in_range(value as int, 0x8000_0000_0000_0000);
        lemma_zigzag_unzigzag(value as int);
    }

    fn zigzag_encode(value: i64) -> (r: u64)
        ensures
            r as int == zigzag(value as int),
    {
        let r = ((value << 1u64) ^ (value >> 63u64)) as u64;
        assert(r == (if value >= 0 { 2 * value } else { -2 * value - 1 }) as u64) by (bit_vector)
            requires
                r == ((value << 1u64) ^ (value >> 63u64)) as u64,
        ;
        proof {
            lemma_zigzag_in_range(value as int, 0x8000_0000_0000_0000);
        }
        r
    }

    fn zigzag_decode(value: u64) -> (r: i64)
        ensures
            r as int == unzigzag(value as int),
    {
        assert(value >> 1u64 <= 0x7fff_ffff_ffff_ffffu64 && value & 1u64 <= 1u64) by (bit_vector);
        let half = (value >> 1u64) as i64;
        let mask = -((value & 1u64) as i64);
        let r = half ^ mask;
        assert(r as int == if value % 2 == 0 { (value / 2) as int } else { -((value + 1) / 2) })
            by (bit_vector)
            requires
                half == (value >> 1u64) as i64,
                mask == -((value & 1u64) as i64),
                r == half ^ mask,
        ;
        proof {
            lemma_unzigzag_in_range(value as int, 0x8000_0000_0000_0000);
        }
        r
    }
}

impl ZigZag for i128 {
    type UInt = u128;

    open spec fn spec_encode(value: i128) -> u128 {
        zigzag(value as int) as u128
    }

    open spec fn spec_decode(value: u128) -> i128 {
        unzigzag(value as int) as i128
    }

    proof fn lemma_decode_encode(value: i128) {
        lemma_zigzag_in_range(value as int, 0x8000_0000_0000_0000_0000_0000_0000_0000);
        lemma_unzigzag_zigzag(value as int);
    }

    proof fn lemma_encode_decode(value: u128) {
        lemma_unzigzag_in_range(value as int, 0x8000_0000_0000_0000_0000_0000_0000_0000);
        lemma_zigzag_unzigzag(value as int);
    }

    fn zigzag_encode(value: i128) -> (r: u128)
        ensures
            r as int == zigzag(value as int),
    {
        let r = ((value << 1u128) ^ (value >> 127u128)) as u128;
        assert(r == (if value >= 0 { 2 * value } else { -2 * value - 1 }) as u128) by (bit_vector)
            requires
                r == ((value << 1u128) ^ (value >> 127u128)) as u128,
        ;
        proof {
            lemma_zigzag_in_range(value as int, 0x8000_0000_0000_0000_0000_0000_0000_0000);
        }
        r
    }

    fn zigzag_decode(value: u128) -> (r: i128)
        ensures
            r as int == unzigzag(value as int),
    {
        assert(value >> 1u128 <= 0x7fff_ffff_ffff_ffff_ffff_ffff_ffff_ffffu128 && value & 1u128 <= 1u128) by (bit_vector);
        let half = (value >> 1u128) as i128;
        let mask = -((value & 1u128) as i128);
        let r = half ^ mask;
        assert(r as int == if value % 2 == 0 { (value / 2) as int } else { -((value + 1) / 2) })
            by (bit_vector)
            requires
                half == (value >> 1u128) as i128,
                mask == -((value & 1u128) as i128),
                r == half ^ mask,
        ;
        proof {
            lemma_unzigzag_in_range(value as int, 0x8000_0000_0000_0000_0000_0000_0000_0000);
        }
        r
    }
}

} // verus!
