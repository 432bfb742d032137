//! Lazy encoding and decoding: each value is transformed only when the
//! consumer asks for it, with no intermediate buffer.
use vstd::prelude::*;

use crate::codec::{decode_seq, encode_seq, ZigZag};

verus! {

/// Encodes the values of a borrowed slice one at a time, on demand.
pub struct ZigZagEncodeIter<'a, T: ZigZag> {
    rest: &'a [T],
}

/// Decodes the values of a borrowed slice one at a time, on demand.
pub struct ZigZagDecodeIter<'a, T: ZigZag> {
    rest: &'a [T::UInt],
}

impl<'a, T: ZigZag> View for ZigZagEncodeIter<'a, T> {
    /// The encoded values still to be produced, in order.
    type V = Seq<T::UInt>;

    closed spec fn view(&self) -> Seq<T::UInt> {
        encode_seq(self.rest@)
    }
}

impl<'a, T: ZigZag> View for ZigZagDecodeIter<'a, T> {
    /// The decoded values still to be produced, in order.
    type V = Seq<T>;

    closed spec fn view(&self) -> Seq<T> {
        decode_seq::<T>(self.rest@)
    }
}

/// A lazy sequence of the encodings of `values`, in order.
pub fn zigzag_encode_iter<'a, T: ZigZag>(values: &'a [T]) -> (r: ZigZagEncodeIter<'a, T>)
    ensures
        r@ == encode_seq(values@),
{
    ZigZagEncodeIter { rest: values }
}

/// A lazy sequence of the decodings of `values`, in order.
pub fn zigzag_decode_iter<'a, T: ZigZag>(values: &'a [T::UInt]) -> (r: ZigZagDecodeIter<'a, T>)
    ensures
        r@ == decode_seq::<T>(values@),
{
    ZigZagDecodeIter { rest: values }
}

impl<'a, T: ZigZag> ZigZagEncodeIter<'a, T> {
    /// Encodes and returns the next value, or `None` once all are produced.
    pub fn next(&mut self) -> (r: Option<T::UInt>)
        ensures
            old(self)@.len() == 0 ==> r is None && final(self)@ == old(self)@,
            old(self)@.len() > 0 ==> r == Some(old(self)@[0]) && final(self)@ == old(
                self,
            )@.drop_first(),
    {
        let n = self.rest.len();
        if n == 0 {
            None
        } else {
            let v = T::zigzag_encode(self.rest[0]);
            self.rest = vstd::slice::slice_subrange(self.rest, 1, n);
            assert(self@ =~= old(self)@.drop_first());
            Some(v)
        }
    }

    /// Produces all the remaining values, in order.
    pub fn collect(self) -> (r: Vec<T::UInt>)
        ensures
            r@ == self@,
    {
        let mut it = self;
        let mut out: Vec<T::UInt> = Vec::new();
        while it.rest.len() > 0
            invariant
                out@ + it@ == self@,
            decreases it@.len(),
        {
            let ghost before = it@;
            match it.next() {
                Some(v) => out.push(v),
                None => {},
            }
            assert(out@ + it@ =~= self@) by {
                assert(before =~= seq![before[0]] + before.drop_first());
            }
        }
        assert(out@ =~= self@);
        out
    }
}

impl<'a, T: ZigZag> ZigZagDecodeIter<'a, T> {
    /// Decodes and returns the next value, or `None` once all are produced.
    pub fn next(&mut self) -> (r: Option<T>)
        ensures
            old(self)@.len() == 0 ==> r is None && final(self)@ == old(self)@,
            old(self)@.len() > 0 ==> r == Some(old(self)@[0]) && final(self)@ == old(
                self,
            )@.drop_first(),
    {
        let n = self.rest.len();
        if n == 0 {
            None
        } else {
            let v = T::zigzag_decode(self.rest[0]);
            self.rest = vstd::slice::slice_subrange(self.rest, 1, n);
            assert(self@ =~= old(self)@.drop_first());
            Some(v)
        }
    }

    /// Produces all the remaining values, in order.
    pub fn collect(self) -> (r: Vec<T>)
        ensures
            r@ == self@,
    {
        let mut it = self;
        let mut out: Vec<T> = Vec::new();
        while it.rest.len() > 0
            invariant
                out@ + it@ == self@,
            decreases it@.len(),
        {
            let ghost before = it@;
            match it.next() {
                Some(v) => out.push(v),
                None => {},
            }
            assert(out@ + it@ =~= self@) by {
                assert(before =~= seq![before[0]] + before.drop_first());
            }
        }
        assert(out@ =~= self@);
        out
    }
}

} // verus!
