//! ZigZag encoding: a bijection between the signed and the unsigned integers
//! of one width that sends values of small magnitude, of either sign, to
//! small unsigned values.
use vstd::prelude::*;

pub mod codec;
pub mod error;
pub mod laws;
pub mod lazy;
pub mod model;

pub use codec::ZigZag;
pub use error::ZigZagError;
pub use lazy::{zigzag_decode_iter, zigzag_encode_iter, ZigZagDecodeIter, ZigZagEncodeIter};

verus! {

} // verus!
