//! The mathematical mapping on unbounded integers that every width shares.
use vstd::prelude::*;

verus! {

/// ZigZag on the integers: `0, -1, 1, -2, 2, ...` go to `0, 1, 2, 3, 4, ...`.
pub open spec fn zigzag(v: int) -> int {
    if v >= 0 {
        2 * v
    } else {
        -2 * v - 1
    }
}

/// The inverse of [`zigzag`] on the naturals: even values are the
/// non-negative integers, odd values the negative ones.
pub open spec fn unzigzag(u: int) -> int {
    if u % 2 == 0 {
        u / 2
    } else {
        -((u + 1) / 2)
    }
}

/// `unzigzag` undoes `zigzag` on every integer.
pub proof fn lemma_unzigzag_zigzag(v: int)
    ensures
        unzigzag(zigzag(v)) == v,
{
}

/// `zigzag` undoes `unzigzag` on every natural number.
pub proof fn lemma_zigzag_unzigzag(u: int)
    requires
        u >= 0,
    ensures
        zigzag(unzigzag(u)) == u,
{
}

/// A signed value of a width whose range is `-half .. half` goes into the
/// unsigned range `0 .. 2 * half` of that width.
pub proof fn lemma_zigzag_in_range(v: int, half: int)
    requires
        half > 0,
        -half <= v < half,
    ensures
        0 <= zigzag(v) < 2 * half,
{
}

/// An unsigned value below `2 * half` decodes into `-half .. half`.
pub proof fn lemma_unzigzag_in_range(u: int, half: int)
    requires
        half > 0,
        0 <= u < 2 * half,
    ensures
        -half <= unzigzag(u) < half,
{
}

/// The non-negative integers go to the even numbers and the negative ones
/// to the odd numbers, so that `0, -1, 1, -2, 2, ...` go to
/// `0, 1, 2, 3, 4, ...`.
pub proof fn lemma_zigzag_order(k: int)
    requires
        k >= 0,
    ensures
        zigzag(k) == 2 * k,
        zigzag(-k - 1) == 2 * k + 1,
{
}

/// A value of smaller magnitude has a smaller encoding; of two values of the
/// same magnitude, the negative one comes first.
pub proof fn lemma_zigzag_magnitude(a: int, b: int)
    ensures
        abs(a) < abs(b) ==> zigzag(a) < zigzag(b),
        abs(a) == abs(b) && a < b ==> zigzag(a) + 1 == zigzag(b),
{
}

/// The magnitude of an integer.
pub open spec fn abs(v: int) -> int {
    if v >= 0 {
        v
    } else {
        -v
    }
}

} // verus!
