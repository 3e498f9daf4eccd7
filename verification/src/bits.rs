//! The packed bit sequence that backs a bitmap, and what is assumed of it.
//!
//! `bit_vec::BitVec` is not read by the verifier. Its contents are named by
//! [`bit_seq`], and each method that the library calls is reached through a
//! wrapper below whose contract restates the method's documented behaviour
//! over that name.

use bit_vec::BitVec;
use vstd::prelude::*;

verus! {

/// `bit_vec::BitVec<B>`, carried as an opaque value.
#[verifier::external_type_specification]
#[verifier::external_body]
#[verifier::reject_recursive_types(B)]
pub struct ExBitVec<B>(BitVec<B>);

/// The bits that a `BitVec` holds, first bit first.
pub uninterp spec fn bit_seq(v: BitVec) -> Seq<bool>;

/// `BitVec::from_elem`: a vector of `len` bits, each equal to `bit`.
#[verifier::external_body]
pub(crate) fn bits_filled(len: usize, bit: bool) -> (r: BitVec)
    ensures
        bit_seq(r) == Seq::new(len as nat, |i: int| bit),
{
    BitVec::from_elem(len, bit)
}

/// `BitVec::with_capacity`: an empty vector; the capacity is only a hint.
#[verifier::external_body]
pub(crate) fn bits_with_capacity(capacity: usize) -> (r: BitVec)
    ensures
        bit_seq(r) == Seq::<bool>::empty(),
{
    BitVec::with_capacity(capacity)
}

/// `BitVec::len`: the number of bits held.
#[verifier::external_body]
pub(crate) fn bits_len(v: &BitVec) -> (r: usize)
    ensures
        r == bit_seq(*v).len(),
{
    v.len()
}

/// `BitVec::push`: appends one bit. The method panics when the length would
/// pass `usize::MAX`, so that case is excluded.
#[verifier::external_body]
pub(crate) fn bits_push(v: &mut BitVec, bit: bool)
    requires
        bit_seq(*old(v)).len() < usize::MAX,
    ensures
        bit_seq(*final(v)) == bit_seq(*old(v)).push(bit),
{
    v.push(bit)
}

/// Indexing a `BitVec`: the bit at position `i`. Indexing panics out of
/// bounds, so `i` must be in range.
#[verifier::external_body]
pub(crate) fn bits_get(v: &BitVec, i: usize) -> (r: bool)
    requires
        i < bit_seq(*v).len(),
    ensures
        r == bit_seq(*v)[i as int],
{
    v[i]
}

/// `BitVec::set`: replaces the bit at position `i` and leaves the others. The
/// method panics out of bounds, so `i` must be in range.
#[verifier::external_body]
pub(crate) fn bits_set(v: &mut BitVec, i: usize, bit: bool)
    requires
        i < bit_seq(*old(v)).len(),
    ensures
        bit_seq(*final(v)) == bit_seq(*old(v)).update(i as int, bit),
{
    v.set(i, bit)
}

/// `BitVec::negate`: flips every bit and keeps the length.
#[verifier::external_body]
pub(crate) fn bits_negate(v: &mut BitVec)
    ensures
        bit_seq(*final(v)) == Seq::new(bit_seq(*old(v)).len(), |i: int| !bit_seq(*old(v))[i]),
{
    v.negate()
}

/// `==` on two `BitVec`s: true exactly when both hold the same bits.
#[verifier::external_body]
pub(crate) fn bits_same(a: &BitVec, b: &BitVec) -> (r: bool)
    ensures
        r == (bit_seq(*a) == bit_seq(*b)),
{
    a == b
}

} // verus!
