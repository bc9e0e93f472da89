//! Thin wrappers over the standard library's reference-counted pointer, and
//! slice helpers shared by the channel code.

use std::sync::Arc;
use vstd::prelude::*;

use crate::pixel::PixelTypePrimitive;

verus! {

/// Relies on `Arc::clone`: the new pointer refers to the same value.
#[verifier::external_body]
pub(crate) fn arc_clone<A: ?Sized>(a: &Arc<A>) -> (r: Arc<A>)
    ensures
        r == *a,
{
    Arc::clone(a)
}

/// Relies on `Arc::try_unwrap`: the inner value when this is the only
/// strong reference, otherwise the pointer handed back unchanged.
#[verifier::external_body]
pub(crate) fn arc_try_unwrap<A>(a: Arc<A>) -> (r: Result<A, Arc<A>>)
    ensures
        match r {
            Ok(v) => v == *a,
            Err(b) => b == a,
        },
{
    Arc::try_unwrap(a)
}

/// Relies on `Arc::make_mut`: a mutable view of the elements, taken in place
/// when the pointer is unique and from a fresh copy otherwise. The copy
/// clones each element, which for the element types of this library is a
/// plain copy.
#[verifier::external_body]
pub(crate) fn arc_make_mut<T: PixelTypePrimitive>(a: &mut Arc<[T]>) -> (r: &mut [T])
    ensures
        r@ == old(a)@,
        final(a)@ == final(r)@,
{
    Arc::make_mut(a)
}

/// Relies on `From<&[T]>` for `Arc<[T]>`: a new allocation holding a clone
/// of each element, which for the element types of this library is a plain
/// copy.
#[verifier::external_body]
pub(crate) fn arc_from_slice<T: PixelTypePrimitive>(s: &[T]) -> (r: Arc<[T]>)
    ensures
        r@ == s@,
{
    Arc::from(s)
}

/// The elements `lo..hi` of a slice, borrowed mutably.
pub fn range_mut<T>(s: &mut [T], lo: usize, hi: usize) -> (r: &mut [T])
    requires
        lo <= hi <= old(s)@.len(),
    ensures
        r@ == old(s)@.subrange(lo as int, hi as int),
        final(s)@ == old(s)@.subrange(0, lo as int) + final(r)@ + old(s)@.subrange(
            hi as int,
            old(s)@.len() as int,
        ),
{
    let (_head, rest) = s.split_at_mut(lo);
    let (mid, _tail) = rest.split_at_mut(hi - lo);
    mid
}

/// A copy of the elements `lo..hi` of a slice, in a new vector.
pub fn copy_range<T: Copy>(s: &[T], lo: usize, hi: usize) -> (r: Vec<T>)
    requires
        lo <= hi <= s@.len(),
    ensures
        r@ == s@.subrange(lo as int, hi as int),
{
    let mut out: Vec<T> = Vec::with_capacity(hi - lo);
    let mut i: usize = lo;
    while i < hi
        invariant
            lo <= i <= hi <= s@.len(),
            out@ == s@.subrange(lo as int, i as int),
        decreases hi - i,
    {
        out.push(s[i]);
        assert(out@ =~= s@.subrange(lo as int, i + 1));
        i += 1;
    }
    out
}

/// Appends a copy of the elements of `s` to `out`.
pub fn extend_copy<T: Copy>(out: &mut Vec<T>, s: &[T])
    ensures
        final(out)@ == old(out)@ + s@,
{
    let ghost start = out@;
    let mut i: usize = 0;
    while i < s.len()
        invariant
            i <= s@.len(),
            out@ == start + s@.subrange(0, i as int),
        decreases s@.len() - i,
    {
        out.push(s[i]);
        assert(start + s@.subrange(0, i + 1) =~= start + s@.subrange(0, i as int) + seq![s@[i as int]]);
        i += 1;
    }
    assert(s@.subrange(0, i as int) =~= s@);
}

} // verus!
