//! Helpers for tests of code that receives into buffers.

use vstd::prelude::*;
use vstd::slice::slice_subrange;

verus! {

/// The first `n` elements of `buf`, or nothing if there are fewer.
pub fn slice_recv<T>(buf: &[T], n: usize) -> (r: &[T])
    ensures
        r@ == if n <= buf@.len() {
            buf@.take(n as int)
        } else {
            Seq::empty()
        },
{
    if n <= buf.len() {
        slice_subrange(buf, 0, n)
    } else {
        slice_subrange(buf, 0, 0)
    }
}

} // verus!
