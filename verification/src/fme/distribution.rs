//! Random padding of packets. (The samplers of sizes and delays work on
//! floating-point draws and stay with the application.)
use vstd::prelude::*;

use crate::fme::chaff::random_bytes;

verus! {

/// Overwrites the bytes of `data` from `start` on with random bytes; the
/// bytes before `start` and the length are kept. Nothing changes where
/// `start` is not inside `data`.
pub fn fill_random_padding(data: &mut Vec<u8>, start: usize)
    ensures
        final(data)@.len() == old(data)@.len(),
        start >= old(data)@.len() ==> final(data)@ == old(data)@,
        start < old(data)@.len() ==> final(data)@.subrange(0, start as int) == old(data)@.subrange(0, start as int),
{
    if start >= data.len() {
        return;
    }
    let n = data.len();
    let noise = random_bytes(n - start);
    let mut i: usize = 0;
    while i < noise.len()
        invariant
            start < data@.len(),
            start + noise@.len() == n,
            data@.len() == n,
            n == old(data)@.len(),
            data@.subrange(0, start as int) == old(data)@.subrange(0, start as int),
            i <= noise@.len(),
        decreases noise@.len() - i,
    {
        data.set(start + i, noise[i]);
        assert(data@.subrange(0, start as int) =~= old(data)@.subrange(0, start as int));
        i = i + 1;
    }
}

} // verus!
