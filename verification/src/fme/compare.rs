//! Comparing morphed traffic with its model: the one-dimensional earth
//! mover's distance between two samples, as a sum over matched order
//! statistics.
use vstd::prelude::*;
use vstd::multiset::Multiset;

use crate::fme::model::{sorted_copy, sorted_u64};

verus! {

/// `|a - b|`.
pub open spec fn abs_diff(a: u64, b: u64) -> nat {
    if a >= b {
        (a - b) as nat
    } else {
        (b - a) as nat
    }
}

/// Sum of `|a[i] - b[i]|` over the first `n` positions.
pub open spec fn matched_distance(a: Seq<u64>, b: Seq<u64>, n: int) -> nat
    decreases n,
{
    if n <= 0 {
        0
    } else {
        matched_distance(a, b, n - 1) + abs_diff(a[n - 1], b[n - 1])
    }
}

/// The earth mover's distance between two samples, before the division by
/// the number of matched values: both samples are sorted and the first
/// `min(len)` values matched in order. `None` where a sample is empty.
/// The sum and the count are returned; their quotient is the distance.
pub fn wasserstein_sum(a: &[u64], b: &[u64]) -> (r: Option<(u128, usize)>)
    requires
        a@.len() < 0x1000_0000_0000_0000,
        b@.len() < 0x1000_0000_0000_0000,
    ensures
        (a@.len() == 0 || b@.len() == 0) ==> r is None,
        a@.len() > 0 && b@.len() > 0 ==> (r matches Some((sum, n)) && n == if a@.len() < b@.len() {
            a@.len()
        } else {
            b@.len()
        } && exists|sa: Seq<u64>, sb: Seq<u64>|
            sa.to_multiset() == a@.to_multiset() && sorted_u64(sa) && sb.to_multiset() == b@.to_multiset()
                && sorted_u64(sb) && sum == #[trigger] matched_distance(sa, sb, n as int)),
{
    if a.len() == 0 || b.len() == 0 {
        return None;
    }
    let sa = sorted_copy(a);
    let sb = sorted_copy(b);
    proof {
        sa@.to_multiset_ensures();
        a@.to_multiset_ensures();
        sb@.to_multiset_ensures();
        b@.to_multiset_ensures();
    }
    let n = if sa.len() < sb.len() {
        sa.len()
    } else {
        sb.len()
    };
    let mut sum: u128 = 0;
    let mut i: usize = 0;
    while i < n
        invariant
            n <= sa@.len(),
            n <= sb@.len(),
            n < 0x1000_0000_0000_0000,
            i <= n,
            sum == matched_distance(sa@, sb@, i as int),
            sum <= i * 0xffff_ffff_ffff_ffff,
        decreases n - i,
    {
        let x = sa[i];
        let y = sb[i];
        let d: u64 = if x >= y {
            x - y
        } else {
            y - x
        };
        assert(sum + d <= (i + 1) * 0xffff_ffff_ffff_ffff) by (nonlinear_arith)
            requires
                sum <= i * 0xffff_ffff_ffff_ffff,
                d <= 0xffff_ffff_ffff_ffff,
        ;
        assert((i + 1) * 0xffff_ffff_ffff_ffff < 0x1000_0000_0000_0000 * 0x1_0000_0000_0000_0000) by (nonlinear_arith)
            requires
                i < 0x1000_0000_0000_0000,
        ;
        sum = sum + d as u128;
        i = i + 1;
    }
    assert(sa@.len() == a@.len() && sb@.len() == b@.len());
    assert(sum == matched_distance(sa@, sb@, n as int));
    assert(sa@.to_multiset() == a@.to_multiset() && sorted_u64(sa@));
    assert(sb@.to_multiset() == b@.to_multiset() && sorted_u64(sb@));
    assert(exists|xa: Seq<u64>, xb: Seq<u64>|
        xa.to_multiset() == a@.to_multiset() && sorted_u64(xa) && xb.to_multiset() == b@.to_multiset()
            && sorted_u64(xb) && sum == #[trigger] matched_distance(xa, xb, n as int));
    Some((sum, n))
}

} // verus!
