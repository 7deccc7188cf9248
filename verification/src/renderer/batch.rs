//! Sizing of the GPU buffers that hold the quads of a frame.

use vstd::prelude::*;
use vstd::arithmetic::power2::pow2;

verus! {

/// Quads a batch buffer holds before it has to grow; enough for a large
/// grid (200 by 100 cells) with glyphs, backgrounds and decorations.
pub const INITIAL_BATCH_CAPACITY: usize = 65536;

/// `p` is the smallest power of two that is at least `n`.
pub open spec fn is_next_power_of_two(n: nat, p: nat) -> bool {
    exists|k: nat| #[trigger] pow2(k) == p && n <= p && (k == 0 || pow2((k - 1) as nat) < n)
}

/// Returns the smallest power of two that is at least `n`.
pub fn next_power_of_two(n: usize) -> (p: usize)
    requires
        n <= usize::MAX / 2 + 1,
    ensures
        is_next_power_of_two(n as nat, p as nat),
{
    let mut p: usize = 1;
    let ghost mut k: nat = 0;
    proof {
        vstd::arithmetic::power2::lemma2_to64();
    }
    while p < n
        invariant
            n <= usize::MAX / 2 + 1,
            pow2(k) == p,
            1 <= p,
            k == 0 || pow2((k - 1) as nat) < n,
            p < n || k == 0 || p <= 2 * n,
        decreases usize::MAX - p,
    {
        proof {
            vstd::arithmetic::power2::lemma_pow2_unfold(k + 1);
        }
        p = p * 2;
        proof {
            k = k + 1;
        }
    }
    assert(pow2(k) == p && n <= p && (k == 0 || pow2((k - 1) as nat) < n));
    p
}

/// The capacity of a batch buffer after uploading `instances` quads: kept
/// while they fit, else grown to the next power of two.
pub fn grown_capacity(instances: usize, capacity: usize) -> (c: usize)
    requires
        instances <= usize::MAX / 2 + 1,
    ensures
        instances <= capacity ==> c == capacity,
        instances > capacity ==> is_next_power_of_two(instances as nat, c as nat),
        instances <= c,
{
    if instances > capacity {
        next_power_of_two(instances)
    } else {
        capacity
    }
}

} // verus!
