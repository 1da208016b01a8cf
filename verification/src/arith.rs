//! Small integer facts shared by the layout and validation modules.
use vstd::arithmetic::power2::{lemma2_to64, lemma_pow2_pos, lemma_pow2_strictly_increases, lemma_pow2_unfold, pow2};
use vstd::prelude::*;

verus! {

/// `x` is `2^k` for some natural `k`.
pub open spec fn is_power_of_two(x: int) -> bool {
    exists|k: nat| pow2(k) == x
}

/// Decide whether `x` is a non-zero power of two.
pub fn usize_is_power_of_two(x: usize) -> (r: bool)
    ensures
        r == is_power_of_two(x as int),
{
    if x == 0 {
        proof {
            assert forall|k: nat| pow2(k) != 0 by {
                lemma_pow2_pos(k);
            }
        }
        return false;
    }
    let mut p: usize = 1;
    let ghost mut e: nat = 0;
    proof {
        lemma2_to64();
    }
    while p < x
        invariant
            0 < x,
            1 <= p <= x,
            p == pow2(e),
            forall|k: nat| k < e ==> pow2(k) < p,
        decreases x - p,
    {
        if p > x / 2 {
            // the next power of two already exceeds x, and this one is below it
            proof {
                lemma_pow2_unfold(e + 1);
                assert forall|k: nat| pow2(k) != x by {
                    if k <= e {
                        if k < e {
                            lemma_pow2_strictly_increases(k, e);
                        }
                    } else {
                        if k > e + 1 {
                            lemma_pow2_strictly_increases(e + 1, k);
                        }
                    }
                }
            }
            return false;
        }
        proof {
            lemma_pow2_unfold(e + 1);
            assert forall|k: nat| k < e + 1 implies pow2(k) < 2 * p by {
                if k < e {
                    lemma_pow2_strictly_increases(k, e);
                }
            }
        }
        p = p * 2;
        proof {
            e = e + 1;
        }
    }
    proof {
        assert(pow2(e) == x);
    }
    true
}

} // verus!
