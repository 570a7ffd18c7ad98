//! Powers of two.

use vstd::prelude::*;

verus! {

/// `2^k`.
pub open spec fn p2(k: nat) -> nat
    decreases k,
{
    if k == 0 {
        1
    } else {
        2 * p2((k - 1) as nat)
    }
}

/// `2^k` is positive.
pub broadcast proof fn lemma_p2_positive(k: nat)
    ensures
        #[trigger] p2(k) >= 1,
    decreases k,
{
    if k > 0 {
        lemma_p2_positive((k - 1) as nat);
    }
}

} // verus!
