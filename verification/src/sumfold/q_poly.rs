//! Indicator polynomials: dense extensions that are zero everywhere except at
//! one chosen grid index.

use vstd::prelude::*;
use crate::field::Scalar;
use crate::mle::MlePoly;
use crate::mle::pow2;

verus! {

/// Builds the indicator polynomial in `n` variables whose table holds `T` at
/// index `rho` and zero at every other index.
#[allow(non_snake_case)]
pub fn build_Q_polynomial(T: &Scalar, rho: usize, n: usize) -> (r: MlePoly)
    requires
        T.wf(),
        rho < pow2(n as nat),
        pow2(n as nat) <= usize::MAX,
    ensures
        r.wf(),
        r.num_vars == n,
        r@.len() == pow2(n as nat),
        r@[rho as int] == T@,
        forall|i: int| 0 <= i < r@.len() && i != rho ==> #[trigger] r@[i] == 0,
{
    let bit_size = crate::sumfold::utils::pow2_exec(n);
    let mut evals: Vec<Scalar> = Vec::new();
    let mut i: usize = 0;
    while i < bit_size
        invariant
            i <= bit_size,
            evals@.len() == i,
            forall|k: int| 0 <= k < i ==> (#[trigger] evals@[k]).wf(),
            forall|k: int| 0 <= k < i ==> (#[trigger] evals@[k])@ == 0,
        decreases bit_size - i,
    {
        evals.push(Scalar::zero());
        i = i + 1;
    }
    evals.set(rho, *T);
    let r = MlePoly { num_vars: n, evaluations: evals };
    proof {
        assert(forall|k: int| 0 <= k < r@.len() ==> #[trigger] r@[k] == r.evaluations@[k]@);
    }
    r
}

} // verus!
