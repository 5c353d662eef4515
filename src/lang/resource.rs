use vstd::prelude::*;
use crate::lang::scalar::Scalar;

verus! {

/// What the host supplies at each evaluation: the current spectral frame
/// (one `(re, im)` pair per bin), a modulation signal, the beat position
/// and the elapsed time.  Evaluation only reads it.
pub struct Resource<N> {
    pub fft: Vec<(N, N)>,
    pub modulation: Vec<N>,
    pub beat: N,
    pub second: N,
}

impl<N: Scalar> Resource<N> {
    /// A resource with no spectral bins, no modulation, and the beat and
    /// time at zero.
    pub fn empty() -> (r: Resource<N>)
        ensures
            r.fft@.len() == 0,
            r.modulation@.len() == 0,
            r.beat == N::zero_spec(),
            r.second == N::zero_spec(),
    {
        Resource { fft: Vec::new(), modulation: Vec::new(), beat: N::zero(), second: N::zero() }
    }
}

} // verus!
