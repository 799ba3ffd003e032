//! A Monte Carlo simulation engine for stochastic processes as used in
//! derivative pricing: seedable innovation sources, dynamics models
//! (geometric Brownian motion, scalar and correlated multivariate), a path
//! simulator that produces reproducible ensembles of discretized sample
//! paths under three allocation strategies, and an evaluator that reduces
//! an ensemble to one aggregate value.
//!
//! The engine is generic in the numeric carrier of states and innovations:
//! every structural guarantee — ensemble and path shapes, initial-value
//! placement, the path-major draw order, determinism in the seed across all
//! allocation strategies, configuration validation, and the evaluator's
//! exclusion semantics — is stated in the contracts here and machine
//! checked. The floating-point transition arithmetic itself is supplied by
//! callers as step functions, and the contracts pin how it is threaded
//! through every path of every ensemble.

use vstd::prelude::*;

pub mod dynamics;
pub mod gbm;
pub mod monte_carlo;
pub mod multivariate_gbm;
pub mod path_evaluator;
pub mod source;

verus! {

/// Errors detected when a model configuration is assembled, before any
/// simulation work starts.
#[derive(Clone, Copy, Debug, PartialEq, Eq, Structural)]
pub enum ConfigurationError {
    /// The lengths of the initial-value and drift vectors, or the shape of
    /// the Cholesky factor, do not agree.
    DimensionMismatch,
    /// Basket weights do not sum to one.
    InvalidWeights,
}

/// An elementwise copy of a vector of plain values.
pub fn copy_values<T: Copy>(v: &Vec<T>) -> (r: Vec<T>)
    ensures
        r@ == v@,
{
    let mut r: Vec<T> = Vec::with_capacity(v.len());
    let mut i: usize = 0;
    while i < v.len()
        invariant
            i <= v@.len(),
            r@.len() == i,
            forall|j: int| 0 <= j < i ==> r@[j] == v@[j],
        decreases v@.len() - i,
    {
        r.push(v[i]);
        i = i + 1;
    }
    assert(r@ =~= v@);
    r
}

} // verus!
