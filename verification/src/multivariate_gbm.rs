use vstd::prelude::*;

use crate::copy_values;
use crate::source::InnovationSource;
use crate::ConfigurationError;

verus! {

/// The shape requirement on a multivariate configuration: the drift and
/// initial-value vectors have the same length `d`, and the Cholesky factor
/// is a `d x d` matrix.
pub open spec fn dimensions_agree<T>(
    initial_values: Seq<T>,
    drifts: Seq<T>,
    cholesky_factor: Seq<Vec<T>>,
) -> bool {
    &&& drifts.len() == initial_values.len()
    &&& cholesky_factor.len() == drifts.len()
    &&& forall|i: int|
        0 <= i < cholesky_factor.len() ==> (#[trigger] cholesky_factor[i])@.len() == drifts.len()
}

/// Configuration of a correlated multivariate geometric Brownian motion:
/// one initial value and one drift per asset, a Cholesky factor that couples
/// the assets' innovations, and the time increment `dt`, all in whatever
/// numeric carrier `T` the caller works in.
///
/// The shapes are validated at construction (the factor is assumed, not
/// verified, to be a valid Cholesky factor); the transition arithmetic is
/// supplied by the caller as a sample function and `sample_path` runs it
/// over a whole path.
pub struct MultivariateGeometricBrownianMotion<T> {
    pub initial_values: Vec<T>,
    /// drift term
    pub drifts: Vec<T>,
    /// volatility
    pub cholesky_factor: Vec<Vec<T>>,
    /// change in time
    pub dt: T,
}

/// The vector of innovations that step `s` of a correlated path consumes
/// when the path draws `dim` values per step from the seeded stream of `S`,
/// starting at stream position `start`.
pub open spec fn step_draws<T, S: InnovationSource<T>>(
    seed: u64,
    start: nat,
    dim: nat,
    s: nat,
) -> Seq<T> {
    Seq::new(dim, |j: int| S::draw(seed, (start + s * dim + j) as nat))
}

/// A correlated path of `nr_steps` steps as `sample_path` produces it:
/// `states` chains the exact state vectors through the sample function,
/// starting from the configured initial values; `zvecs[s]` holds the `dim`
/// draws that step `s` consumed, in stream order; and the returned `path`
/// rows carry the same values as `states`, row by row. The witnesses
/// `states` and `zvecs` are existentially quantified where this predicate
/// stands in a contract.
pub open spec fn is_correlated_path<T, S: InnovationSource<T>, F: Fn(Vec<T>, Vec<T>) -> Vec<T>>(
    sample: F,
    initial_values: Seq<T>,
    seed: u64,
    start: nat,
    nr_steps: nat,
    path: Seq<Vec<T>>,
    states: Seq<Vec<T>>,
    zvecs: Seq<Vec<T>>,
) -> bool {
    let dim = initial_values.len();
    &&& path.len() == nr_steps + 1
    &&& states.len() == nr_steps + 1
    &&& zvecs.len() == nr_steps
    &&& states[0]@ == initial_values
    &&& forall|s: int| 0 <= s <= nr_steps ==> (#[trigger] path[s])@ == states[s]@
    &&& forall|s: int|
        0 <= s < nr_steps ==> (#[trigger] zvecs[s])@ == step_draws::<T, S>(
            seed,
            start,
            dim,
            s as nat,
        )
    &&& forall|s: int|
        0 <= s < nr_steps ==> #[trigger] call_ensures(sample, (states[s], zvecs[s]), states[s + 1])
}

impl<T: Copy> MultivariateGeometricBrownianMotion<T> {
    /// The construction-time shape invariant.
    pub open spec fn well_formed(&self) -> bool {
        dimensions_agree(self.initial_values@, self.drifts@, self.cholesky_factor@)
    }

    /// Validates the shapes and assembles the configuration: the result is
    /// `Ok` exactly when the dimensions agree, and the mismatch is reported
    /// as a configuration error before any sampling can happen.
    pub fn new(initial_values: Vec<T>, drifts: Vec<T>, cholesky_factor: Vec<Vec<T>>, dt: T) -> (r:
        Result<Self, ConfigurationError>)
        ensures
            match r {
                Ok(m) => {
                    &&& m.initial_values@ == initial_values@
                    &&& m.drifts@ == drifts@
                    &&& m.cholesky_factor@ == cholesky_factor@
                    &&& m.dt == dt
                    &&& m.well_formed()
                },
                Err(e) => {
                    &&& e == ConfigurationError::DimensionMismatch
                    &&& !dimensions_agree(initial_values@, drifts@, cholesky_factor@)
                },
            },
    {
        if drifts.len() != initial_values.len() {
            return Err(ConfigurationError::DimensionMismatch);
        }
        if cholesky_factor.len() != drifts.len() {
            return Err(ConfigurationError::DimensionMismatch);
        }
        let mut i: usize = 0;
        while i < cholesky_factor.len()
            invariant
                i <= cholesky_factor@.len(),
                forall|j: int|
                    0 <= j < i ==> (#[trigger] cholesky_factor@[j])@.len() == drifts@.len(),
            decreases cholesky_factor@.len() - i,
        {
            if cholesky_factor[i].len() != drifts.len() {
                return Err(ConfigurationError::DimensionMismatch);
            }
            i = i + 1;
        }
        Ok(MultivariateGeometricBrownianMotion { initial_values, drifts, cholesky_factor, dt })
    }

    /// The number of correlated assets.
    pub fn dimension(&self) -> (d: usize)
        ensures
            d == self.initial_values@.len(),
    {
        self.initial_values.len()
    }

    /// Generates one correlated path of `nr_steps` steps: each step draws
    /// one innovation per asset from `source`, in stream order, and hands
    /// the current state vector and the draw vector to the caller-supplied
    /// `sample` function; the path starts at the configured initial values.
    pub fn sample_path<S: InnovationSource<T>, F: Fn(Vec<T>, Vec<T>) -> Vec<T>>(
        &self,
        nr_steps: usize,
        source: &mut S,
        sample: &F,
    ) -> (path: Vec<Vec<T>>)
        requires
            forall|st: Vec<T>, z: Vec<T>| #[trigger] call_requires(*sample, (st, z)),
        ensures
            path@.len() == nr_steps + 1,
            path@[0]@ == self.initial_values@,
            final(source).seed_of() == old(source).seed_of(),
            final(source).pos() == old(source).pos() + nr_steps
                * self.initial_values@.len(),
            exists|states: Seq<Vec<T>>, zvecs: Seq<Vec<T>>|
                is_correlated_path::<T, S, F>(
                    *sample,
                    self.initial_values@,
                    old(source).seed_of(),
                    old(source).pos(),
                    nr_steps as nat,
                    path@,
                    states,
                    zvecs,
                ),
    {
        let ghost seed = source.seed_of();
        let ghost start = source.pos();
        let dim = self.initial_values.len();

        let mut path: Vec<Vec<T>> = Vec::with_capacity(nr_steps);
        let mut curr: Vec<T> = copy_values(&self.initial_values);
        let ghost mut states: Seq<Vec<T>> = seq![curr];
        let ghost mut zvecs: Seq<Vec<T>> = Seq::empty();
        path.push(copy_values(&curr));

        let mut s: usize = 0;
        while s < nr_steps
            invariant
                forall|st: Vec<T>, z: Vec<T>| #[trigger] call_requires(*sample, (st, z)),
                s <= nr_steps,
                dim == self.initial_values@.len(),
                path@.len() == s + 1,
                states.len() == s + 1,
                zvecs.len() == s,
                states[s as int] == curr,
                states[0]@ == self.initial_values@,
                source.seed_of() == seed,
                source.pos() == start + s * dim,
                forall|i: int| 0 <= i <= s ==> (#[trigger] path@[i])@ == states[i]@,
                forall|i: int|
                    0 <= i < s ==> (#[trigger] zvecs[i])@ == step_draws::<T, S>(
                        seed,
                        start,
                        dim as nat,
                        i as nat,
                    ),
                forall|i: int|
                    0 <= i < s ==> #[trigger] call_ensures(
                        *sample,
                        (states[i], zvecs[i]),
                        states[i + 1],
                    ),
            decreases nr_steps - s,
        {
            let mut z: Vec<T> = Vec::with_capacity(dim);
            let mut j: usize = 0;
            while j < dim
                invariant
                    j <= dim,
                    z@.len() == j,
                    source.seed_of() == seed,
                    source.pos() == start + s * dim + j,
                    forall|k: int|
                        0 <= k < j ==> z@[k] == S::draw(seed, (start + s * dim + k) as nat),
                decreases dim - j,
            {
                let zj = source.next();
                z.push(zj);
                j = j + 1;
            }
            assert(z@ =~= step_draws::<T, S>(seed, start, dim as nat, s as nat));

            let ghost gz = z;
            let next_state = sample(curr, z);
            let copy = copy_values(&next_state);
            path.push(copy);
            proof {
                states = states.push(next_state);
                zvecs = zvecs.push(gz);
            }
            curr = next_state;
            s = s + 1;
            assert(source.pos() == start + s * dim) by (nonlinear_arith)
                requires
                    source.pos() == start + (s - 1) * dim + dim,
            ;
        }
        proof {
            assert(is_correlated_path::<T, S, F>(
                *sample,
                self.initial_values@,
                seed,
                start,
                nr_steps as nat,
                path@,
                states,
                zvecs,
            ));
        }
        path
    }
}

} // verus!
