use vstd::prelude::*;

use crate::dynamics::lemma_path_determined;

verus! {

/// Once the initial state is prepended, the in-place variant's output
/// equals `generate_path`'s output for the same initial value, the same
/// innovations and the same deterministic step function: the in-place form
/// is observably nothing but an allocation-avoidance optimization.
///
/// `path` is a `generate_path` result, `buffer` a `generate_in_place`
/// result, both as their contracts describe them, for a step function that
/// always computes `g`.
pub proof fn lemma_in_place_matches_generate_path<T, F: Fn(T, T) -> T>(
    step: F,
    g: spec_fn(T, T) -> T,
    initial_value: T,
    zs: Seq<T>,
    path: Seq<T>,
    buffer: Seq<T>,
)
    requires
        forall|s: T, z: T, r: T| #[trigger] call_ensures(step, (s, z), r) ==> r == g(s, z),
        path.len() == zs.len() + 1,
        path[0] == initial_value,
        forall|i: int|
            0 <= i < zs.len() ==> #[trigger] call_ensures(step, (path[i], zs[i]), path[i + 1]),
        buffer.len() == zs.len(),
        zs.len() > 0 ==> call_ensures(step, (initial_value, zs[0]), buffer[0]),
        forall|i: int|
            1 <= i < zs.len() ==> #[trigger] call_ensures(step, (buffer[i - 1], zs[i]), buffer[i]),
    ensures
        path == seq![initial_value] + buffer,
{
    let full = seq![initial_value] + buffer;
    assert forall|i: int| 0 <= i < zs.len() implies full[i + 1] == g(full[i], #[trigger] zs[i]) by {
        if i == 0 {
            assert(call_ensures(step, (initial_value, zs[0]), buffer[0]));
        } else {
            assert(call_ensures(step, (buffer[i - 1], zs[i]), buffer[i]));
        }
    }
    assert forall|i: int| 0 <= i < zs.len() implies path[i + 1] == g(path[i], #[trigger] zs[i]) by {
        assert(call_ensures(step, (path[i], zs[i]), path[i + 1]));
    }
    lemma_path_determined(g, initial_value, zs, full);
    lemma_path_determined(g, initial_value, zs, path);
    assert(path =~= full);
}

/// Declares rand_distr's standard-normal marker so that it can stand in a
/// signature; it is a stateless unit value.
#[verifier::external_type_specification]
#[verifier::external_body]
pub struct ExStandardNormal(rand_distr::StandardNormal);

/// Configuration of a scalar geometric Brownian motion: the initial state,
/// the drift `mu`, the volatility `sigma` and the time increment `dt`, all in
/// whatever numeric carrier `T` the caller works in.
///
/// The model's transition rule itself (Euler-Maruyama or the exact analytic
/// form) is arithmetic on `T` and is supplied by the caller as a step
/// function; the methods here run that rule over whole innovation sequences
/// and pin down every structural property of the produced path.
pub struct GeometricBrownianMotion<T> {
    pub initial_value: T,
    /// drift term
    pub mu: T,
    /// volatility
    pub sigma: T,
    /// change in time
    pub dt: T,
}

impl<T: Copy> GeometricBrownianMotion<T> {
    pub fn new(initial_value: T, drift: T, vola: T, dt: T) -> (r: Self)
        ensures
            r.initial_value == initial_value,
            r.mu == drift,
            r.sigma == vola,
            r.dt == dt,
    {
        GeometricBrownianMotion { initial_value, mu: drift, dt, sigma: vola }
    }

    /// Relies on `rand_distr::StandardNormal` being a stateless unit marker:
    /// the distribution that this model's innovations are drawn from.
    #[verifier::external_body]
    pub fn base_distribution(&self) -> rand_distr::StandardNormal {
        rand_distr::StandardNormal
    }

    /// Applies `step` once per innovation, starting from `initial_value`, and
    /// returns the freshly allocated path: entry 0 is `initial_value`, entry
    /// `i + 1` the value `step` produced from entry `i` and innovation `i`.
    pub fn generate_path<F: Fn(T, T) -> T>(
        &self,
        initial_value: T,
        standard_normals: &Vec<T>,
        step: &F,
    ) -> (path: Vec<T>)
        requires
            standard_normals@.len() < usize::MAX,
            forall|s: T, z: T| #[trigger] call_requires(*step, (s, z)),
        ensures
            path@.len() == standard_normals@.len() + 1,
            path@[0] == initial_value,
            forall|i: int|
                0 <= i < standard_normals@.len() ==> call_ensures(
                    *step,
                    (path@[i], standard_normals@[i]),
                    #[trigger] path@[i + 1],
                ),
    {
        let mut path: Vec<T> = Vec::with_capacity(standard_normals.len() + 1);
        let mut curr_p = initial_value;
        path.push(curr_p);

        let mut idx: usize = 0;
        while idx < standard_normals.len()
            invariant
                forall|s: T, z: T| #[trigger] call_requires(*step, (s, z)),
                idx <= standard_normals@.len(),
                path@.len() == idx + 1,
                path@[0] == initial_value,
                path@[idx as int] == curr_p,
                forall|i: int|
                    0 <= i < idx ==> call_ensures(
                        *step,
                        (path@[i], standard_normals@[i]),
                        #[trigger] path@[i + 1],
                    ),
            decreases standard_normals@.len() - idx,
        {
            let z = standard_normals[idx];
            curr_p = step(curr_p, z);
            path.push(curr_p);
            idx = idx + 1;
        }
        path
    }

    /// Overwrites the innovation buffer in place with cumulative states:
    /// entry `i` becomes the state after `i + 1` steps from the configured
    /// `initial_value` (the initial state itself is not stored; a caller
    /// wanting the full path prepends it). Purely an allocation-avoidance
    /// variant: entry by entry its output is chained by `step` exactly as
    /// `generate_path`'s is.
    pub fn generate_in_place<F: Fn(T, T) -> T>(&self, standard_normals: &mut Vec<T>, step: &F)
        requires
            forall|s: T, z: T| #[trigger] call_requires(*step, (s, z)),
        ensures
            final(standard_normals)@.len() == old(standard_normals)@.len(),
            old(standard_normals)@.len() > 0 ==> call_ensures(
                *step,
                (self.initial_value, old(standard_normals)@[0]),
                final(standard_normals)@[0],
            ),
            forall|i: int|
                1 <= i < old(standard_normals)@.len() ==> call_ensures(
                    *step,
                    (final(standard_normals)@[i - 1], old(standard_normals)@[i]),
                    #[trigger] final(standard_normals)@[i],
                ),
    {
        let ghost orig = standard_normals@;
        let mut curr_p = self.initial_value;
        let mut idx: usize = 0;
        while idx < standard_normals.len()
            invariant
                forall|s: T, z: T| #[trigger] call_requires(*step, (s, z)),
                idx <= standard_normals@.len(),
                standard_normals@.len() == orig.len(),
                forall|i: int| idx <= i < orig.len() ==> standard_normals@[i] == orig[i],
                idx == 0 ==> curr_p == self.initial_value,
                idx > 0 ==> curr_p == standard_normals@[idx - 1],
                idx > 0 ==> call_ensures(
                    *step,
                    (self.initial_value, orig[0]),
                    standard_normals@[0],
                ),
                forall|i: int|
                    1 <= i < idx ==> call_ensures(
                        *step,
                        (standard_normals@[i - 1], orig[i]),
                        #[trigger] standard_normals@[i],
                    ),
            decreases standard_normals@.len() - idx,
        {
            let z = standard_normals[idx];
            curr_p = step(curr_p, z);
            standard_normals[idx] = curr_p;
            idx = idx + 1;
        }
    }
}

} // verus!
