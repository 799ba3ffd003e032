use vstd::prelude::*;

use crate::dynamics::{lemma_path_determined, path_of, step_fn_of, Dynamics};
use crate::source::InnovationSource;

verus! {

/// The innovations that path number `p` consumes when every path takes
/// `nr_steps` steps and all draws come from the single logical stream of a
/// source of type `S` seeded with `seed`: draws are consumed in path-major,
/// step-minor order, so path `p` gets the contiguous stream segment starting
/// at `p * nr_steps`.
pub open spec fn path_draws<Z, S: InnovationSource<Z>>(
    seed: u64,
    nr_steps: nat,
    p: nat,
) -> Seq<Z> {
    Seq::new(nr_steps, |s: int| S::draw(seed, (p * nr_steps + s) as nat))
}

/// The ensemble that a dynamics model `d` generates from the seeded stream of
/// a source of type `S`: exactly `nr_paths` paths, and path `p` is the one
/// that starts at the model's initial state and is stepped by the model once
/// per innovation of its stream segment.
pub open spec fn is_seeded_ensemble<T, Z, D: Dynamics<T, Z>, S: InnovationSource<Z>>(
    d: &D,
    seed: u64,
    nr_paths: nat,
    nr_steps: nat,
    paths: Seq<Vec<T>>,
) -> bool {
    &&& paths.len() == nr_paths
    &&& forall|p: int|
        0 <= p < nr_paths ==> (#[trigger] paths[p])@ == path_of(
            step_fn_of(d),
            d.initial_spec(),
            path_draws::<Z, S>(seed, nr_steps, p as nat),
        )
}

/// Monte Carlo path simulator: couples a seedable innovation source of type
/// `S` to a dynamics model and produces ensembles of discretized paths.
///
/// With `seed: Some(s)` every simulation run seeds a fresh source from `s`,
/// so repeated runs are reproducible; `None` opts out of reproducibility and
/// seeds each run from ambient entropy.
pub struct MonteCarloPathSimulator<D, S> {
    pub dynamics: D,
    pub seed: Option<u64>,
    pub source_marker: core::marker::PhantomData<S>,
}

impl<D, S> MonteCarloPathSimulator<D, S> {
    pub fn new(dynamics: D, seed: Option<u64>) -> (r: Self)
        ensures
            r.dynamics == dynamics,
            r.seed == seed,
    {
        MonteCarloPathSimulator { dynamics, seed, source_marker: core::marker::PhantomData }
    }

    /// Simulates `nr_paths` paths of `nr_steps` steps each, drawing every
    /// innovation from the configured dynamics' distribution through one
    /// seeded source.
    ///
    /// The result is pinned exactly: with a configured seed it is the unique
    /// seeded ensemble of the dynamics for that seed, and without one it is
    /// the seeded ensemble of whatever seed the entropy source produced.
    pub fn simulate_paths<T: Copy, Z: Copy>(&self, nr_paths: usize, nr_steps: usize) -> (paths:
        Vec<Vec<T>>) where D: Dynamics<T, Z>, S: InnovationSource<Z>
        ensures
            match self.seed {
                Some(seed) => is_seeded_ensemble::<T, Z, D, S>(
                    &self.dynamics,
                    seed,
                    nr_paths as nat,
                    nr_steps as nat,
                    paths@,
                ),
                None => exists|seed: u64|
                    is_seeded_ensemble::<T, Z, D, S>(
                        &self.dynamics,
                        seed,
                        nr_paths as nat,
                        nr_steps as nat,
                        paths@,
                    ),
            },
    {
        let mut source: S = match self.seed {
            Some(seed) => S::from_seed(seed),
            None => S::from_entropy(),
        };
        let paths = run_simulation(&self.dynamics, &mut source, nr_paths, nr_steps);
        paths
    }

    /// Simulates `nr_paths` paths of `nr_steps` steps each, drawing raw
    /// innovations from the seeded source and delegating the transition rule
    /// to the caller-supplied `step` function, decoupling the stepping rule
    /// from the engine.
    ///
    /// Whatever `step` computes, every path has `nr_steps + 1` entries,
    /// starts at `initial_value`, and is chained entry by entry by `step`
    /// under the same path-major, step-minor draw order as `simulate_paths`.
    pub fn simulate_paths_with<T2: Copy, Z: Copy, F: Fn(T2, Z) -> T2>(
        &self,
        nr_paths: usize,
        nr_steps: usize,
        initial_value: T2,
        step: &F,
    ) -> (paths: Vec<Vec<T2>>) where S: InnovationSource<Z>
        requires
            forall|s: T2, z: Z| #[trigger] call_requires(*step, (s, z)),
        ensures
            match self.seed {
                Some(seed) => is_chained_ensemble::<T2, Z, S, F>(
                    *step,
                    initial_value,
                    seed,
                    nr_paths as nat,
                    nr_steps as nat,
                    paths@,
                ),
                None => exists|seed: u64|
                    is_chained_ensemble::<T2, Z, S, F>(
                        *step,
                        initial_value,
                        seed,
                        nr_paths as nat,
                        nr_steps as nat,
                        paths@,
                    ),
            },
    {
        let mut source: S = match self.seed {
            Some(seed) => S::from_seed(seed),
            None => S::from_entropy(),
        };
        let paths = run_chained(&mut source, nr_paths, nr_steps, initial_value, step);
        paths
    }

    /// Simulates `nr_paths` paths of `nr_steps` steps each: for every path
    /// the raw-innovation buffer is handed to `transform`, which must turn it
    /// into the realized state values; the initial state is then prepended.
    /// This avoids the per-step path allocation of `simulate_paths_with`;
    /// the draw order is the same path-major, step-minor order.
    pub fn simulate_paths_apply_in_place<Z: Copy, F: Fn(Vec<Z>) -> Vec<Z>>(
        &self,
        nr_paths: usize,
        nr_steps: usize,
        initial_value: Z,
        transform: &F,
    ) -> (paths: Vec<Vec<Z>>) where S: InnovationSource<Z>
        requires
            forall|b: Vec<Z>| #[trigger] call_requires(*transform, (b,)),
        ensures
            match self.seed {
                Some(seed) => exists|ins: Seq<Vec<Z>>, outs: Seq<Vec<Z>>|
                    is_transformed_ensemble::<Z, S, F>(
                        *transform,
                        initial_value,
                        seed,
                        nr_paths as nat,
                        nr_steps as nat,
                        paths@,
                        ins,
                        outs,
                    ),
                None => exists|seed: u64, ins: Seq<Vec<Z>>, outs: Seq<Vec<Z>>|
                    is_transformed_ensemble::<Z, S, F>(
                        *transform,
                        initial_value,
                        seed,
                        nr_paths as nat,
                        nr_steps as nat,
                        paths@,
                        ins,
                        outs,
                    ),
            },
    {
        let mut source: S = match self.seed {
            Some(seed) => S::from_seed(seed),
            None => S::from_entropy(),
        };
        let paths = run_transformed(&mut source, nr_paths, nr_steps, initial_value, transform);
        paths
    }
}

/// An ensemble of `nr_paths` paths where, for each path `p`, the buffer
/// `ins[p]` of its `nr_steps` raw draws (consumed in path-major, step-minor
/// order from the seeded stream of `S`) was handed to `transform`, which
/// returned `outs[p]`, and the path is the initial value followed by
/// `outs[p]`. The witness buffers `ins` and `outs` are existentially
/// quantified where this predicate is used in a contract.
pub open spec fn is_transformed_ensemble<Z, S: InnovationSource<Z>, F: Fn(Vec<Z>) -> Vec<Z>>(
    transform: F,
    initial_value: Z,
    seed: u64,
    nr_paths: nat,
    nr_steps: nat,
    paths: Seq<Vec<Z>>,
    ins: Seq<Vec<Z>>,
    outs: Seq<Vec<Z>>,
) -> bool {
    &&& paths.len() == nr_paths
    &&& ins.len() == nr_paths
    &&& outs.len() == nr_paths
    &&& forall|p: int|
        0 <= p < nr_paths ==> (#[trigger] ins[p])@ == path_draws::<Z, S>(seed, nr_steps, p as nat)
    &&& forall|p: int| 0 <= p < nr_paths ==> #[trigger] call_ensures(transform, (ins[p],), outs[p])
    &&& forall|p: int| 0 <= p < nr_paths ==> (#[trigger] paths[p])@ == seq![initial_value] + outs[p]@
}

/// An ensemble of `nr_paths` paths, each of which starts at `initial_value`
/// and is chained, step by step, by the caller-supplied step function `step`,
/// with the innovations of the seeded stream of `S` consumed in path-major,
/// step-minor order. When `step` is deterministic this pins the ensemble
/// exactly (see `lemma_chained_matches_seeded`).
pub open spec fn is_chained_ensemble<T, Z, S: InnovationSource<Z>, F: Fn(T, Z) -> T>(
    step: F,
    initial_value: T,
    seed: u64,
    nr_paths: nat,
    nr_steps: nat,
    paths: Seq<Vec<T>>,
) -> bool {
    &&& paths.len() == nr_paths
    &&& forall|p: int| 0 <= p < nr_paths ==> (#[trigger] paths[p])@.len() == nr_steps + 1
    &&& forall|p: int| 0 <= p < nr_paths ==> (#[trigger] paths[p])@[0] == initial_value
    &&& forall|p: int, s: int|
        0 <= p < nr_paths && 0 <= s < nr_steps ==> #[trigger] call_ensures(
            step,
            (paths[p]@[s], path_draws::<Z, S>(seed, nr_steps, p as nat)[s]),
            paths[p]@[s + 1],
        )
}

/// Shape invariants of every seeded ensemble: it holds exactly `nr_paths`
/// paths, every path has exactly `nr_steps + 1` entries, and entry 0 of
/// every path is exactly the dynamics' configured initial state, untouched
/// by the stepping process.
pub proof fn lemma_seeded_ensemble_shape<T, Z, D: Dynamics<T, Z>, S: InnovationSource<Z>>(
    d: &D,
    seed: u64,
    nr_paths: nat,
    nr_steps: nat,
    paths: Seq<Vec<T>>,
)
    requires
        is_seeded_ensemble::<T, Z, D, S>(d, seed, nr_paths, nr_steps, paths),
    ensures
        paths.len() == nr_paths,
        forall|p: int| 0 <= p < nr_paths ==> (#[trigger] paths[p])@.len() == nr_steps + 1,
        forall|p: int| 0 <= p < nr_paths ==> (#[trigger] paths[p])@[0] == d.initial_spec(),
{
    assert forall|p: int| 0 <= p < nr_paths implies (#[trigger] paths[p])@.len() == nr_steps + 1
        && paths[p]@[0] == d.initial_spec() by {
        let zs = path_draws::<Z, S>(seed, nr_steps, p as nat);
        assert(paths[p]@ == path_of(step_fn_of(d), d.initial_spec(), zs));
        assert(path_of(step_fn_of(d), d.initial_spec(), zs)[0] == d.initial_spec());
    }
}

/// Determinism: a fixed seed, dynamics configuration, path count and step
/// count pin the whole ensemble, so any two ensembles that `simulate_paths`
/// describes for the same configuration are equal, path by path.
pub proof fn lemma_seeded_ensemble_deterministic<T, Z, D: Dynamics<T, Z>, S: InnovationSource<Z>>(
    d: &D,
    seed: u64,
    nr_paths: nat,
    nr_steps: nat,
    a: Seq<Vec<T>>,
    b: Seq<Vec<T>>,
)
    requires
        is_seeded_ensemble::<T, Z, D, S>(d, seed, nr_paths, nr_steps, a),
        is_seeded_ensemble::<T, Z, D, S>(d, seed, nr_paths, nr_steps, b),
    ensures
        a.len() == b.len(),
        forall|p: int| 0 <= p < a.len() ==> (#[trigger] a[p])@ == b[p]@,
{
}

/// A `simulate_paths_with` ensemble whose step function deterministically
/// computes the dynamics' own transition, started at the dynamics' own
/// initial state, is exactly the seeded ensemble of `simulate_paths`: the
/// two allocation strategies agree value for value.
pub proof fn lemma_chained_matches_seeded<
    T,
    Z,
    D: Dynamics<T, Z>,
    S: InnovationSource<Z>,
    F: Fn(T, Z) -> T,
>(
    d: &D,
    step: F,
    initial_value: T,
    seed: u64,
    nr_paths: nat,
    nr_steps: nat,
    paths: Seq<Vec<T>>,
)
    requires
        initial_value == d.initial_spec(),
        forall|s: T, z: Z, r: T|
            #[trigger] call_ensures(step, (s, z), r) ==> r == d.step_spec(s, z),
        is_chained_ensemble::<T, Z, S, F>(step, initial_value, seed, nr_paths, nr_steps, paths),
    ensures
        is_seeded_ensemble::<T, Z, D, S>(d, seed, nr_paths, nr_steps, paths),
{
    assert forall|p: int| 0 <= p < nr_paths implies (#[trigger] paths[p])@ == path_of(
        step_fn_of(d),
        d.initial_spec(),
        path_draws::<Z, S>(seed, nr_steps, p as nat),
    ) by {
        let zs = path_draws::<Z, S>(seed, nr_steps, p as nat);
        let pa = paths[p]@;
        assert forall|i: int| 0 <= i < zs.len() implies pa[i + 1] == step_fn_of(d)(
            pa[i],
            zs[i],
        ) by {
            assert(call_ensures(step, (paths[p]@[i], path_draws::<Z, S>(seed, nr_steps, p as nat)[i]), paths[p]@[i + 1]));
        }
        lemma_path_determined(step_fn_of(d), d.initial_spec(), zs, pa);
    }
}

/// A `simulate_paths_apply_in_place` ensemble whose transform
/// deterministically realizes the dynamics' cumulative states in place,
/// started at the dynamics' own initial state, is exactly the seeded
/// ensemble of `simulate_paths`: the in-place strategy agrees value for
/// value with the other two.
pub proof fn lemma_transformed_matches_seeded<
    T,
    D: Dynamics<T, T>,
    S: InnovationSource<T>,
    F: Fn(Vec<T>) -> Vec<T>,
>(
    d: &D,
    transform: F,
    initial_value: T,
    seed: u64,
    nr_paths: nat,
    nr_steps: nat,
    paths: Seq<Vec<T>>,
    ins: Seq<Vec<T>>,
    outs: Seq<Vec<T>>,
)
    requires
        initial_value == d.initial_spec(),
        forall|b: Vec<T>, o: Vec<T>|
            #[trigger] call_ensures(transform, (b,), o) ==> o@ == path_of(
                step_fn_of(d),
                d.initial_spec(),
                b@,
            ).skip(1),
        is_transformed_ensemble::<T, S, F>(
            transform,
            initial_value,
            seed,
            nr_paths,
            nr_steps,
            paths,
            ins,
            outs,
        ),
    ensures
        is_seeded_ensemble::<T, T, D, S>(d, seed, nr_paths, nr_steps, paths),
{
    assert forall|p: int| 0 <= p < nr_paths implies (#[trigger] paths[p])@ == path_of(
        step_fn_of(d),
        d.initial_spec(),
        path_draws::<T, S>(seed, nr_steps, p as nat),
    ) by {
        let zs = path_draws::<T, S>(seed, nr_steps, p as nat);
        let full = path_of(step_fn_of(d), d.initial_spec(), zs);
        assert(call_ensures(transform, (ins[p],), outs[p]));
        assert(ins[p]@ == zs);
        assert(outs[p]@ == full.skip(1));
        assert(paths[p]@ =~= full);
    }
}

/// Generates the full ensemble from a fresh source, consuming draws in
/// path-major, step-minor order.
fn run_simulation<T: Copy, Z: Copy, D: Dynamics<T, Z>, S: InnovationSource<Z>>(
    dynamics: &D,
    source: &mut S,
    nr_paths: usize,
    nr_steps: usize,
) -> (paths: Vec<Vec<T>>)
    requires
        old(source).pos() == 0,
    ensures
        is_seeded_ensemble::<T, Z, D, S>(
            dynamics,
            old(source).seed_of(),
            nr_paths as nat,
            nr_steps as nat,
            paths@,
        ),
{
    let ghost seed = source.seed_of();
    let mut paths: Vec<Vec<T>> = Vec::with_capacity(nr_paths);
    let mut p: usize = 0;
    while p < nr_paths
        invariant
            p <= nr_paths,
            paths@.len() == p,
            source.seed_of() == seed,
            source.pos() == p * nr_steps,
            forall|q: int|
                0 <= q < p ==> (#[trigger] paths@[q])@ == path_of(
                    step_fn_of(dynamics),
                    dynamics.initial_spec(),
                    path_draws::<Z, S>(seed, nr_steps as nat, q as nat),
                ),
        decreases nr_paths - p,
    {
        let ghost zs = path_draws::<Z, S>(seed, nr_steps as nat, p as nat);
        let mut path: Vec<T> = Vec::with_capacity(nr_steps);
        let mut curr = dynamics.initial_state();
        path.push(curr);

        let mut s: usize = 0;
        while s < nr_steps
            invariant
                s <= nr_steps,
                path@.len() == s + 1,
                path@[s as int] == curr,
                source.seed_of() == seed,
                source.pos() == p * nr_steps + s,
                zs == path_draws::<Z, S>(seed, nr_steps as nat, p as nat),
                forall|i: int|
                    0 <= i <= s ==> path@[i] == path_of(
                        step_fn_of(dynamics),
                        dynamics.initial_spec(),
                        zs,
                    )[i],
            decreases nr_steps - s,
        {
            let z = source.next();
            assert(z == zs[s as int]);
            curr = dynamics.step(curr, z);
            path.push(curr);
            s = s + 1;
        }
        assert(path@ =~= path_of(step_fn_of(dynamics), dynamics.initial_spec(), zs));
        paths.push(path);
        p = p + 1;
        assert(source.pos() == p * nr_steps) by (nonlinear_arith)
            requires
                source.pos() == (p - 1) * nr_steps + nr_steps,
        ;
    }
    paths
}

/// Generates the ensemble chained by a caller-supplied step function,
/// consuming draws in path-major, step-minor order.
fn run_chained<T2: Copy, Z: Copy, S: InnovationSource<Z>, F: Fn(T2, Z) -> T2>(
    source: &mut S,
    nr_paths: usize,
    nr_steps: usize,
    initial_value: T2,
    step: &F,
) -> (paths: Vec<Vec<T2>>)
    requires
        old(source).pos() == 0,
        forall|s: T2, z: Z| #[trigger] call_requires(*step, (s, z)),
    ensures
        is_chained_ensemble::<T2, Z, S, F>(
            *step,
            initial_value,
            old(source).seed_of(),
            nr_paths as nat,
            nr_steps as nat,
            paths@,
        ),
{
    let ghost seed = source.seed_of();
    let mut paths: Vec<Vec<T2>> = Vec::with_capacity(nr_paths);
    let mut p: usize = 0;
    while p < nr_paths
        invariant
            forall|s: T2, z: Z| #[trigger] call_requires(*step, (s, z)),
            p <= nr_paths,
            paths@.len() == p,
            source.seed_of() == seed,
            source.pos() == p * nr_steps,
            forall|q: int| 0 <= q < p ==> (#[trigger] paths@[q])@.len() == nr_steps + 1,
            forall|q: int| 0 <= q < p ==> (#[trigger] paths@[q])@[0] == initial_value,
            forall|q: int, s: int|
                0 <= q < p && 0 <= s < nr_steps ==> #[trigger] call_ensures(
                    *step,
                    (
                        paths@[q]@[s],
                        path_draws::<Z, S>(seed, nr_steps as nat, q as nat)[s],
                    ),
                    paths@[q]@[s + 1],
                ),
        decreases nr_paths - p,
    {
        let ghost zs = path_draws::<Z, S>(seed, nr_steps as nat, p as nat);
        let mut path: Vec<T2> = Vec::with_capacity(nr_steps);
        let mut curr = initial_value;
        path.push(curr);

        let mut s: usize = 0;
        while s < nr_steps
            invariant
                forall|st: T2, z: Z| #[trigger] call_requires(*step, (st, z)),
                s <= nr_steps,
                path@.len() == s + 1,
                path@[0] == initial_value,
                path@[s as int] == curr,
                source.seed_of() == seed,
                source.pos() == p * nr_steps + s,
                zs == path_draws::<Z, S>(seed, nr_steps as nat, p as nat),
                forall|i: int|
                    0 <= i < s ==> #[trigger] call_ensures(
                        *step,
                        (path@[i], zs[i]),
                        path@[i + 1],
                    ),
            decreases nr_steps - s,
        {
            let z = source.next();
            assert(z == zs[s as int]);
            curr = step(curr, z);
            path.push(curr);
            s = s + 1;
        }
        paths.push(path);
        p = p + 1;
        assert(source.pos() == p * nr_steps) by (nonlinear_arith)
            requires
                source.pos() == (p - 1) * nr_steps + nr_steps,
        ;
    }
    paths
}

/// Generates the ensemble whose paths are produced by an in-place transform
/// of each raw-innovation buffer, consuming draws in path-major, step-minor
/// order.
fn run_transformed<Z: Copy, S: InnovationSource<Z>, F: Fn(Vec<Z>) -> Vec<Z>>(
    source: &mut S,
    nr_paths: usize,
    nr_steps: usize,
    initial_value: Z,
    transform: &F,
) -> (paths: Vec<Vec<Z>>)
    requires
        old(source).pos() == 0,
        forall|b: Vec<Z>| #[trigger] call_requires(*transform, (b,)),
    ensures
        exists|ins: Seq<Vec<Z>>, outs: Seq<Vec<Z>>|
            is_transformed_ensemble::<Z, S, F>(
                *transform,
                initial_value,
                old(source).seed_of(),
                nr_paths as nat,
                nr_steps as nat,
                paths@,
                ins,
                outs,
            ),
{
    let ghost seed = source.seed_of();
    let ghost mut ins: Seq<Vec<Z>> = Seq::empty();
    let ghost mut outs: Seq<Vec<Z>> = Seq::empty();
    let mut paths: Vec<Vec<Z>> = Vec::with_capacity(nr_paths);
    let mut p: usize = 0;
    while p < nr_paths
        invariant
            forall|b: Vec<Z>| #[trigger] call_requires(*transform, (b,)),
            p <= nr_paths,
            paths@.len() == p,
            ins.len() == p,
            outs.len() == p,
            source.seed_of() == seed,
            source.pos() == p * nr_steps,
            forall|q: int|
                0 <= q < p ==> (#[trigger] ins[q])@ == path_draws::<Z, S>(
                    seed,
                    nr_steps as nat,
                    q as nat,
                ),
            forall|q: int| 0 <= q < p ==> #[trigger] call_ensures(*transform, (ins[q],), outs[q]),
            forall|q: int|
                0 <= q < p ==> (#[trigger] paths@[q])@ == seq![initial_value] + outs[q]@,
        decreases nr_paths - p,
    {
        let ghost zs = path_draws::<Z, S>(seed, nr_steps as nat, p as nat);
        let mut buffer: Vec<Z> = Vec::with_capacity(nr_steps);
        let mut s: usize = 0;
        while s < nr_steps
            invariant
                s <= nr_steps,
                buffer@.len() == s,
                source.seed_of() == seed,
                source.pos() == p * nr_steps + s,
                zs == path_draws::<Z, S>(seed, nr_steps as nat, p as nat),
                forall|i: int| 0 <= i < s ==> buffer@[i] == zs[i],
            decreases nr_steps - s,
        {
            let z = source.next();
            buffer.push(z);
            s = s + 1;
        }
        assert(buffer@ =~= zs);
        let ghost zin = buffer;
        let mut realized = transform(buffer);
        let ghost zout = realized;

        let mut path: Vec<Z> = Vec::new();
        path.push(initial_value);
        path.append(&mut realized);
        paths.push(path);
        proof {
            ins = ins.push(zin);
            outs = outs.push(zout);
            assert(paths@[p as int]@ =~= seq![initial_value] + zout@);
        }
        p = p + 1;
        assert(source.pos() == p * nr_steps) by (nonlinear_arith)
            requires
                source.pos() == (p - 1) * nr_steps + nr_steps,
        ;
    }
    proof {
        assert(is_transformed_ensemble::<Z, S, F>(
            *transform,
            initial_value,
            seed,
            nr_paths as nat,
            nr_steps as nat,
            paths@,
            ins,
            outs,
        ));
    }
    paths
}

} // verus!
