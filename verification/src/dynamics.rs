use vstd::prelude::*;

verus! {

/// A stochastic state-transition model: an initial state together with a
/// deterministic map from a current state and one random innovation to the
/// next state.
///
/// Consumers supply an implementation (a dynamics model) to the simulator;
/// the two executable methods are pinned to the two spec functions, so a
/// model's whole behaviour under simulation is the spec pair
/// `(initial_spec, step_spec)`.
pub trait Dynamics<T, Z> {
    /// The configured initial state.
    spec fn initial_spec(&self) -> T;

    /// The state reached from `state` by one step under innovation `z`.
    spec fn step_spec(&self, state: T, z: Z) -> T;

    /// Returns the configured initial state.
    fn initial_state(&self) -> (r: T)
        ensures
            r == self.initial_spec(),
    ;

    /// Performs one deterministic transition.
    fn step(&self, state: T, z: Z) -> (r: T)
        ensures
            r == self.step_spec(state, z),
    ;
}

/// The step function of a dynamics model, as a value.
pub open spec fn step_fn_of<T, Z, D: Dynamics<T, Z>>(d: &D) -> spec_fn(T, Z) -> T {
    |state: T, z: Z| d.step_spec(state, z)
}

/// The state reached from `initial` after the first `i` innovations of `zs`
/// have been applied through `step`.
pub open spec fn state_after<T, Z>(step: spec_fn(T, Z) -> T, initial: T, zs: Seq<Z>, i: nat) -> T
    decreases i,
{
    if i == 0 {
        initial
    } else {
        step(state_after(step, initial, zs, (i - 1) as nat), zs[i - 1])
    }
}

/// The discretized path that starts at `initial` and applies `step` once per
/// innovation of `zs`: index 0 is the initial state, index i the state after
/// i steps, so the path has `zs.len() + 1` entries.
pub open spec fn path_of<T, Z>(step: spec_fn(T, Z) -> T, initial: T, zs: Seq<Z>) -> Seq<T> {
    Seq::new(zs.len() + 1, |i: int| state_after(step, initial, zs, i as nat))
}

/// A sequence that starts at `initial` and is chained by `step` is the path
/// `path_of` describes: stepping is deterministic, so start, innovations and
/// step function pin every entry.
pub proof fn lemma_path_determined<T, Z>(step: spec_fn(T, Z) -> T, initial: T, zs: Seq<Z>, p: Seq<T>)
    requires
        p.len() == zs.len() + 1,
        p[0] == initial,
        forall|i: int| 0 <= i < zs.len() ==> p[i + 1] == step(p[i], #[trigger] zs[i]),
    ensures
        p =~= path_of(step, initial, zs),
{
    assert forall|i: int| 0 <= i < p.len() implies p[i] == path_of(step, initial, zs)[i] by {
        lemma_chained_prefix(step, initial, zs, p, i as nat);
    }
}

proof fn lemma_chained_prefix<T, Z>(
    step: spec_fn(T, Z) -> T,
    initial: T,
    zs: Seq<Z>,
    p: Seq<T>,
    i: nat,
)
    requires
        p.len() == zs.len() + 1,
        p[0] == initial,
        forall|j: int| 0 <= j < zs.len() ==> p[j + 1] == step(p[j], #[trigger] zs[j]),
        i < p.len(),
    ensures
        p[i as int] == state_after(step, initial, zs, i),
    decreases i,
{
    if i > 0 {
        lemma_chained_prefix(step, initial, zs, p, (i - 1) as nat);
    }
}

} // verus!
