use vstd::prelude::*;

verus! {

/// The index of a draw within a source's stream.
pub type DrawIndex = nat;

/// A pluggable, seedable source of random innovations of type `Z`, one draw
/// per simulation step.
///
/// The contract makes every source deterministic in the seed: the `k`-th
/// value produced by a source of type `Self` seeded with `seed` is the spec
/// value `Self::draw(seed, k)`, whatever else happens between the draws.
/// The simulator builds its reproducibility guarantee on exactly this.
pub trait InnovationSource<Z>: Sized {
    /// The `k`-th innovation that a source of this type yields after being
    /// seeded with `seed`.
    spec fn draw(seed: u64, k: DrawIndex) -> Z;

    /// The seed this source was created from.
    spec fn seed_of(&self) -> u64;

    /// How many innovations have been drawn from this source so far.
    spec fn pos(&self) -> DrawIndex;

    /// A source that will replay the stream `Self::draw(seed, 0), Self::draw(seed, 1), ...`.
    fn from_seed(seed: u64) -> (source: Self)
        ensures
            source.seed_of() == seed,
            source.pos() == 0,
    ;

    /// A source seeded from ambient entropy: its stream is still some seed's
    /// stream, but which seed is not known, so nothing reproducible can be
    /// concluded about the values drawn.
    fn from_entropy() -> (source: Self)
        ensures
            source.pos() == 0,
    ;

    /// Draws the next innovation and advances the source by one position.
    fn next(&mut self) -> (z: Z)
        ensures
            final(self).seed_of() == old(self).seed_of(),
            final(self).pos() == old(self).pos() + 1,
            z == Self::draw(old(self).seed_of(), old(self).pos()),
    ;
}

/// Declares rand's standard generator so that a source can hold one in a
/// field; its state stays opaque here.
#[verifier::external_type_specification]
#[verifier::external_body]
pub struct ExStdRng(rand::rngs::StdRng);

/// The bits that a `rand::rngs::StdRng` seeded with `seed` yields as its
/// `k`-th call of `next_u64`.
pub uninterp spec fn std_rng_bits(seed: u64, k: nat) -> u64;

/// A seedable source of uniformly distributed 64-bit words, backed by
/// `rand::rngs::StdRng`.
///
/// The fields are private and paired by construction: `rng` is always a
/// generator seeded from `seed` and advanced by `position` draws. Both
/// constructors establish this pairing and `next_bits` maintains it; the
/// contract of `next_bits` is trusted on exactly that ground.
pub struct UniformBitsSource {
    rng: rand::rngs::StdRng,
    seed: Ghost<u64>,
    position: Ghost<nat>,
}

/// Relies on `rand::SeedableRng::seed_from_u64` for `rand::rngs::StdRng`:
/// a fixed seed gives a generator in a state determined by that seed alone,
/// positioned before the word named `std_rng_bits(seed, 0)`.
#[verifier::external_body]
fn seed_std_rng(seed: u64) -> rand::rngs::StdRng {
    <rand::rngs::StdRng as rand::SeedableRng>::seed_from_u64(seed)
}

/// Relies on `rand::random`: one word from the thread-local, entropy-seeded
/// generator. Nothing is promised of the value.
#[verifier::external_body]
fn entropy_word() -> u64 {
    rand::random::<u64>()
}

impl UniformBitsSource {
    fn new_seeded(seed: u64) -> (source: Self)
        ensures
            source.seed@ == seed,
            source.position@ == 0,
    {
        UniformBitsSource { rng: seed_std_rng(seed), seed: Ghost(seed), position: Ghost(0nat) }
    }

    /// Relies on `rand::RngCore::next_u64` for `rand::rngs::StdRng`: the
    /// generator yields a sequence of words determined by its seed alone
    /// (rand_core documents seeded generators as reproducible across runs
    /// and architectures), so the word drawn at position `k` after seeding
    /// with `seed` is named `std_rng_bits(seed, k)`.
    #[verifier::external_body]
    fn next_bits(&mut self) -> (z: u64)
        ensures
            final(self).seed@ == old(self).seed@,
            final(self).position@ == old(self).position@ + 1,
            z == std_rng_bits(old(self).seed@, old(self).position@),
    {
        rand::RngCore::next_u64(&mut self.rng)
    }
}

impl InnovationSource<u64> for UniformBitsSource {
    open spec fn draw(seed: u64, k: nat) -> u64 {
        std_rng_bits(seed, k)
    }

    closed spec fn seed_of(&self) -> u64 {
        self.seed@
    }

    closed spec fn pos(&self) -> nat {
        self.position@
    }

    fn from_seed(seed: u64) -> (source: Self) {
        UniformBitsSource::new_seeded(seed)
    }

    fn from_entropy() -> (source: Self) {
        let seed = entropy_word();
        UniformBitsSource::new_seeded(seed)
    }

    fn next(&mut self) -> (z: u64) {
        self.next_bits()
    }
}

} // verus!
