//! The source of the random numbers of a distribution.
//!
//! The numbers come from a seedable generator that the caller hands in, so
//! that a run can be repeated. The source keeps the numbers it has given out,
//! so that what was done with them can be stated.

use rand::rngs::StdRng;
use rand::Rng;
use rand::SeedableRng;
use vstd::prelude::*;

verus! {

#[verifier::external_type_specification]
#[verifier::external_body]
pub struct ExStdRng(StdRng);

/// `rand`'s `Rng::gen_range` on the half-open range from zero to `bound`:
/// the value it gives lies in that range, whatever the generator's state is.
/// It is not called with an empty range, for which it panics.
#[verifier::external_body]
fn uniform_below(rng: &mut StdRng, bound: u64) -> (r: u64)
    requires
        bound > 0,
    ensures
        r < bound,
{
    rng.gen_range(0..bound)
}

/// `rand`'s `SeedableRng::seed_from_u64` for `StdRng`: a generator made from
/// `seed`. Nothing is claimed of the generator.
#[verifier::external_body]
fn seeded(seed: u64) -> StdRng {
    StdRng::seed_from_u64(seed)
}

/// A source of random numbers that keeps what it has given out.
pub struct RandomSource {
    rng: StdRng,
    given: Ghost<Seq<u64>>,
}

impl RandomSource {
    /// The numbers that the source has given out, in their order.
    pub closed spec fn drawn(&self) -> Seq<u64> {
        self.given@
    }

    /// How many numbers the source has given out.
    pub open spec fn draws(&self) -> nat {
        self.drawn().len()
    }

    /// A source that draws from `rng` and has given out nothing yet.
    pub fn new(rng: StdRng) -> (r: Self)
        ensures
            r.drawn() == Seq::<u64>::empty(),
    {
        RandomSource { rng, given: Ghost(Seq::empty()) }
    }

    /// A source that draws from a generator made from `seed`, and has given
    /// out nothing yet.
    pub fn from_seed(seed: u64) -> (r: Self)
        ensures
            r.drawn() == Seq::<u64>::empty(),
    {
        RandomSource { rng: seeded(seed), given: Ghost(Seq::empty()) }
    }

    /// A number drawn uniformly from the `bound` numbers below `bound`.
    pub fn below(&mut self, bound: u64) -> (r: u64)
        requires
            bound > 0,
        ensures
            r < bound,
            final(self).drawn() == old(self).drawn().push(r),
    {
        let r = uniform_below(&mut self.rng, bound);
        proof {
            self.given@ = self.given@.push(r);
        }
        r
    }
}

/// The numbers that a source gave out between two moments: those that it has
/// given out `after` and had not given out `before`.
pub open spec fn drawn_between(before: RandomSource, after: RandomSource) -> Seq<u64> {
    after.drawn().skip(before.drawn().len() as int)
}

/// Whether a source has, `after`, given out all that it had given out
/// `before`, in the same order, and maybe more.
pub open spec fn drawn_on(before: RandomSource, after: RandomSource) -> bool {
    before.drawn().is_prefix_of(after.drawn())
}

} // verus!
