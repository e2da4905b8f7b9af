use vstd::prelude::*;

verus! {

/// The generator state that `oorandom::Rand32::new` produces from a seed.
pub uninterp spec fn pcg_seeded(seed: u64) -> (u64, u64);

/// The value drawn and the state left by `oorandom::Rand32::rand_range`.
pub uninterp spec fn pcg_range(state: (u64, u64), lo: u32, hi: u32) -> (u32, (u64, u64));

/// Relies on oorandom::Rand32::new: the state depends on the seed alone, and
/// the increment is made odd (`increment.wrapping_shl(1) | 1`).
#[verifier::external_body]
fn seeded_state(seed: u64) -> (r: (u64, u64))
    ensures
        r == pcg_seeded(seed),
        r.1 % 2 == 1,
{
    oorandom::Rand32::new(seed).state()
}

/// Relies on oorandom::Rand32::rand_range: for `lo < hi` it returns a value in
/// `[lo, hi)`; value and next state depend on the state and the bounds alone,
/// and each draw (`rand_u32`) advances the state word only, keeping the
/// increment. With an odd increment the generator has full period, so the
/// rejection loop ends.
#[verifier::external_body]
fn range_from_state(state: (u64, u64), lo: u32, hi: u32) -> (r: (u32, (u64, u64)))
    requires
        lo < hi,
        state.1 % 2 == 1,
    ensures
        r == pcg_range(state, lo, hi),
        lo <= r.0 < hi,
        r.1.1 == state.1,
{
    let mut g = oorandom::Rand32::from_state(state);
    let v = g.rand_range(lo..hi);
    (v, g.state())
}

/// A seeded pseudo-random generator, threaded explicitly through the spawner.
#[derive(Clone, Copy, Debug, PartialEq, Eq)]
pub struct Rng {
    pub state: (u64, u64),
}

impl Rng {
    /// The increment is odd, as every generator that `new` makes has it.
    pub open spec fn wf(self) -> bool {
        self.state.1 % 2 == 1
    }

    pub fn new(seed: u64) -> (r: Rng)
        ensures
            r.state == pcg_seeded(seed),
            r.wf(),
    {
        Rng { state: seeded_state(seed) }
    }

    /// Draws a value in `[lo, hi)`.
    pub fn range(&mut self, lo: u32, hi: u32) -> (r: u32)
        requires
            lo < hi,
            old(self).wf(),
        ensures
            r == pcg_range(old(self).state, lo, hi).0,
            final(self).state == pcg_range(old(self).state, lo, hi).1,
            lo <= r < hi,
            final(self).wf(),
    {
        let (v, next) = range_from_state(self.state, lo, hi);
        self.state = next;
        v
    }
}

} // verus!
