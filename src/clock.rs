use vstd::prelude::*;

verus! {

/// Simulation ticks per second.
pub const TICKS_PER_SECOND: u64 = 60;

/// Nanoseconds per second.
pub const NANOS_PER_SECOND: u64 = 1_000_000_000;

/// The fixed-timestep accumulator. `residue` is the wall time not yet
/// simulated, in sixtieths of a nanosecond, so that one tick is exactly
/// `NANOS_PER_SECOND` of them.
#[derive(Clone, Copy, Debug, PartialEq, Eq, Structural)]
pub struct TickClock {
    pub residue: u64,
}

impl TickClock {
    pub open spec fn wf(self) -> bool {
        self.residue < NANOS_PER_SECOND
    }

    pub fn new() -> (r: TickClock)
        ensures
            r.residue == 0,
            r.wf(),
    {
        TickClock { residue: 0 }
    }

    /// Adds `elapsed_nanos` of wall time and returns how many whole ticks are due.
    pub fn advance(&mut self, elapsed_nanos: u64) -> (ticks: u64)
        requires
            old(self).wf(),
        ensures
            ticks * NANOS_PER_SECOND + final(self).residue == old(self).residue + elapsed_nanos
                * TICKS_PER_SECOND,
            final(self).wf(),
    {
        let e: u128 = elapsed_nanos as u128;
        assert(e * 60 <= 0x1_0000_0000_0000_0000u128 * 60) by (nonlinear_arith)
            requires
                e < 0x1_0000_0000_0000_0000u128,
        ;
        let total: u128 = self.residue as u128 + e * 60;
        let n: u128 = total / NANOS_PER_SECOND as u128;
        let rest: u128 = total % NANOS_PER_SECOND as u128;
        assert(n * NANOS_PER_SECOND + rest == total && rest < NANOS_PER_SECOND) by (nonlinear_arith)
            requires
                n == total / 1_000_000_000u128,
                rest == total % 1_000_000_000u128,
        ;
        assert(n <= total) by (nonlinear_arith)
            requires
                n * NANOS_PER_SECOND + rest == total,
                rest >= 0,
                n >= 0,
        ;
        assert(total <= 0x1_0000_0000_0000_0000u128 * 61);
        assert(n < 0x1_0000_0000_0000_0000u128) by (nonlinear_arith)
            requires
                n * NANOS_PER_SECOND <= total,
                total <= 0x1_0000_0000_0000_0000u128 * 61,
        ;
        self.residue = rest as u64;
        n as u64
    }
}

} // verus!
