//! The fixed-step accumulator: from frames of any length to sub-steps of one
//! length.
//!
//! Time is counted in whole ticks. The host chooses what a tick is, and so
//! can make the sub-step a whole number of them: with a tick of 1/120 of a
//! nanosecond, a sub-step of 1/120 s is a thousand million ticks.

use vstd::prelude::*;
use vstd::arithmetic::div_mod::{
    lemma_fundamental_div_mod,
    lemma_fundamental_div_mod_converse,
    lemma_mod_bound,
};

verus! {

/// Gathers the time that frames take and releases it in sub-steps of a fixed
/// length. What does not fill a sub-step is carried to the next frame.
#[derive(Clone, Copy, Debug)]
pub struct FixedStepAccumulator {
    step: u64,
    pending: u64,
}

impl FixedStepAccumulator {
    #[verifier::type_invariant]
    spec fn inv(self) -> bool {
        0 < self.step && self.pending < self.step
    }

    /// Length of a sub-step, in ticks.
    pub closed spec fn period(self) -> int {
        self.step as int
    }

    /// Time gathered and not yet released, in ticks.
    pub closed spec fn carried(self) -> int {
        self.pending as int
    }

    /// An accumulator that holds no time, for sub-steps of `step` ticks.
    /// There is none for sub-steps of no length.
    pub fn new(step: u64) -> (made: Option<FixedStepAccumulator>)
        ensures
            made is Some <==> step > 0,
            made matches Some(acc) ==> acc.period() == step && acc.carried() == 0,
    {
        if step == 0 {
            None
        } else {
            Some(FixedStepAccumulator { step, pending: 0 })
        }
    }

    /// Length of a sub-step, in ticks. It is not zero.
    pub fn step_ticks(&self) -> (ticks: u64)
        ensures
            ticks == self.period(),
            ticks > 0,
    {
        proof {
            use_type_invariant(self);
        }
        self.step
    }

    /// Time gathered and not yet released, in ticks: less than a sub-step.
    pub fn pending_ticks(&self) -> (ticks: u64)
        ensures
            ticks == self.carried(),
            ticks < self.period(),
    {
        proof {
            use_type_invariant(self);
        }
        self.pending
    }

    /// Takes in a frame of `elapsed` ticks and releases every whole sub-step
    /// that the time gathered holds, however many they are. Returns their
    /// number; the host runs that many sub-steps.
    pub fn advance(&mut self, elapsed: u64) -> (steps: u64)
        ensures
            final(self).period() == old(self).period(),
            steps == (old(self).carried() + elapsed) / old(self).period(),
            final(self).carried() == (old(self).carried() + elapsed) % old(self).period(),
    {
        proof {
            use_type_invariant(&*self);
        }
        let whole: u64 = elapsed / self.step;
        let part: u64 = elapsed % self.step;
        let room: u64 = self.step - self.pending;
        proof {
            lemma_fundamental_div_mod(elapsed as int, self.step as int);
            lemma_mod_bound(elapsed as int, self.step as int);
            assert(self.step * whole == whole * self.step) by (nonlinear_arith);
        }
        if part >= room {
            proof {
                assert((whole + 1) * self.step == whole * self.step + self.step)
                    by (nonlinear_arith);
                assert(whole < u64::MAX) by (nonlinear_arith)
                    requires
                        elapsed == whole * self.step + part,
                        part >= 1,
                        self.step >= 1,
                        elapsed <= u64::MAX,
                ;
                lemma_fundamental_div_mod_converse(
                    self.pending + elapsed,
                    self.step as int,
                    whole + 1,
                    part - room,
                );
            }
            self.pending = part - room;
            whole + 1
        } else {
            proof {
                lemma_fundamental_div_mod_converse(
                    self.pending + elapsed,
                    self.step as int,
                    whole as int,
                    self.pending + part,
                );
            }
            self.pending = self.pending + part;
            whole
        }
    }
}

/// The time that a run of frames takes, in ticks.
pub open spec fn total(frames: Seq<u64>) -> int
    decreases frames.len(),
{
    if frames.len() == 0 {
        0
    } else {
        frames[0] + total(frames.drop_first())
    }
}

/// The number of sub-steps that `advance` releases over a run of frames,
/// called once per frame, in an accumulator that starts with `carried`
/// ticks.
pub open spec fn released(period: int, carried: int, frames: Seq<u64>) -> int
    decreases frames.len(),
{
    if frames.len() == 0 {
        0
    } else {
        (carried + frames[0]) / period + released(
            period,
            (carried + frames[0]) % period,
            frames.drop_first(),
        )
    }
}

/// What the accumulator carries after that run of frames.
pub open spec fn carried_after(period: int, carried: int, frames: Seq<u64>) -> int
    decreases frames.len(),
{
    if frames.len() == 0 {
        carried
    } else {
        carried_after(period, (carried + frames[0]) % period, frames.drop_first())
    }
}

/// No time is lost and none is made: over any run of frames, the sub-steps
/// released and the ticks carried are the quotient and the remainder of all
/// the time taken in, by the length of a sub-step.
pub proof fn lemma_time_is_kept(period: int, carried: int, frames: Seq<u64>)
    requires
        period > 0,
        0 <= carried < period,
    ensures
        released(period, carried, frames) == (carried + total(frames)) / period,
        carried_after(period, carried, frames) == (carried + total(frames)) % period,
    decreases frames.len(),
{
    let p = period;
    if frames.len() == 0 {
        lemma_fundamental_div_mod_converse(carried, p, 0, carried);
    } else {
        let taken = carried + frames[0];
        let later = total(frames.drop_first());
        let q = taken / p;
        let r = taken % p;
        lemma_fundamental_div_mod(taken, p);
        lemma_mod_bound(taken, p);
        lemma_time_is_kept(period, r, frames.drop_first());
        let q2 = (r + later) / p;
        let r2 = (r + later) % p;
        lemma_fundamental_div_mod(r + later, p);
        lemma_mod_bound(r + later, p);
        assert(taken + later == (q + q2) * p + r2) by (nonlinear_arith)
            requires
                taken == p * q + r,
                r + later == p * q2 + r2,
        ;
        lemma_fundamental_div_mod_converse(taken + later, p, q + q2, r2);
    }
}

/// The rate of frames does not matter: two runs of frames that take the same
/// time in all release the same number of sub-steps and carry the same
/// remainder, however each run is cut into frames.
pub proof fn lemma_frame_rate_independence(
    period: int,
    carried: int,
    coarse: Seq<u64>,
    fine: Seq<u64>,
)
    requires
        period > 0,
        0 <= carried < period,
        total(coarse) == total(fine),
    ensures
        released(period, carried, coarse) == released(period, carried, fine),
        carried_after(period, carried, coarse) == carried_after(period, carried, fine),
{
    lemma_time_is_kept(period, carried, coarse);
    lemma_time_is_kept(period, carried, fine);
}

} // verus!
