//! An earlier generation of the delay supply: iterator-style suppliers that
//! work in whole milliseconds and never run out.

use vstd::prelude::*;

use crate::config::{Config, DelayDistribution};
use crate::draw::{neg_exp_draw, neg_exp_value, rand_below, MAX_EXP_MEAN};

verus! {

/// A fixed delay in milliseconds.
pub struct ConstantDelay {
    pub delay_ms: u32,
}

impl ConstantDelay {
    pub fn new(delay_ms: u32) -> (r: ConstantDelay)
        ensures
            r.delay_ms == delay_ms,
    {
        ConstantDelay { delay_ms }
    }

    /// Always exactly the configured delay, on every draw.
    pub fn next(&mut self) -> (r: Option<u64>)
        ensures
            *final(self) == *old(self),
            r == Some(old(self).delay_ms as u64),
    {
        Some(self.delay_ms as u64)
    }
}

/// A delay drawn from the negative-exponential distribution with the given
/// mean, in milliseconds.
pub struct NegativeExponentialDelay {
    pub mean_ms: u32,
}

impl NegativeExponentialDelay {
    pub fn new(delay_ms: u32) -> (r: NegativeExponentialDelay)
        ensures
            r.mean_ms == delay_ms,
    {
        NegativeExponentialDelay { mean_ms: delay_ms }
    }

    /// One inverse-CDF sample around the mean.
    pub fn next(&mut self) -> (r: Option<u64>)
        ensures
            *final(self) == *old(self),
            r is Some,
            exists|k: int|
                1 <= k < 0x1_0000_0000 && r->0 == #[trigger] neg_exp_value(
                    old(self).mean_ms as nat,
                    k as nat,
                ),
    {
        proof {
            assert(self.mean_ms <= MAX_EXP_MEAN);
        }
        Some(neg_exp_draw(self.mean_ms as u64))
    }
}

/// A delay drawn uniformly from `[0, bound_ms)`.
pub struct UniformDelay {
    pub bound_ms: u32,
}

impl UniformDelay {
    /// The draw is over a non-empty range.
    pub open spec fn wf(self) -> bool {
        self.bound_ms >= 1
    }

    pub fn new(delay_ms: u32) -> (r: UniformDelay)
        requires
            delay_ms >= 1,
        ensures
            r.wf(),
            r.bound_ms == delay_ms,
    {
        UniformDelay { bound_ms: delay_ms }
    }

    /// A fresh uniform draw below the bound.
    pub fn next(&mut self) -> (r: Option<u64>)
        requires
            old(self).wf(),
        ensures
            *final(self) == *old(self),
            r is Some,
            r->0 < old(self).bound_ms,
    {
        Some(rand_below(self.bound_ms as u64))
    }
}

/// A delay sequence resolved once from the configuration.
pub enum DelaySequence {
    Constant(ConstantDelay),
    Uniform(UniformDelay),
    NegativeExponential(NegativeExponentialDelay),
}

impl DelaySequence {
    pub open spec fn wf(self) -> bool {
        match self {
            DelaySequence::Constant(_) => true,
            DelaySequence::Uniform(s) => s.wf(),
            DelaySequence::NegativeExponential(_) => true,
        }
    }

    /// The configured delay parameter in milliseconds.
    pub open spec fn delay_ms(self) -> int {
        match self {
            DelaySequence::Constant(s) => s.delay_ms as int,
            DelaySequence::Uniform(s) => s.bound_ms as int,
            DelaySequence::NegativeExponential(s) => s.mean_ms as int,
        }
    }

    /// Draws the next delay in milliseconds; the sequence never ends.
    pub fn next(&mut self) -> (r: Option<u64>)
        requires
            old(self).wf(),
        ensures
            *final(self) == *old(self),
            r is Some,
            (*old(self)) is Constant ==> r->0 == old(self).delay_ms(),
            (*old(self)) is Uniform ==> r->0 < old(self).delay_ms(),
            (*old(self)) is NegativeExponential ==> exists|k: int|
                1 <= k < 0x1_0000_0000 && r->0 == #[trigger] neg_exp_value(
                    old(self).delay_ms() as nat,
                    k as nat,
                ),
    {
        match self {
            DelaySequence::Constant(s) => s.next(),
            DelaySequence::Uniform(s) => s.next(),
            DelaySequence::NegativeExponential(s) => {
                let ghost mean = s.mean_ms;
                let r = s.next();
                proof {
                    let ghost ki = choose|k: int|
                        1 <= k < 0x1_0000_0000 && r->0 == #[trigger] neg_exp_value(
                            mean as nat,
                            k as nat,
                        );
                    assert(1 <= ki < 0x1_0000_0000 && r->0 == neg_exp_value(
                        old(self).delay_ms() as nat,
                        ki as nat,
                    ));
                }
                r
            },
        }
    }
}

/// Creates the delay sequence the configuration asks for, in milliseconds.
pub fn time_delay(config: &Config) -> (r: DelaySequence)
    requires
        config.delay_distrib == DelayDistribution::Uniform ==> config.delay_ms >= 1,
    ensures
        r.wf(),
        r.delay_ms() == config.delay_ms,
        r is Constant <==> config.delay_distrib == DelayDistribution::Constant,
        r is Uniform <==> config.delay_distrib == DelayDistribution::Uniform,
        r is NegativeExponential <==> config.delay_distrib
            == DelayDistribution::NegativeExponential,
{
    let delay_ms = config.delay_ms;
    match config.delay_distrib {
        DelayDistribution::Constant => DelaySequence::Constant(ConstantDelay::new(delay_ms)),
        DelayDistribution::Uniform => DelaySequence::Uniform(UniformDelay::new(delay_ms)),
        DelayDistribution::NegativeExponential => DelaySequence::NegativeExponential(
            NegativeExponentialDelay::new(delay_ms),
        ),
    }
}

} // verus!
