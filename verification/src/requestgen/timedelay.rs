//! Delay suppliers in microseconds: a bounded sequence of inter-dispatch
//! delays sampled from the configured distribution.  Stateless beyond their
//! parameters, so any number of workers may draw concurrently.

use vstd::prelude::*;

use crate::config::DelayDistribution;
use crate::draw::{neg_exp_draw, neg_exp_value, rand_below, MAX_EXP_MEAN};

verus! {

/// A fixed delay.
pub struct ConstantDelay {
    pub delay_us: u64,
}

impl ConstantDelay {
    pub fn new(delay_us: u64) -> (r: ConstantDelay)
        ensures
            r.delay_us == delay_us,
    {
        ConstantDelay { delay_us }
    }

    /// Always exactly the configured delay, on every draw.
    pub fn next_delay(&self) -> (r: u64)
        ensures
            r == self.delay_us,
    {
        self.delay_us
    }
}

/// A delay drawn uniformly from `[0, bound_us)`.
pub struct UniformDelay {
    pub bound_us: u64,
}

impl UniformDelay {
    /// The draw is over a non-empty range.
    pub open spec fn wf(self) -> bool {
        self.bound_us >= 1
    }

    pub fn new(delay_us: u64) -> (r: UniformDelay)
        requires
            delay_us >= 1,
        ensures
            r.wf(),
            r.bound_us == delay_us,
    {
        UniformDelay { bound_us: delay_us }
    }

    /// A fresh uniform draw below the bound.
    pub fn next_delay(&self) -> (r: u64)
        requires
            self.wf(),
        ensures
            r < self.bound_us,
    {
        rand_below(self.bound_us)
    }
}

/// A delay drawn from the negative-exponential distribution with the given
/// mean; it models bursty, clumped request issuance rather than evenly
/// spaced traffic.
pub struct NegativeExponentialDelay {
    pub mean_us: u64,
}

impl NegativeExponentialDelay {
    /// The mean stays small enough for the fixed-point transform.
    pub open spec fn wf(self) -> bool {
        self.mean_us <= MAX_EXP_MEAN
    }

    pub fn new(delay_us: u64) -> (r: NegativeExponentialDelay)
        requires
            delay_us <= MAX_EXP_MEAN,
        ensures
            r.wf(),
            r.mean_us == delay_us,
    {
        NegativeExponentialDelay { mean_us: delay_us }
    }

    /// One inverse-CDF sample: a uniform draw of `2^32` (zero excluded, as
    /// the logarithm demands) pushed through the exact integer transform.
    pub fn next_delay(&self) -> (r: u64)
        requires
            self.wf(),
        ensures
            exists|k: int|
                1 <= k < 0x1_0000_0000 && r == #[trigger] neg_exp_value(self.mean_us as nat, k as nat),
    {
        neg_exp_draw(self.mean_us)
    }
}

/// A delay supplier resolved once at construction; the distributions form a
/// closed set, dispatched by direct branching in the hot loop.
pub enum TimeDelaySupplier {
    Constant(ConstantDelay),
    Uniform(UniformDelay),
    NegativeExponential(NegativeExponentialDelay),
}

impl TimeDelaySupplier {
    pub open spec fn wf(self) -> bool {
        match self {
            TimeDelaySupplier::Constant(_) => true,
            TimeDelaySupplier::Uniform(s) => s.wf(),
            TimeDelaySupplier::NegativeExponential(s) => s.wf(),
        }
    }

    /// The configured delay parameter in microseconds: the constant delay,
    /// the uniform bound, or the exponential mean.
    pub open spec fn delay_us(self) -> int {
        match self {
            TimeDelaySupplier::Constant(s) => s.delay_us as int,
            TimeDelaySupplier::Uniform(s) => s.bound_us as int,
            TimeDelaySupplier::NegativeExponential(s) => s.mean_us as int,
        }
    }

    /// Draws the next delay: exactly the configured delay for the constant
    /// distribution, below the bound for the uniform one, and an exact
    /// inverse-CDF sample for the negative-exponential one.
    pub fn next_delay(&self) -> (r: u64)
        requires
            self.wf(),
        ensures
            self is Constant ==> r == self.delay_us(),
            self is Uniform ==> r < self.delay_us(),
            self is NegativeExponential ==> exists|k: int|
                1 <= k < 0x1_0000_0000 && r == #[trigger] neg_exp_value(self.delay_us() as nat, k as nat),
    {
        match self {
            TimeDelaySupplier::Constant(s) => s.next_delay(),
            TimeDelaySupplier::Uniform(s) => s.next_delay(),
            TimeDelaySupplier::NegativeExponential(s) => {
                let r = s.next_delay();
                proof {
                    let ghost ki = choose|k: int|
                        1 <= k < 0x1_0000_0000 && r == #[trigger] neg_exp_value(
                            s.mean_us as nat,
                            k as nat,
                        );
                    assert(1 <= ki < 0x1_0000_0000 && r == neg_exp_value(
                        self.delay_us() as nat,
                        ki as nat,
                    ));
                }
                r
            },
        }
    }
}

/// Creates a delay supplier for the nominated distribution, converting the
/// configured delay from milliseconds to microseconds.
pub fn create_supplier(delay_ms: &u32, distrib: &DelayDistribution) -> (r: TimeDelaySupplier)
    requires
        distrib == DelayDistribution::Uniform ==> *delay_ms >= 1,
    ensures
        r.wf(),
        r.delay_us() == *delay_ms * 1000,
        r is Constant <==> distrib == DelayDistribution::Constant,
        r is Uniform <==> distrib == DelayDistribution::Uniform,
        r is NegativeExponential <==> distrib == DelayDistribution::NegativeExponential,
{
    let delay_us = (*delay_ms as u64) * 1000;
    match distrib {
        DelayDistribution::Constant => TimeDelaySupplier::Constant(ConstantDelay::new(delay_us)),
        DelayDistribution::Uniform => TimeDelaySupplier::Uniform(UniformDelay::new(delay_us)),
        DelayDistribution::NegativeExponential => TimeDelaySupplier::NegativeExponential(
            NegativeExponentialDelay::new(delay_us),
        ),
    }
}

} // verus!
