//! Request generation: composes an index supplier and a delay supplier
//! behind one shared "draw the next unit of work" operation, bounded to the
//! configured request budget and tracking progress.

use vstd::prelude::*;

pub mod indexseq;
pub mod timedelay;

use crate::config::{Config, DelayDistribution, RequestOrder};
use crate::draw::neg_exp_value;
use indexseq::IndexSupplier;
use timedelay::TimeDelaySupplier;

verus! {

/// One unit of work: which target to hit and how long to wait before
/// dispatching, in microseconds.  Created fresh per draw and consumed
/// immediately by the worker that drew it.
pub struct Request {
    pub url_index: usize,
    pub sleep_us: u64,
}

/// Generates requests according to the configured order and time delay,
/// bounding the total to the configured request count.  The surrounding
/// application shares one generator among all workers behind a mutex.
pub struct RequestGenerator {
    pub url_index_supplier: IndexSupplier,
    pub time_delay_supplier: TimeDelaySupplier,
    /// Completed draws, stepped once per successful draw.
    pub progress: u64,
}

impl RequestGenerator {
    /// Both suppliers are well formed and the progress counter agrees with
    /// the number of draws handed out.
    pub open spec fn wf(self) -> bool {
        &&& self.url_index_supplier.wf()
        &&& self.time_delay_supplier.wf()
        &&& self.progress == self.url_index_supplier.drawn()
    }

    /// Successful draws handed out so far.
    pub open spec fn drawn(self) -> int {
        self.url_index_supplier.drawn()
    }

    /// Length of the target list.
    pub open spec fn limit(self) -> int {
        self.url_index_supplier.limit()
    }

    /// Total request budget.
    pub open spec fn requests(self) -> int {
        self.url_index_supplier.requests()
    }

    pub open spec fn is_sequential(self) -> bool {
        self.url_index_supplier.is_sequential()
    }

    /// Creates a generator from the configuration; `urls_count` is the
    /// number of distinct units the drawn index selects among (targets for
    /// reads, payloads for writes) and must not be zero.
    pub fn new(config: &Config, urls_count: usize) -> (r: RequestGenerator)
        requires
            urls_count >= 1,
            config.delay_distrib == DelayDistribution::Uniform ==> config.delay_ms >= 1,
        ensures
            r.wf(),
            r.drawn() == 0,
            r.progress == 0,
            r.limit() == urls_count,
            r.requests() == config.requests,
            r.is_sequential() <==> config.order == RequestOrder::Sequential,
            r.time_delay_supplier.delay_us() == config.delay_ms * 1000,
            r.time_delay_supplier is Constant <==> config.delay_distrib
                == DelayDistribution::Constant,
            r.time_delay_supplier is Uniform <==> config.delay_distrib
                == DelayDistribution::Uniform,
            r.time_delay_supplier is NegativeExponential <==> config.delay_distrib
                == DelayDistribution::NegativeExponential,
    {
        let num_requests = config.requests;
        let url_index_supplier = indexseq::create_supplier(&config.order, urls_count, num_requests);
        let time_delay_supplier = timedelay::create_supplier(
            &config.delay_ms,
            &config.delay_distrib,
        );
        RequestGenerator { url_index_supplier, time_delay_supplier, progress: 0 }
    }

    /// Draws the next request, or `None` once the budget is exhausted.
    /// Exactly `requests` draws succeed over the generator's lifetime: one
    /// per call while `drawn() < requests()`, none afterwards.  A successful
    /// draw carries an index below the limit — the round-robin position for
    /// the sequential order — and a delay from the configured distribution.
    pub fn next(&mut self) -> (r: Option<Request>)
        requires
            old(self).wf(),
        ensures
            final(self).wf(),
            final(self).limit() == old(self).limit(),
            final(self).requests() == old(self).requests(),
            final(self).is_sequential() == old(self).is_sequential(),
            final(self).time_delay_supplier == old(self).time_delay_supplier,
            old(self).drawn() < old(self).requests() ==> {
                &&& r is Some
                &&& final(self).drawn() == old(self).drawn() + 1
                &&& r->0.url_index < old(self).limit()
                &&& old(self).is_sequential() ==> r->0.url_index == old(self).drawn() % old(
                    self,
                ).limit()
                &&& old(self).time_delay_supplier is Constant ==> r->0.sleep_us == old(
                    self,
                ).time_delay_supplier.delay_us()
                &&& old(self).time_delay_supplier is Uniform ==> r->0.sleep_us < old(
                    self,
                ).time_delay_supplier.delay_us()
                &&& old(self).time_delay_supplier is NegativeExponential ==> exists|k: int|
                    1 <= k < 0x1_0000_0000 && r->0.sleep_us == #[trigger] neg_exp_value(
                        old(self).time_delay_supplier.delay_us() as nat,
                        k as nat,
                    )
            },
            old(self).drawn() >= old(self).requests() ==> {
                &&& r is None
                &&& *final(self) == *old(self)
            },
    {
        match self.url_index_supplier.next_index() {
            None => None,
            Some(url_index) => {
                let sleep_us = self.time_delay_supplier.next_delay();
                self.progress = self.progress + 1;
                Some(Request { url_index, sleep_us })
            },
        }
    }
}

} // verus!
