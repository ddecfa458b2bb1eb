//! Index suppliers: bounded sequences of target-list positions, drawn either
//! in round-robin order or uniformly at random with replacement.

use vstd::prelude::*;

use crate::config::RequestOrder;
use crate::draw::rand_below;

verus! {

/// Supplies indices in strict round-robin order: the `n`-th successful draw
/// is `n % limit`, and draws beyond `requests` report exhaustion.
pub struct SequentialIndex {
    /// Number of draws handed out so far.
    pub next: usize,
    /// Length of the target list; indices stay below it.
    pub limit: usize,
    /// Total request budget.
    pub requests: usize,
}

impl SequentialIndex {
    /// A supplier is only built over a non-empty target list.
    pub open spec fn wf(self) -> bool {
        &&& self.limit >= 1
        &&& self.next <= self.requests
    }

    pub fn new(limit: usize, requests: usize) -> (r: SequentialIndex)
        requires
            limit >= 1,
        ensures
            r.wf(),
            r.next == 0,
            r.limit == limit,
            r.requests == requests,
    {
        SequentialIndex { next: 0, limit, requests }
    }

    /// Returns the next round-robin index, or `None` once `requests` draws
    /// have succeeded.  The value handed out at draw number `n` (counting
    /// from zero) is exactly `n % limit`.
    pub fn next_index(&mut self) -> (r: Option<usize>)
        requires
            old(self).wf(),
        ensures
            final(self).wf(),
            final(self).limit == old(self).limit,
            final(self).requests == old(self).requests,
            old(self).next < old(self).requests ==> {
                &&& r == Some((old(self).next as int % old(self).limit as int) as usize)
                &&& final(self).next == old(self).next + 1
            },
            old(self).next >= old(self).requests ==> {
                &&& r is None
                &&& *final(self) == *old(self)
            },
    {
        if self.next < self.requests {
            let index = self.next % self.limit;
            self.next = self.next + 1;
            Some(index)
        } else {
            None
        }
    }
}

/// The values a sequential supplier still emits before it reports
/// exhaustion: each successful draw hands out the head and `next_index`
/// steps the state by one, exactly as its contract says.
pub open spec fn sequential_emission(s: SequentialIndex) -> Seq<int>
    decreases s.requests - s.next,
{
    if s.next >= s.requests {
        Seq::<int>::empty()
    } else {
        seq![s.next as int % s.limit as int] + sequential_emission(
            SequentialIndex { next: (s.next + 1) as usize, limit: s.limit, requests: s.requests },
        )
    }
}

/// A sequential supplier emits exactly `requests - next` more values, and
/// the `n`-th of them is `(next + n) % limit`; from a fresh supplier that
/// is `requests` values, the strict round-robin walk over the target list.
pub proof fn lemma_sequential_emission(s: SequentialIndex)
    requires
        s.wf(),
    ensures
        sequential_emission(s).len() == s.requests - s.next,
        forall|n: int|
            0 <= n < sequential_emission(s).len() ==> #[trigger] sequential_emission(s)[n] == (
            s.next + n) % (s.limit as int),
    decreases s.requests - s.next,
{
    if s.next < s.requests {
        let stepped = SequentialIndex {
            next: (s.next + 1) as usize,
            limit: s.limit,
            requests: s.requests,
        };
        lemma_sequential_emission(stepped);
        assert forall|n: int| 0 <= n < sequential_emission(s).len() implies #[trigger]
        sequential_emission(s)[n] == (s.next + n) % (s.limit as int) by {
            if n > 0 {
                assert(sequential_emission(s)[n] == sequential_emission(stepped)[n - 1]);
            }
        }
    }
}

/// Supplies uniformly distributed indices below `limit`, independently per
/// draw and with replacement, until `requests` draws have succeeded.
pub struct RandomIndex {
    /// Number of draws handed out so far.
    pub count: usize,
    /// Length of the target list; indices stay below it.
    pub limit: usize,
    /// Total request budget.
    pub requests: usize,
}

impl RandomIndex {
    /// A supplier is only built over a non-empty target list.
    pub open spec fn wf(self) -> bool {
        &&& self.limit >= 1
        &&& self.count <= self.requests
    }

    pub fn new(limit: usize, requests: usize) -> (r: RandomIndex)
        requires
            limit >= 1,
        ensures
            r.wf(),
            r.count == 0,
            r.limit == limit,
            r.requests == requests,
    {
        RandomIndex { count: 0, limit, requests }
    }

    /// Returns a fresh uniformly drawn index below `limit`, or `None` once
    /// `requests` draws have succeeded.
    pub fn next_index(&mut self) -> (r: Option<usize>)
        requires
            old(self).wf(),
        ensures
            final(self).wf(),
            final(self).limit == old(self).limit,
            final(self).requests == old(self).requests,
            old(self).count < old(self).requests ==> {
                &&& r is Some
                &&& r->0 < old(self).limit
                &&& final(self).count == old(self).count + 1
            },
            old(self).count >= old(self).requests ==> {
                &&& r is None
                &&& *final(self) == *old(self)
            },
    {
        if self.count < self.requests {
            self.count = self.count + 1;
            let drawn = rand_below(self.limit as u64);
            Some(drawn as usize)
        } else {
            None
        }
    }
}

/// An index supplier resolved once at construction: the ordering strategies
/// form a closed set, dispatched by direct branching in the hot loop.
pub enum IndexSupplier {
    Sequential(SequentialIndex),
    Random(RandomIndex),
}

impl IndexSupplier {
    pub open spec fn wf(self) -> bool {
        match self {
            IndexSupplier::Sequential(s) => s.wf(),
            IndexSupplier::Random(s) => s.wf(),
        }
    }

    /// Number of successful draws handed out so far.
    pub open spec fn drawn(self) -> int {
        match self {
            IndexSupplier::Sequential(s) => s.next as int,
            IndexSupplier::Random(s) => s.count as int,
        }
    }

    /// Length of the target list the indices stay below.
    pub open spec fn limit(self) -> int {
        match self {
            IndexSupplier::Sequential(s) => s.limit as int,
            IndexSupplier::Random(s) => s.limit as int,
        }
    }

    /// Total request budget.
    pub open spec fn requests(self) -> int {
        match self {
            IndexSupplier::Sequential(s) => s.requests as int,
            IndexSupplier::Random(s) => s.requests as int,
        }
    }

    pub open spec fn is_sequential(self) -> bool {
        self is Sequential
    }

    /// Draws the next index: `None` exactly once the budget is exhausted;
    /// otherwise an index below the limit, and for the sequential strategy
    /// exactly `drawn % limit`.
    pub fn next_index(&mut self) -> (r: Option<usize>)
        requires
            old(self).wf(),
        ensures
            final(self).wf(),
            final(self).limit() == old(self).limit(),
            final(self).requests() == old(self).requests(),
            final(self).is_sequential() == old(self).is_sequential(),
            old(self).drawn() < old(self).requests() ==> {
                &&& r is Some
                &&& r->0 < old(self).limit()
                &&& final(self).drawn() == old(self).drawn() + 1
                &&& old(self).is_sequential() ==> r == Some(
                    (old(self).drawn() % old(self).limit()) as usize,
                )
            },
            old(self).drawn() >= old(self).requests() ==> {
                &&& r is None
                &&& *final(self) == *old(self)
            },
    {
        match self {
            IndexSupplier::Sequential(s) => s.next_index(),
            IndexSupplier::Random(s) => s.next_index(),
        }
    }
}

/// Creates an index supplier for the nominated request order.
pub fn create_supplier(order: &RequestOrder, index_limit: usize, num_requests: usize) -> (r:
    IndexSupplier)
    requires
        index_limit >= 1,
    ensures
        r.wf(),
        r.drawn() == 0,
        r.limit() == index_limit,
        r.requests() == num_requests,
        r.is_sequential() <==> order == RequestOrder::Sequential,
{
    match order {
        RequestOrder::Sequential => IndexSupplier::Sequential(
            SequentialIndex::new(index_limit, num_requests),
        ),
        RequestOrder::Random => IndexSupplier::Random(RandomIndex::new(index_limit, num_requests)),
    }
}

} // verus!
