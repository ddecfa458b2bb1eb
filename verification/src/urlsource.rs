//! An earlier generation of the target selection: iterator-style sources
//! that hand out the URLs themselves rather than bare indices.

use vstd::prelude::*;

use crate::config::{Config, RequestOrder};
use crate::draw::rand_below;

verus! {

/// Hands out uniformly drawn positions below `limit`, with replacement,
/// until `requests` draws have succeeded.
pub struct RandomIter {
    /// Number of draws handed out so far.
    pub count: usize,
    /// Length of the URL list; positions stay below it.
    pub limit: usize,
    /// Total request budget.
    pub requests: usize,
}

impl RandomIter {
    /// An iterator is only built over a non-empty URL list.
    pub open spec fn wf(self) -> bool {
        &&& self.limit >= 1
        &&& self.count <= self.requests
    }

    pub fn new(limit: usize, requests: usize) -> (r: RandomIter)
        requires
            limit >= 1,
        ensures
            r.wf(),
            r.count == 0,
            r.limit == limit,
            r.requests == requests,
    {
        RandomIter { count: 0, limit, requests }
    }

    /// A fresh uniformly drawn position, or `None` once `requests` draws
    /// have succeeded.
    pub fn next_pos(&mut self) -> (r: Option<usize>)
        requires
            old(self).wf(),
        ensures
            final(self).wf(),
            final(self).limit == old(self).limit,
            final(self).requests == old(self).requests,
            old(self).count < old(self).requests ==> {
                &&& r is Some
                &&& r->0 < old(self).limit
                &&& final(self).count == old(self).count + 1
            },
            old(self).count >= old(self).requests ==> {
                &&& r is None
                &&& *final(self) == *old(self)
            },
    {
        if self.count < self.requests {
            self.count = self.count + 1;
            let drawn = rand_below(self.limit as u64);
            Some(drawn as usize)
        } else {
            None
        }
    }
}

/// Hands out positions in strict round-robin order, wrapping back to zero
/// when the URL list is shorter than the request budget.
pub struct SequentialIter {
    /// Number of draws handed out so far.
    pub next: usize,
    /// Length of the URL list; positions stay below it.
    pub limit: usize,
    /// Total request budget.
    pub requests: usize,
}

impl SequentialIter {
    /// An iterator is only built over a non-empty URL list.
    pub open spec fn wf(self) -> bool {
        &&& self.limit >= 1
        &&& self.next <= self.requests
    }

    pub fn new(limit: usize, requests: usize) -> (r: SequentialIter)
        requires
            limit >= 1,
        ensures
            r.wf(),
            r.next == 0,
            r.limit == limit,
            r.requests == requests,
    {
        SequentialIter { next: 0, limit, requests }
    }

    /// The position handed out at draw `n` (counting from zero) is exactly
    /// `n % limit`; `None` once `requests` draws have succeeded.
    pub fn next_pos(&mut self) -> (r: Option<usize>)
        requires
            old(self).wf(),
        ensures
            final(self).wf(),
            final(self).limit == old(self).limit,
            final(self).requests == old(self).requests,
            old(self).next < old(self).requests ==> {
                &&& r == Some((old(self).next as int % old(self).limit as int) as usize)
                &&& final(self).next == old(self).next + 1
            },
            old(self).next >= old(self).requests ==> {
                &&& r is None
                &&& *final(self) == *old(self)
            },
    {
        if self.next < self.requests {
            let index = self.next % self.limit;
            self.next = self.next + 1;
            Some(index)
        } else {
            None
        }
    }
}

/// The position source a `UrlSource` draws from, resolved once.
pub enum PositionIter {
    Sequential(SequentialIter),
    Random(RandomIter),
}

impl PositionIter {
    pub open spec fn wf(self) -> bool {
        match self {
            PositionIter::Sequential(s) => s.wf(),
            PositionIter::Random(s) => s.wf(),
        }
    }

    pub open spec fn drawn(self) -> int {
        match self {
            PositionIter::Sequential(s) => s.next as int,
            PositionIter::Random(s) => s.count as int,
        }
    }

    pub open spec fn limit(self) -> int {
        match self {
            PositionIter::Sequential(s) => s.limit as int,
            PositionIter::Random(s) => s.limit as int,
        }
    }

    pub open spec fn requests(self) -> int {
        match self {
            PositionIter::Sequential(s) => s.requests as int,
            PositionIter::Random(s) => s.requests as int,
        }
    }

    pub open spec fn is_sequential(self) -> bool {
        self is Sequential
    }

    /// Draws the next position: below the limit while the budget lasts —
    /// the round-robin position for the sequential order — and `None`
    /// afterwards.
    pub fn next_pos(&mut self) -> (r: Option<usize>)
        requires
            old(self).wf(),
        ensures
            final(self).wf(),
            final(self).limit() == old(self).limit(),
            final(self).requests() == old(self).requests(),
            final(self).is_sequential() == old(self).is_sequential(),
            old(self).drawn() < old(self).requests() ==> {
                &&& r is Some
                &&& r->0 < old(self).limit()
                &&& final(self).drawn() == old(self).drawn() + 1
                &&& old(self).is_sequential() ==> r == Some(
                    (old(self).drawn() % old(self).limit()) as usize,
                )
            },
            old(self).drawn() >= old(self).requests() ==> {
                &&& r is None
                &&& *final(self) == *old(self)
            },
    {
        match self {
            PositionIter::Sequential(s) => s.next_pos(),
            PositionIter::Random(s) => s.next_pos(),
        }
    }
}

/// Hands out the URLs of the run, one per draw, in the configured order.
pub struct UrlSource<'a> {
    pub urls: &'a Vec<String>,
    pub index_iter: PositionIter,
}

impl<'a> UrlSource<'a> {
    pub open spec fn wf(self) -> bool {
        &&& self.index_iter.wf()
        &&& self.index_iter.limit() == self.urls@.len()
    }

    /// The next URL of the run: a member of the list while the budget
    /// lasts — the round-robin entry for the sequential order — and `None`
    /// afterwards.
    pub fn next(&mut self) -> (r: Option<&'a str>)
        requires
            old(self).wf(),
        ensures
            final(self).wf(),
            final(self).urls == old(self).urls,
            final(self).index_iter.requests() == old(self).index_iter.requests(),
            final(self).index_iter.is_sequential() == old(self).index_iter.is_sequential(),
            old(self).index_iter.drawn() < old(self).index_iter.requests() ==> {
                &&& r is Some
                &&& final(self).index_iter.drawn() == old(self).index_iter.drawn() + 1
                &&& exists|i: int|
                    0 <= i < old(self).urls@.len() && r->0@ == #[trigger] old(self).urls@[i]@
                &&& old(self).index_iter.is_sequential() ==> r->0@ == old(self).urls@[old(
                    self,
                ).index_iter.drawn() % old(self).urls@.len() as int]@
            },
            old(self).index_iter.drawn() >= old(self).index_iter.requests() ==> {
                &&& r is None
                &&& *final(self) == *old(self)
            },
    {
        match self.index_iter.next_pos() {
            None => None,
            Some(i) => {
                let urls: &'a Vec<String> = self.urls;
                Some(urls[i].as_str())
            },
        }
    }
}

/// Creates a URL source over the configuration's URL list, in the
/// configured order, bounded by the configured request count.
pub fn url_source<'a>(config: &'a Config) -> (r: UrlSource<'a>)
    requires
        config.urls@.len() >= 1,
    ensures
        r.wf(),
        r.urls == &config.urls,
        r.index_iter.drawn() == 0,
        r.index_iter.requests() == config.requests,
        r.index_iter.is_sequential() <==> config.order == RequestOrder::Sequential,
{
    let limit = config.urls.len();
    let requests = config.requests;
    let index_iter = match config.order {
        RequestOrder::Sequential => PositionIter::Sequential(SequentialIter::new(limit, requests)),
        RequestOrder::Random => PositionIter::Random(RandomIter::new(limit, requests)),
    };
    UrlSource { urls: &config.urls, index_iter }
}

} // verus!
