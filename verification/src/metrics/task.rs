//! Counters of a task.

use crate::metrics::measure::Counter;
use vstd::prelude::*;

verus! {

/// Metrics for task.
#[derive(Debug, Clone, Copy)]
pub struct TaskMetrics {
    service_start_count: Counter,
    service_finish_count: Counter,
    request_send_count: Counter,
    request_receive_count: Counter,
    request_complete_count: Counter,
}

/// One more, wrapping around at the end of the range of `u64`.
pub open spec fn inc(v: Option<u64>) -> Option<u64> {
    match v {
        Some(c) => Some(if c == u64::MAX { 0 } else { (c + 1) as u64 }),
        None => None,
    }
}

impl TaskMetrics {
    /// The counts of started services, finished services, sent, received and completed requests.
    pub closed spec fn counts(&self) -> (
        Option<u64>,
        Option<u64>,
        Option<u64>,
        Option<u64>,
        Option<u64>,
    ) {
        (
            self.service_start_count.spec_value(),
            self.service_finish_count.spec_value(),
            self.request_send_count.spec_value(),
            self.request_receive_count.spec_value(),
            self.request_complete_count.spec_value(),
        )
    }

    pub fn new() -> (m: TaskMetrics)
        ensures
            m.counts() == (Some(0u64), Some(0u64), Some(0u64), Some(0u64), Some(0u64)),
    {
        TaskMetrics {
            service_start_count: Counter::from(0),
            service_finish_count: Counter::from(0),
            request_send_count: Counter::from(0),
            request_receive_count: Counter::from(0),
            request_complete_count: Counter::from(0),
        }
    }

    pub fn inc_service_start_count(&mut self)
        ensures
            final(self).counts() == (
                inc(old(self).counts().0),
                old(self).counts().1,
                old(self).counts().2,
                old(self).counts().3,
                old(self).counts().4,
            ),
    {
        self.service_start_count.increment()
    }

    pub fn inc_service_finish_count(&mut self)
        ensures
            final(self).counts() == (
                old(self).counts().0,
                inc(old(self).counts().1),
                old(self).counts().2,
                old(self).counts().3,
                old(self).counts().4,
            ),
    {
        self.service_finish_count.increment()
    }

    pub fn inc_request_send_count(&mut self)
        ensures
            final(self).counts() == (
                old(self).counts().0,
                old(self).counts().1,
                inc(old(self).counts().2),
                old(self).counts().3,
                old(self).counts().4,
            ),
    {
        self.request_send_count.increment()
    }

    pub fn inc_request_receive_count(&mut self)
        ensures
            final(self).counts() == (
                old(self).counts().0,
                old(self).counts().1,
                old(self).counts().2,
                inc(old(self).counts().3),
                old(self).counts().4,
            ),
    {
        self.request_receive_count.increment()
    }

    pub fn inc_request_complete_count(&mut self)
        ensures
            final(self).counts() == (
                old(self).counts().0,
                old(self).counts().1,
                old(self).counts().2,
                old(self).counts().3,
                inc(old(self).counts().4),
            ),
    {
        self.request_complete_count.increment()
    }

    /// The counters, in the order of `counts`.
    pub fn counters(&self) -> (r: (Counter, Counter, Counter, Counter, Counter))
        ensures
            (r.0.spec_value(), r.1.spec_value(), r.2.spec_value(), r.3.spec_value(), r.4.spec_value())
                == self.counts(),
    {
        (
            self.service_start_count,
            self.service_finish_count,
            self.request_send_count,
            self.request_receive_count,
            self.request_complete_count,
        )
    }
}

} // verus!
