//! The channels of a flow: services run one after another, each reading the channel that the
//! previous one writes.

use vstd::prelude::*;

verus! {

/// How many services at positions `i` and after were found.
pub open spec fn found_from(found: Seq<bool>, i: int) -> nat
    decreases found.len() - i,
{
    if i >= found.len() || i < 0 {
        0
    } else {
        found_from(found, i + 1) + if found[i] {
            1nat
        } else {
            0nat
        }
    }
}

/// The channels that service `i` reads and writes, where it was found: for `n` services the
/// flow has channels `0` to `n`; the found services, from the last one backwards, take the
/// pairs `(n - 1, n)`, `(n - 2, n - 1)`, ... Channel `0` receives the first request and
/// channel `n` is drained at the end.
pub open spec fn planned(found: Seq<bool>, i: int) -> Option<(usize, usize)> {
    if found[i] {
        let w = found.len() - found_from(found, i + 1);
        Some(((w - 1) as usize, w as usize))
    } else {
        None
    }
}

proof fn lemma_found_from_bound(found: Seq<bool>, i: int)
    requires
        0 <= i <= found.len(),
    ensures
        found_from(found, i) <= found.len() - i,
    decreases found.len() - i,
{
    if i < found.len() {
        lemma_found_from_bound(found, i + 1);
    }
}

/// The channels of each service of a flow, given which services the registry knows: `None`
/// for a service it does not know (that service is skipped), else the channel it reads and the
/// channel it writes. No service gives an empty plan.
pub fn flow_plan(found: &Vec<bool>) -> (r: Vec<Option<(usize, usize)>>)
    ensures
        r@.len() == found@.len(),
        forall|i: int| 0 <= i < found@.len() ==> #[trigger] r@[i] == planned(found@, i),
{
    let n = found.len();
    let mut r: Vec<Option<(usize, usize)>> = Vec::new();
    let mut k: usize = 0;
    while k < n
        invariant
            n == found@.len(),
            k <= n,
            r@.len() == k,
            forall|j: int| 0 <= j < k ==> #[trigger] r@[j] is None,
        decreases n - k,
    {
        r.push(None);
        k = k + 1;
    }
    let mut next_write: usize = n;
    let mut i: usize = n;
    while i > 0
        invariant
            n == found@.len(),
            i <= n,
            r@.len() == n,
            next_write == n - found_from(found@, i as int),
            forall|j: int| 0 <= j < i ==> #[trigger] r@[j] is None,
            forall|j: int| i <= j < n ==> #[trigger] r@[j] == planned(found@, j),
        decreases i,
    {
        i = i - 1;
        proof {
            lemma_found_from_bound(found@, i + 1);
        }
        if found[i] {
            r.set(i, Some((next_write - 1, next_write)));
            next_write = next_write - 1;
        }
    }
    r
}

proof fn lemma_all_found(found: Seq<bool>, i: int)
    requires
        0 <= i <= found.len(),
        forall|j: int| 0 <= j < found.len() ==> found[j],
    ensures
        found_from(found, i) == found.len() - i,
    decreases found.len() - i,
{
    if i < found.len() {
        lemma_all_found(found, i + 1);
    }
}

/// Where the registry knows every service, service `i` reads channel `i` and writes channel
/// `i + 1`: each service reads what the one before it wrote.
pub proof fn law_flow_chains_services(found: Seq<bool>, i: int)
    requires
        found.len() <= usize::MAX,
        forall|j: int| 0 <= j < found.len() ==> found[j],
        0 <= i < found.len(),
    ensures
        planned(found, i) == Some((i as usize, (i + 1) as usize)),
{
    lemma_all_found(found, i + 1);
}


/// What a running service of a flow is told.
#[derive(Debug, Clone, Copy, PartialEq, Eq, Structural)]
pub enum ServiceEvent {
    /// A request arrived on the channel it reads.
    Received,
    /// An error arrived on the channel it reads.
    ReceiveFailed,
    /// Every sender of the channel it reads has gone.
    Closed,
    /// Handling a request failed.
    HandleFailed,
    /// Forwarding an error to the next service failed.
    ForwardFailed,
}

/// What a running service of a flow does next.
#[derive(Debug, Clone, Copy, PartialEq, Eq, Structural)]
pub enum ServiceAction {
    /// Handle the request (the service hands its context back), then wait for the next one.
    Handle,
    /// Send the error on to the channel it writes, then wait for the next message.
    ForwardError,
    /// End without error.
    Finish,
    /// End with the error that occurred.
    Fail,
}

/// The decision of a running service on one event: a request is handled, an error that
/// arrives is forwarded, the end of its input ends it, and a failure of its own ends it with
/// that failure.
pub fn service_step(e: ServiceEvent) -> (a: ServiceAction)
    ensures
        a == match e {
            ServiceEvent::Received => ServiceAction::Handle,
            ServiceEvent::ReceiveFailed => ServiceAction::ForwardError,
            ServiceEvent::Closed => ServiceAction::Finish,
            ServiceEvent::HandleFailed => ServiceAction::Fail,
            ServiceEvent::ForwardFailed => ServiceAction::Fail,
        },
{
    match e {
        ServiceEvent::Received => ServiceAction::Handle,
        ServiceEvent::ReceiveFailed => ServiceAction::ForwardError,
        ServiceEvent::Closed => ServiceAction::Finish,
        ServiceEvent::HandleFailed => ServiceAction::Fail,
        ServiceEvent::ForwardFailed => ServiceAction::Fail,
    }
}

} // verus!
