//! Kinds of metrics and of the events that update them.

use vstd::prelude::*;

verus! {

/// How a metric is measured.
#[derive(Debug, Copy, Clone, PartialEq, Eq, Structural)]
pub enum MeasureKind {
    Counter,
    Gauge,
}

/// The metrics that are kept for tasks and services.
#[derive(Debug)]
pub enum MetricsKind {
    StartTask,
    FinishTask,
    StartService,
    FinishService,
    SendRequest,
    ReceiveRequest,
    ReceiveError,
    ReceiveStop,
    RunningTask,
    RunningService,
    Custom(String, MeasureKind),
}

/// The name of a kind of metric.
pub open spec fn kind_text(k: MetricsKind) -> Seq<char> {
    match k {
        MetricsKind::StartTask => "start_task"@,
        MetricsKind::FinishTask => "finish_task"@,
        MetricsKind::StartService => "start_service"@,
        MetricsKind::FinishService => "finish_service"@,
        MetricsKind::SendRequest => "send_request"@,
        MetricsKind::ReceiveRequest => "receive_request"@,
        MetricsKind::ReceiveError => "receive_error"@,
        MetricsKind::ReceiveStop => "receive_stop"@,
        MetricsKind::RunningTask => "running_task"@,
        MetricsKind::RunningService => "running_service"@,
        MetricsKind::Custom(v, _) => v@,
    }
}

/// How a kind of metric is measured: running tasks and services are gauges, the others counters.
pub open spec fn measure_of(k: MetricsKind) -> MeasureKind {
    match k {
        MetricsKind::RunningTask => MeasureKind::Gauge,
        MetricsKind::RunningService => MeasureKind::Gauge,
        MetricsKind::Custom(_, m) => m,
        _ => MeasureKind::Counter,
    }
}

impl MetricsKind {
    pub fn as_kind_text(&self) -> (r: &str)
        ensures
            r@ == kind_text(*self),
    {
        match self {
            MetricsKind::StartTask => "start_task",
            MetricsKind::FinishTask => "finish_task",
            MetricsKind::StartService => "start_service",
            MetricsKind::FinishService => "finish_service",
            MetricsKind::SendRequest => "send_request",
            MetricsKind::ReceiveRequest => "receive_request",
            MetricsKind::ReceiveError => "receive_error",
            MetricsKind::ReceiveStop => "receive_stop",
            MetricsKind::RunningTask => "running_task",
            MetricsKind::RunningService => "running_service",
            MetricsKind::Custom(v, _) => v.as_str(),
        }
    }

    pub fn as_measure_kind(&self) -> (r: MeasureKind)
        ensures
            r == measure_of(*self),
    {
        match self {
            MetricsKind::StartTask => MeasureKind::Counter,
            MetricsKind::FinishTask => MeasureKind::Counter,
            MetricsKind::StartService => MeasureKind::Counter,
            MetricsKind::FinishService => MeasureKind::Counter,
            MetricsKind::SendRequest => MeasureKind::Counter,
            MetricsKind::ReceiveRequest => MeasureKind::Counter,
            MetricsKind::ReceiveError => MeasureKind::Counter,
            MetricsKind::ReceiveStop => MeasureKind::Counter,
            MetricsKind::RunningTask => MeasureKind::Gauge,
            MetricsKind::RunningService => MeasureKind::Gauge,
            MetricsKind::Custom(_, v) => *v,
        }
    }
}

impl Clone for MetricsKind {
    fn clone(&self) -> (r: MetricsKind)
        ensures
            r == *self,
    {
        match self {
            MetricsKind::StartTask => MetricsKind::StartTask,
            MetricsKind::FinishTask => MetricsKind::FinishTask,
            MetricsKind::StartService => MetricsKind::StartService,
            MetricsKind::FinishService => MetricsKind::FinishService,
            MetricsKind::SendRequest => MetricsKind::SendRequest,
            MetricsKind::ReceiveRequest => MetricsKind::ReceiveRequest,
            MetricsKind::ReceiveError => MetricsKind::ReceiveError,
            MetricsKind::ReceiveStop => MetricsKind::ReceiveStop,
            MetricsKind::RunningTask => MetricsKind::RunningTask,
            MetricsKind::RunningService => MetricsKind::RunningService,
            MetricsKind::Custom(v, m) => MetricsKind::Custom(v.clone(), *m),
        }
    }
}

/// The events that occur while tasks and services run.
#[derive(Debug)]
pub enum MetricsEventKind {
    StartTask,
    FinishTask,
    StartService,
    FinishService,
    SendRequest,
    ReceiveRequest,
    ReceiveError,
    ReceiveStop,
    ReceiveUpstreamFinish,
    FinishUpstreamFinish,
    FinishUpstreamFinishAll,
    CustomEvent(String),
}

/// The name of an event.
pub open spec fn event_text(e: MetricsEventKind) -> Seq<char> {
    match e {
        MetricsEventKind::StartTask => "start_task"@,
        MetricsEventKind::FinishTask => "finish_task"@,
        MetricsEventKind::StartService => "start_service"@,
        MetricsEventKind::FinishService => "finish_service"@,
        MetricsEventKind::SendRequest => "send_request"@,
        MetricsEventKind::ReceiveRequest => "receive_request"@,
        MetricsEventKind::ReceiveError => "receive_error"@,
        MetricsEventKind::ReceiveStop => "receive_stop"@,
        MetricsEventKind::ReceiveUpstreamFinish => "receive_upstream_finish"@,
        MetricsEventKind::FinishUpstreamFinish => "finish_upstream_finish"@,
        MetricsEventKind::FinishUpstreamFinishAll => "finish_upstream_finish_all"@,
        MetricsEventKind::CustomEvent(e) => e@,
    }
}

/// A change of a metric that an event causes.
#[derive(Debug)]
pub enum MetricsUpdate {
    /// Add one to the counter of the kind.
    IncrementCounter(MetricsKind),
    /// Add one to the gauge of the kind.
    IncrementGauge(MetricsKind),
    /// Subtract one from the gauge of the kind.
    DecrementGauge(MetricsKind),
}

/// The changes of metrics that an event causes, in the order they are applied.
pub open spec fn updates_of(e: MetricsEventKind) -> Seq<MetricsUpdate> {
    match e {
        MetricsEventKind::StartTask => seq![
            MetricsUpdate::IncrementCounter(MetricsKind::StartTask),
            MetricsUpdate::IncrementGauge(MetricsKind::RunningTask),
        ],
        MetricsEventKind::FinishTask => seq![
            MetricsUpdate::IncrementCounter(MetricsKind::FinishTask),
            MetricsUpdate::DecrementGauge(MetricsKind::RunningTask),
        ],
        MetricsEventKind::StartService => seq![
            MetricsUpdate::IncrementCounter(MetricsKind::StartService),
            MetricsUpdate::IncrementGauge(MetricsKind::RunningService),
        ],
        MetricsEventKind::FinishService => seq![
            MetricsUpdate::IncrementCounter(MetricsKind::FinishService),
            MetricsUpdate::DecrementGauge(MetricsKind::RunningService),
        ],
        MetricsEventKind::SendRequest => seq![MetricsUpdate::IncrementCounter(MetricsKind::SendRequest)],
        MetricsEventKind::ReceiveRequest => seq![
            MetricsUpdate::IncrementCounter(MetricsKind::ReceiveRequest),
        ],
        MetricsEventKind::ReceiveError => seq![MetricsUpdate::IncrementCounter(MetricsKind::ReceiveError)],
        MetricsEventKind::ReceiveStop => seq![MetricsUpdate::IncrementCounter(MetricsKind::ReceiveStop)],
        _ => Seq::empty(),
    }
}

impl MetricsEventKind {
    pub fn as_event_text(&self) -> (r: &str)
        ensures
            r@ == event_text(*self),
    {
        match self {
            MetricsEventKind::StartTask => "start_task",
            MetricsEventKind::FinishTask => "finish_task",
            MetricsEventKind::StartService => "start_service",
            MetricsEventKind::FinishService => "finish_service",
            MetricsEventKind::SendRequest => "send_request",
            MetricsEventKind::ReceiveRequest => "receive_request",
            MetricsEventKind::ReceiveError => "receive_error",
            MetricsEventKind::ReceiveStop => "receive_stop",
            MetricsEventKind::ReceiveUpstreamFinish => "receive_upstream_finish",
            MetricsEventKind::FinishUpstreamFinish => "finish_upstream_finish",
            MetricsEventKind::FinishUpstreamFinishAll => "finish_upstream_finish_all",
            MetricsEventKind::CustomEvent(e) => e.as_str(),
        }
    }

    /// The changes of metrics that this event causes; the caller applies them to the
    /// metrics registry in this order.
    pub fn metrics_updates(&self) -> (r: Vec<MetricsUpdate>)
        ensures
            r@ == updates_of(*self),
    {
        let mut r: Vec<MetricsUpdate> = Vec::new();
        match self {
            MetricsEventKind::StartTask => {
                r.push(MetricsUpdate::IncrementCounter(MetricsKind::StartTask));
                r.push(MetricsUpdate::IncrementGauge(MetricsKind::RunningTask));
            },
            MetricsEventKind::FinishTask => {
                r.push(MetricsUpdate::IncrementCounter(MetricsKind::FinishTask));
                r.push(MetricsUpdate::DecrementGauge(MetricsKind::RunningTask));
            },
            MetricsEventKind::StartService => {
                r.push(MetricsUpdate::IncrementCounter(MetricsKind::StartService));
                r.push(MetricsUpdate::IncrementGauge(MetricsKind::RunningService));
            },
            MetricsEventKind::FinishService => {
                r.push(MetricsUpdate::IncrementCounter(MetricsKind::FinishService));
                r.push(MetricsUpdate::DecrementGauge(MetricsKind::RunningService));
            },
            MetricsEventKind::SendRequest => {
                r.push(MetricsUpdate::IncrementCounter(MetricsKind::SendRequest));
            },
            MetricsEventKind::ReceiveRequest => {
                r.push(MetricsUpdate::IncrementCounter(MetricsKind::ReceiveRequest));
            },
            MetricsEventKind::ReceiveError => {
                r.push(MetricsUpdate::IncrementCounter(MetricsKind::ReceiveError));
            },
            MetricsEventKind::ReceiveStop => {
                r.push(MetricsUpdate::IncrementCounter(MetricsKind::ReceiveStop));
            },
            _ => {},
        }
        proof {
            assert(r@ =~= updates_of(*self));
        }
        r
    }
}

impl Clone for MetricsEventKind {
    fn clone(&self) -> (r: MetricsEventKind)
        ensures
            r == *self,
    {
        match self {
            MetricsEventKind::StartTask => MetricsEventKind::StartTask,
            MetricsEventKind::FinishTask => MetricsEventKind::FinishTask,
            MetricsEventKind::StartService => MetricsEventKind::StartService,
            MetricsEventKind::FinishService => MetricsEventKind::FinishService,
            MetricsEventKind::SendRequest => MetricsEventKind::SendRequest,
            MetricsEventKind::ReceiveRequest => MetricsEventKind::ReceiveRequest,
            MetricsEventKind::ReceiveError => MetricsEventKind::ReceiveError,
            MetricsEventKind::ReceiveStop => MetricsEventKind::ReceiveStop,
            MetricsEventKind::ReceiveUpstreamFinish => MetricsEventKind::ReceiveUpstreamFinish,
            MetricsEventKind::FinishUpstreamFinish => MetricsEventKind::FinishUpstreamFinish,
            MetricsEventKind::FinishUpstreamFinishAll => MetricsEventKind::FinishUpstreamFinishAll,
            MetricsEventKind::CustomEvent(e) => MetricsEventKind::CustomEvent(e.clone()),
        }
    }
}


/// How much one update changes the gauge of `k`.
pub open spec fn gauge_step(u: MetricsUpdate, k: MetricsKind) -> int {
    match u {
        MetricsUpdate::IncrementGauge(g) => if g == k {
            1int
        } else {
            0int
        },
        MetricsUpdate::DecrementGauge(g) => if g == k {
            -1int
        } else {
            0int
        },
        _ => 0int,
    }
}

/// How many times one update increments the counter of `k`.
pub open spec fn counter_step(u: MetricsUpdate, k: MetricsKind) -> int {
    match u {
        MetricsUpdate::IncrementCounter(c) => if c == k {
            1int
        } else {
            0int
        },
        _ => 0int,
    }
}

/// How much a list of updates changes the gauge of `k`: one up for each increment of it, one
/// down for each decrement.
pub open spec fn gauge_change(us: Seq<MetricsUpdate>, k: MetricsKind) -> int
    decreases us.len(),
{
    if us.len() == 0 {
        0
    } else {
        gauge_change(us.drop_last(), k) + gauge_step(us.last(), k)
    }
}

/// How many times a list of updates increments the counter of `k`.
pub open spec fn counter_change(us: Seq<MetricsUpdate>, k: MetricsKind) -> int
    decreases us.len(),
{
    if us.len() == 0 {
        0
    } else {
        counter_change(us.drop_last(), k) + counter_step(us.last(), k)
    }
}

proof fn lemma_short_changes(u: Seq<MetricsUpdate>, k: MetricsKind)
    requires
        u.len() <= 4,
    ensures
        u.len() == 0 ==> gauge_change(u, k) == 0 && counter_change(u, k) == 0,
        u.len() == 1 ==> gauge_change(u, k) == gauge_step(u[0], k) && counter_change(u, k)
            == counter_step(u[0], k),
        u.len() == 2 ==> gauge_change(u, k) == gauge_step(u[0], k) + gauge_step(u[1], k)
            && counter_change(u, k) == counter_step(u[0], k) + counter_step(u[1], k),
        u.len() == 3 ==> gauge_change(u, k) == gauge_step(u[0], k) + gauge_step(u[1], k)
            + gauge_step(u[2], k),
        u.len() == 4 ==> gauge_change(u, k) == gauge_step(u[0], k) + gauge_step(u[1], k)
            + gauge_step(u[2], k) + gauge_step(u[3], k),
    decreases u.len(),
{
    if u.len() > 0 {
        lemma_short_changes(u.drop_last(), k);
        if u.len() >= 2 {
            assert(u.drop_last()[0] == u[0]);
        }
        if u.len() >= 3 {
            assert(u.drop_last()[1] == u[1]);
        }
        if u.len() == 4 {
            assert(u.drop_last()[2] == u[2]);
        }
    }
}

/// The running gauges count what runs: the start of a task raises the running-task gauge by
/// one and its finish lowers it by one, and likewise for services; no other event moves
/// either gauge. So starting and then finishing a task (or a service) leaves its gauge as it
/// was.
pub proof fn law_running_gauges(e: MetricsEventKind)
    ensures
        gauge_change(updates_of(e), MetricsKind::RunningTask) == match e {
            MetricsEventKind::StartTask => 1int,
            MetricsEventKind::FinishTask => -1int,
            _ => 0int,
        },
        gauge_change(updates_of(e), MetricsKind::RunningService) == match e {
            MetricsEventKind::StartService => 1int,
            MetricsEventKind::FinishService => -1int,
            _ => 0int,
        },
        gauge_change(
            updates_of(MetricsEventKind::StartTask) + updates_of(MetricsEventKind::FinishTask),
            MetricsKind::RunningTask,
        ) == 0,
        gauge_change(
            updates_of(MetricsEventKind::StartService) + updates_of(MetricsEventKind::FinishService),
            MetricsKind::RunningService,
        ) == 0,
{
    lemma_short_changes(updates_of(e), MetricsKind::RunningTask);
    lemma_short_changes(updates_of(e), MetricsKind::RunningService);
    let a = updates_of(MetricsEventKind::StartTask) + updates_of(MetricsEventKind::FinishTask);
    lemma_short_changes(a, MetricsKind::RunningTask);
    let b = updates_of(MetricsEventKind::StartService) + updates_of(MetricsEventKind::FinishService);
    lemma_short_changes(b, MetricsKind::RunningService);
}

/// Every event of a task, a service or a request counts itself once in the counter of its
/// name, and in no other counter.
pub proof fn law_events_count_themselves(e: MetricsEventKind, k: MetricsKind)
    ensures
        counter_change(updates_of(e), k) == match (e, k) {
            (MetricsEventKind::StartTask, MetricsKind::StartTask) => 1int,
            (MetricsEventKind::FinishTask, MetricsKind::FinishTask) => 1int,
            (MetricsEventKind::StartService, MetricsKind::StartService) => 1int,
            (MetricsEventKind::FinishService, MetricsKind::FinishService) => 1int,
            (MetricsEventKind::SendRequest, MetricsKind::SendRequest) => 1int,
            (MetricsEventKind::ReceiveRequest, MetricsKind::ReceiveRequest) => 1int,
            (MetricsEventKind::ReceiveError, MetricsKind::ReceiveError) => 1int,
            (MetricsEventKind::ReceiveStop, MetricsKind::ReceiveStop) => 1int,
            _ => 0int,
        },
{
    lemma_short_changes(updates_of(e), k);
}

} // verus!
