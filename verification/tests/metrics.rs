use toy_core::metrics::kind::{MeasureKind, MetricsKind};
use toy_core::metrics::registry::MetricsRegistry;
use toy_core::metrics::{Counter, MetricsEventKind};

#[test]
fn registry_counter_starts_at_zero() {
    let mut reg = MetricsRegistry::new();
    reg.counter(&MetricsKind::StartTask).increment();
    let counters = reg.get_counters();
    assert_eq!(counters.len(), 1);
    assert_eq!(counters[0].1.get(), Some(1));
    reg.counter(&MetricsKind::StartTask).increment_by(4);
    assert_eq!(reg.get_counters()[0].1.get(), Some(5));
    reg.counter(&MetricsKind::Custom("x".to_string(), MeasureKind::Counter))
        .increment();
    assert_eq!(reg.get_counters().len(), 2);
    reg.clear();
    assert_eq!(reg.get_counters().len(), 0);
}

#[test]
fn registry_gauge_starts_at_zero() {
    let mut reg = MetricsRegistry::new();
    let g = reg.gauge(&MetricsKind::RunningTask);
    assert_eq!(g.get_bits(), Some(0f64.to_bits()));
    g.set_bits(1.5f64.to_bits());
    assert_eq!(reg.get_gauges()[0].1.get_bits(), Some(1.5f64.to_bits()));
}

#[test]
fn counter_operations() {
    let mut c = Counter::from(u64::MAX);
    c.increment();
    assert_eq!(c.get(), Some(0));
    c.absolute(7);
    assert_eq!(c.get(), Some(7));
    c.absolute(3);
    assert_eq!(c.get(), Some(7));
    let mut n = Counter::noop();
    n.increment();
    assert_eq!(n.get(), None);
}

#[test]
fn kinds_and_events() {
    assert_eq!(MetricsKind::RunningTask.as_kind_text(), "running_task");
    assert_eq!(MetricsKind::RunningTask.as_measure_kind(), MeasureKind::Gauge);
    assert_eq!(MetricsEventKind::StartTask.as_event_text(), "start_task");
    assert_eq!(MetricsEventKind::StartTask.metrics_updates().len(), 2);
    assert_eq!(MetricsEventKind::ReceiveUpstreamFinish.metrics_updates().len(), 0);
}

#[test]
fn metrics_counter() {
    let mut reg = MetricsRegistry::new();
    reg.counter(&MetricsKind::StartTask).increment();
    let counters = reg.get_counters();
    assert_eq!(counters.len(), 1);
    let found = counters
        .iter()
        .find(|(k, _)| matches!(k, MetricsKind::StartTask))
        .map(|(_, c)| c.get());
    assert_eq!(found, Some(Some(1)));
}

#[test]
fn metrics_gauge() {
    let mut reg = MetricsRegistry::new();
    let g = reg.gauge(&MetricsKind::StartTask);
    if let Some(bits) = g.get_bits() {
        g.set_bits((f64::from_bits(bits) + 1.1).to_bits());
    }
    let gauges = reg.get_gauges();
    assert_eq!(gauges.len(), 1);
    let found = gauges
        .iter()
        .find(|(k, _)| matches!(k, MetricsKind::StartTask))
        .map(|(_, g)| g.get_bits().map(f64::from_bits));
    assert_eq!(found, Some(Some(1.1)));
}
