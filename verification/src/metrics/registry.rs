//! The counters and gauges kept per kind of metric.

use crate::metrics::kind::{MeasureKind, MetricsKind};
use crate::metrics::measure::{Counter, Gauge};
use vstd::prelude::*;

verus! {

/// What tells kinds of metrics apart: the variant, and for a custom kind its name and measure.
pub open spec fn kind_key(k: MetricsKind) -> (int, Seq<char>, MeasureKind) {
    match k {
        MetricsKind::StartTask => (0, Seq::empty(), MeasureKind::Counter),
        MetricsKind::FinishTask => (1, Seq::empty(), MeasureKind::Counter),
        MetricsKind::StartService => (2, Seq::empty(), MeasureKind::Counter),
        MetricsKind::FinishService => (3, Seq::empty(), MeasureKind::Counter),
        MetricsKind::SendRequest => (4, Seq::empty(), MeasureKind::Counter),
        MetricsKind::ReceiveRequest => (5, Seq::empty(), MeasureKind::Counter),
        MetricsKind::ReceiveError => (6, Seq::empty(), MeasureKind::Counter),
        MetricsKind::ReceiveStop => (7, Seq::empty(), MeasureKind::Counter),
        MetricsKind::RunningTask => (8, Seq::empty(), MeasureKind::Gauge),
        MetricsKind::RunningService => (9, Seq::empty(), MeasureKind::Gauge),
        MetricsKind::Custom(s, m) => (10, s@, m),
    }
}

/// Both are the same kind of metric.
pub fn same_kind(a: &MetricsKind, b: &MetricsKind) -> (r: bool)
    ensures
        r == (kind_key(*a) == kind_key(*b)),
{
    match (a, b) {
        (MetricsKind::StartTask, MetricsKind::StartTask) => true,
        (MetricsKind::FinishTask, MetricsKind::FinishTask) => true,
        (MetricsKind::StartService, MetricsKind::StartService) => true,
        (MetricsKind::FinishService, MetricsKind::FinishService) => true,
        (MetricsKind::SendRequest, MetricsKind::SendRequest) => true,
        (MetricsKind::ReceiveRequest, MetricsKind::ReceiveRequest) => true,
        (MetricsKind::ReceiveError, MetricsKind::ReceiveError) => true,
        (MetricsKind::ReceiveStop, MetricsKind::ReceiveStop) => true,
        (MetricsKind::RunningTask, MetricsKind::RunningTask) => true,
        (MetricsKind::RunningService, MetricsKind::RunningService) => true,
        (MetricsKind::Custom(s, m), MetricsKind::Custom(t, n)) => *s == *t && *m == *n,
        _ => false,
    }
}

/// Position of the first entry whose key is `k`, or `-1`.
pub open spec fn index_of<K, V>(m: Seq<(K, V)>, k: K) -> int
    decreases m.len(),
{
    if m.len() == 0 {
        -1
    } else {
        let j = index_of(m.drop_last(), k);
        if j >= 0 {
            j
        } else if m.last().0 == k {
            m.len() - 1
        } else {
            -1
        }
    }
}

pub proof fn lemma_index_of<K, V>(m: Seq<(K, V)>, k: K)
    ensures
        -1 <= index_of(m, k) < m.len(),
        index_of(m, k) >= 0 ==> m[index_of(m, k)].0 == k,
        index_of(m, k) >= 0 ==> forall|j: int| 0 <= j < index_of(m, k) ==> m[j].0 != k,
        index_of(m, k) == -1 ==> forall|j: int| 0 <= j < m.len() ==> m[j].0 != k,
    decreases m.len(),
{
    if m.len() > 0 {
        lemma_index_of(m.drop_last(), k);
        assert forall|j: int| 0 <= j < m.len() - 1 implies m.drop_last()[j] == #[trigger] m[j] by {}
    }
}

/// The value under `k`, if any.
pub open spec fn value_of<K, V>(m: Seq<(K, V)>, k: K) -> Option<V> {
    if index_of(m, k) >= 0 {
        Some(m[index_of(m, k)].1)
    } else {
        None
    }
}

/// The counters and gauges of the metrics, one per kind, in the order of their creation.
#[derive(Debug)]
pub struct MetricsRegistry {
    counters: Vec<(MetricsKind, Counter)>,
    gauges: Vec<(MetricsKind, Gauge)>,
}

/// A list of counters by the keys of their kinds and their values.
pub open spec fn counters_view(s: Seq<(MetricsKind, Counter)>) -> Seq<
    ((int, Seq<char>, MeasureKind), Option<u64>),
> {
    Seq::new(s.len(), |i: int| (kind_key(s[i].0), s[i].1.spec_value()))
}

/// A list of gauges by the keys of their kinds and the encodings of their numbers.
pub open spec fn gauges_view(s: Seq<(MetricsKind, Gauge)>) -> Seq<
    ((int, Seq<char>, MeasureKind), Option<u64>),
> {
    Seq::new(s.len(), |i: int| (kind_key(s[i].0), s[i].1.spec_bits()))
}

proof fn lemma_counters_update(s: Seq<(MetricsKind, Counter)>, i: int, e: (MetricsKind, Counter))
    requires
        0 <= i < s.len(),
    ensures
        counters_view(s.update(i, e)) == counters_view(s).update(i, (kind_key(e.0), e.1.spec_value())),
{
    assert(counters_view(s.update(i, e)) =~= counters_view(s).update(
        i,
        (kind_key(e.0), e.1.spec_value()),
    ));
}

proof fn lemma_gauges_update(s: Seq<(MetricsKind, Gauge)>, i: int, e: (MetricsKind, Gauge))
    requires
        0 <= i < s.len(),
    ensures
        gauges_view(s.update(i, e)) == gauges_view(s).update(i, (kind_key(e.0), e.1.spec_bits())),
{
    assert(gauges_view(s.update(i, e)) =~= gauges_view(s).update(i, (kind_key(e.0), e.1.spec_bits())));
}

impl MetricsRegistry {
    pub closed spec fn spec_counters(&self) -> Seq<((int, Seq<char>, MeasureKind), Option<u64>)> {
        counters_view(self.counters@)
    }

    pub closed spec fn spec_gauges(&self) -> Seq<((int, Seq<char>, MeasureKind), Option<u64>)> {
        gauges_view(self.gauges@)
    }

    pub fn new() -> (r: MetricsRegistry)
        ensures
            r.spec_counters().len() == 0,
            r.spec_gauges().len() == 0,
    {
        MetricsRegistry { counters: Vec::new(), gauges: Vec::new() }
    }

    fn find_counter(&self, k: &MetricsKind) -> (r: Option<usize>)
        ensures
            match r {
                Some(i) => index_of(self.spec_counters(), kind_key(*k)) == i,
                None => index_of(self.spec_counters(), kind_key(*k)) == -1,
            },
    {
        let ghost m = self.spec_counters();
        let n = self.counters.len();
        let mut i: usize = 0;
        while i < n
            invariant
                n == self.counters@.len(),
                m == counters_view(self.counters@),
                i <= n,
                forall|j: int| 0 <= j < i ==> m[j].0 != kind_key(*k),
            decreases n - i,
        {
            if same_kind(&self.counters[i].0, k) {
                proof {
                    lemma_index_of(m, kind_key(*k));
                    assert(m[i as int].0 == kind_key(*k));
                }
                return Some(i);
            }
            i = i + 1;
        }
        proof {
            lemma_index_of(m, kind_key(*k));
        }
        None
    }

    fn find_gauge(&self, k: &MetricsKind) -> (r: Option<usize>)
        ensures
            match r {
                Some(i) => index_of(self.spec_gauges(), kind_key(*k)) == i,
                None => index_of(self.spec_gauges(), kind_key(*k)) == -1,
            },
    {
        let ghost m = self.spec_gauges();
        let n = self.gauges.len();
        let mut i: usize = 0;
        while i < n
            invariant
                n == self.gauges@.len(),
                m == gauges_view(self.gauges@),
                i <= n,
                forall|j: int| 0 <= j < i ==> m[j].0 != kind_key(*k),
            decreases n - i,
        {
            if same_kind(&self.gauges[i].0, k) {
                proof {
                    lemma_index_of(m, kind_key(*k));
                    assert(m[i as int].0 == kind_key(*k));
                }
                return Some(i);
            }
            i = i + 1;
        }
        proof {
            lemma_index_of(m, kind_key(*k));
        }
        None
    }

    /// The counter of `k`; a counter at zero is created for a kind that has none yet.
    pub fn counter(&mut self, k: &MetricsKind) -> (r: &mut Counter)
        ensures
            r.spec_value() == match value_of(old(self).spec_counters(), kind_key(*k)) {
                Some(v) => v,
                None => Some(0u64),
            },
            final(self).spec_counters() == if index_of(old(self).spec_counters(), kind_key(*k))
                >= 0 {
                old(self).spec_counters().update(
                    index_of(old(self).spec_counters(), kind_key(*k)),
                    (kind_key(*k), final(r).spec_value()),
                )
            } else {
                old(self).spec_counters().push((kind_key(*k), final(r).spec_value()))
            },
            final(self).spec_gauges() == old(self).spec_gauges(),
    {
        let ghost m = self.spec_counters();
        proof {
            lemma_index_of(m, kind_key(*k));
        }
        let i = match self.find_counter(k) {
            Some(i) => i,
            None => {
                self.counters.push((k.clone(), Counter::from(0)));
                proof {
                    assert(counters_view(self.counters@) =~= m.push((kind_key(*k), Some(0u64))));
                }
                self.counters.len() - 1
            },
        };
        let ghost before = self.counters@;
        let e = &mut self.counters[i];
        let r = &mut e.1;
        proof {
            lemma_counters_update(before, i as int, (before[i as int].0, *final(r)));
        }
        r
    }

    /// The gauge of `k`; a gauge at zero is created for a kind that has none yet.
    pub fn gauge(&mut self, k: &MetricsKind) -> (r: &mut Gauge)
        ensures
            r.spec_bits() == match value_of(old(self).spec_gauges(), kind_key(*k)) {
                Some(v) => v,
                None => Some(0u64),
            },
            final(self).spec_gauges() == if index_of(old(self).spec_gauges(), kind_key(*k)) >= 0 {
                old(self).spec_gauges().update(
                    index_of(old(self).spec_gauges(), kind_key(*k)),
                    (kind_key(*k), final(r).spec_bits()),
                )
            } else {
                old(self).spec_gauges().push((kind_key(*k), final(r).spec_bits()))
            },
            final(self).spec_counters() == old(self).spec_counters(),
    {
        let ghost m = self.spec_gauges();
        proof {
            lemma_index_of(m, kind_key(*k));
        }
        let i = match self.find_gauge(k) {
            Some(i) => i,
            None => {
                self.gauges.push((k.clone(), Gauge::from_bits(0)));
                proof {
                    assert(gauges_view(self.gauges@) =~= m.push((kind_key(*k), Some(0u64))));
                }
                self.gauges.len() - 1
            },
        };
        let ghost before = self.gauges@;
        let e = &mut self.gauges[i];
        let r = &mut e.1;
        proof {
            lemma_gauges_update(before, i as int, (before[i as int].0, *final(r)));
        }
        r
    }

    /// A copy of the counters.
    pub fn get_counters(&self) -> (r: Vec<(MetricsKind, Counter)>)
        ensures
            counters_view(r@) == self.spec_counters(),
    {
        let mut out: Vec<(MetricsKind, Counter)> = Vec::new();
        let n = self.counters.len();
        let mut i: usize = 0;
        while i < n
            invariant
                n == self.counters@.len(),
                i <= n,
                out@.len() == i,
                forall|j: int|
                    0 <= j < i ==> #[trigger] counters_view(out@)[j] == counters_view(
                        self.counters@,
                    )[j],
            decreases n - i,
        {
            let ghost before = out@;
            let kind = self.counters[i].0.clone();
            let c = self.counters[i].1;
            out.push((kind, c));
            proof {
                assert(out@ == before.push((kind, c)));
                assert(counters_view(out@)[i as int] == counters_view(self.counters@)[i as int]);
                assert forall|j: int| 0 <= j < i implies #[trigger] counters_view(out@)[j]
                    == counters_view(before)[j] by {}
            }
            i = i + 1;
        }
        proof {
            assert(counters_view(out@) =~= counters_view(self.counters@));
        }
        out
    }

    /// A copy of the gauges.
    pub fn get_gauges(&self) -> (r: Vec<(MetricsKind, Gauge)>)
        ensures
            gauges_view(r@) == self.spec_gauges(),
    {
        let mut out: Vec<(MetricsKind, Gauge)> = Vec::new();
        let n = self.gauges.len();
        let mut i: usize = 0;
        while i < n
            invariant
                n == self.gauges@.len(),
                i <= n,
                out@.len() == i,
                forall|j: int|
                    0 <= j < i ==> #[trigger] gauges_view(out@)[j] == gauges_view(self.gauges@)[j],
            decreases n - i,
        {
            let ghost before = out@;
            let kind = self.gauges[i].0.clone();
            let g = self.gauges[i].1;
            out.push((kind, g));
            proof {
                assert(out@ == before.push((kind, g)));
                assert(gauges_view(out@)[i as int] == gauges_view(self.gauges@)[i as int]);
                assert forall|j: int| 0 <= j < i implies #[trigger] gauges_view(out@)[j]
                    == gauges_view(before)[j] by {}
            }
            i = i + 1;
        }
        proof {
            assert(gauges_view(out@) =~= gauges_view(self.gauges@));
        }
        out
    }

    /// Forgets every counter and gauge.
    pub fn clear(&mut self)
        ensures
            final(self).spec_counters().len() == 0,
            final(self).spec_gauges().len() == 0,
    {
        self.counters.clear();
        self.gauges.clear();
    }
}

} // verus!
