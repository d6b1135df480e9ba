//! The channels between the nodes of a task, laid out from its graph.

use crate::data::frame::Frame;
use crate::data::model;
use crate::graph::{self, wires_view, Graph, InputWire, InputWireModel, OutputWire, OutputWireModel};
use crate::mpsc::{self, merged_ports, ports_to, Incoming, Outgoing, PortsModel};
use crate::service_uri::Uri;
use vstd::prelude::*;

verus! {

/// The room of each channel between nodes.
pub const DEFAULT_CHANNEL_BUFFER_SIZE: usize = 128;

// ---------------------------------------------------------------------------
// the plan

pub open spec fn no_channel() -> PortsModel {
    PortsModel { channels: 0, ports: Map::empty() }
}

pub open spec fn one_channel() -> PortsModel {
    PortsModel { channels: 1, ports: Map::empty().insert(0u8, 0u8) }
}

/// `a` after the channels of `b` were merged into it, each keeping its input port.
pub open spec fn merged(a: PortsModel, b: PortsModel) -> PortsModel {
    PortsModel {
        channels: a.channels + b.channels,
        ports: merged_ports(a.ports, a.channels as int, b.ports, b.channels as int),
    }
}

/// `a` after the channels of `b` were merged into it towards input port `port`.
pub open spec fn merged_by(a: PortsModel, port: u8, b: PortsModel) -> PortsModel {
    PortsModel {
        channels: a.channels + b.channels,
        ports: ports_to(a.ports, a.channels as int, port, b.channels as int),
    }
}

/// The sending channels of `k`, none where it has none yet.
pub open spec fn or_empty(m: Seq<(Seq<char>, PortsModel)>, k: Seq<char>) -> PortsModel {
    match model::map_get(m, k) {
        Some(p) => p,
        None => no_channel(),
    }
}

/// What the channels of a task are: for each URI that receives, the number of its upstreams;
/// for each URI that sends, its channels; the channels that start the task; the number of
/// upstreams of the end of the task.
pub struct PlanModel {
    pub incomings: Seq<(Seq<char>, u32)>,
    pub outgoings: Seq<(Seq<char>, PortsModel)>,
    pub starters: Seq<(Seq<char>, PortsModel)>,
    pub awaiter: nat,
}

pub open spec fn empty_plan() -> PlanModel {
    PlanModel { incomings: Seq::empty(), outgoings: Seq::empty(), starters: Seq::empty(), awaiter: 0 }
}

/// Every URI without an incoming wire receives from a channel that starts the task.
pub open spec fn plan_starters(inputs: Seq<(Seq<char>, InputWireModel)>) -> PlanModel
    decreases inputs.len(),
{
    if inputs.len() == 0 {
        empty_plan()
    } else {
        let p = plan_starters(inputs.drop_last());
        let uri = inputs.last().0;
        if inputs.last().1 is Unwired {
            PlanModel {
                incomings: model::map_insert(p.incomings, uri, 1u32),
                starters: model::map_insert(p.starters, uri, one_channel()),
                ..p
            }
        } else {
            p
        }
    }
}

/// Every URI without an outgoing wire sends to the end of the task.
pub open spec fn plan_last(p: PlanModel, outputs: Seq<(Seq<char>, OutputWireModel)>) -> PlanModel
    decreases outputs.len(),
{
    if outputs.len() == 0 {
        p
    } else {
        let q = plan_last(p, outputs.drop_last());
        let uri = outputs.last().0;
        if outputs.last().1 is Unwired {
            PlanModel {
                awaiter: q.awaiter + 1,
                outgoings: model::map_insert(
                    q.outgoings,
                    uri,
                    merged(or_empty(q.outgoings, uri), one_channel()),
                ),
                ..q
            }
        } else {
            q
        }
    }
}

/// The `n` first senders of a fan-in each get a channel towards input port = its position.
pub open spec fn fanin_merges(
    outs: Seq<(Seq<char>, PortsModel)>,
    senders: Seq<Seq<char>>,
    n: int,
) -> Seq<(Seq<char>, PortsModel)>
    decreases n,
{
    if n <= 0 {
        outs
    } else {
        let r = fanin_merges(outs, senders, n - 1);
        let x = senders[n - 1];
        model::map_insert(r, x, merged_by(or_empty(r, x), (n - 1) as u8, one_channel()))
    }
}

/// Every incoming wire gets a channel: a single sender feeds input port 0, the senders of a
/// fan-in feed the input ports of their positions.
pub open spec fn plan_wires(p: PlanModel, inputs: Seq<(Seq<char>, InputWireModel)>) -> PlanModel
    decreases inputs.len(),
{
    if inputs.len() == 0 {
        p
    } else {
        let q = plan_wires(p, inputs.drop_last());
        match inputs.last().1 {
            InputWireModel::Single(o, i) => PlanModel {
                incomings: model::map_insert(q.incomings, i, 1u32),
                outgoings: model::map_insert(
                    q.outgoings,
                    o,
                    merged(or_empty(q.outgoings, o), one_channel()),
                ),
                ..q
            },
            InputWireModel::Fanin(os, i) => PlanModel {
                incomings: model::map_insert(q.incomings, i, os.len() as u32),
                outgoings: fanin_merges(q.outgoings, os, os.len() as int),
                ..q
            },
            InputWireModel::Unwired => q,
        }
    }
}

/// The channels of a task with the given wires.
pub open spec fn plan_of(g: graph::GraphModel) -> PlanModel {
    plan_wires(plan_last(plan_starters(g.inputs), g.outputs), g.inputs)
}

/// The entries of `b` set into `a` in turn.
pub open spec fn insert_all(
    a: Seq<(Seq<char>, PortsModel)>,
    b: Seq<(Seq<char>, PortsModel)>,
) -> Seq<(Seq<char>, PortsModel)>
    decreases b.len(),
{
    if b.len() == 0 {
        a
    } else {
        let r = insert_all(a, b.drop_last());
        model::map_insert(r, b.last().0, b.last().1)
    }
}

/// The number of channels that the plan merges into senders.
pub open spec fn merges_in_outputs(outputs: Seq<(Seq<char>, OutputWireModel)>) -> nat
    decreases outputs.len(),
{
    if outputs.len() == 0 {
        0
    } else {
        merges_in_outputs(outputs.drop_last()) + if outputs.last().1 is Unwired {
            1nat
        } else {
            0nat
        }
    }
}

pub open spec fn merges_in_inputs(inputs: Seq<(Seq<char>, InputWireModel)>) -> nat
    decreases inputs.len(),
{
    if inputs.len() == 0 {
        0
    } else {
        merges_in_inputs(inputs.drop_last()) + match inputs.last().1 {
            InputWireModel::Single(_, _) => 1nat,
            InputWireModel::Fanin(os, _) => os.len(),
            InputWireModel::Unwired => 0nat,
        }
    }
}

// ---------------------------------------------------------------------------
// facts about the plan

proof fn lemma_merges_in_outputs_prefix(outputs: Seq<(Seq<char>, OutputWireModel)>, i: int)
    requires
        0 <= i <= outputs.len(),
    ensures
        merges_in_outputs(outputs.take(i)) <= merges_in_outputs(outputs),
    decreases outputs.len() - i,
{
    if i < outputs.len() {
        assert(outputs.take(i + 1).drop_last() =~= outputs.take(i));
        lemma_merges_in_outputs_prefix(outputs, i + 1);
    } else {
        assert(outputs.take(i) =~= outputs);
    }
}

proof fn lemma_merges_in_inputs_prefix(inputs: Seq<(Seq<char>, InputWireModel)>, i: int)
    requires
        0 <= i <= inputs.len(),
    ensures
        merges_in_inputs(inputs.take(i)) <= merges_in_inputs(inputs),
    decreases inputs.len() - i,
{
    if i < inputs.len() {
        assert(inputs.take(i + 1).drop_last() =~= inputs.take(i));
        lemma_merges_in_inputs_prefix(inputs, i + 1);
    } else {
        assert(inputs.take(i) =~= inputs);
    }
}

proof fn lemma_plan_starters_awaiter(inputs: Seq<(Seq<char>, InputWireModel)>)
    ensures
        plan_starters(inputs).awaiter == 0,
    decreases inputs.len(),
{
    if inputs.len() > 0 {
        lemma_plan_starters_awaiter(inputs.drop_last());
    }
}

proof fn lemma_plan_wires_awaiter(p: PlanModel, inputs: Seq<(Seq<char>, InputWireModel)>)
    ensures
        plan_wires(p, inputs).awaiter == p.awaiter,
    decreases inputs.len(),
{
    if inputs.len() > 0 {
        lemma_plan_wires_awaiter(p, inputs.drop_last());
    }
}

/// Every entry after setting `k` to `v` is `v` or an entry that was there.
proof fn lemma_map_insert_entries<V>(m: Seq<(Seq<char>, V)>, k: Seq<char>, v: V)
    ensures
        forall|j: int|
            0 <= j < model::map_insert(m, k, v).len() ==> #[trigger] model::map_insert(m, k, v)[j]
                == (k, v) || (j < m.len() && model::map_insert(m, k, v)[j] == m[j]),
{
    model::lemma_key_index(m, k);
}

/// No sender has more channels than `bound`.
pub open spec fn channels_within(outs: Seq<(Seq<char>, PortsModel)>, bound: nat) -> bool {
    forall|j: int| 0 <= j < outs.len() ==> (#[trigger] outs[j]).1.channels <= bound
}

proof fn lemma_or_empty_within(outs: Seq<(Seq<char>, PortsModel)>, k: Seq<char>, bound: nat)
    requires
        channels_within(outs, bound),
    ensures
        or_empty(outs, k).channels <= bound,
{
    model::lemma_key_index(outs, k);
    if model::map_get(outs, k) is Some {
        assert(outs[model::key_index(outs, k)].1.channels <= bound);
    }
}

proof fn lemma_insert_within(outs: Seq<(Seq<char>, PortsModel)>, k: Seq<char>, v: PortsModel, bound: nat)
    requires
        channels_within(outs, bound),
        v.channels <= bound,
    ensures
        channels_within(model::map_insert(outs, k, v), bound),
{
    lemma_map_insert_entries(outs, k, v);
    let r = model::map_insert(outs, k, v);
    assert forall|j: int| 0 <= j < r.len() implies (#[trigger] r[j]).1.channels <= bound by {
        if r[j] != (k, v) {
            assert(r[j] == outs[j]);
        }
    }
}

// ---------------------------------------------------------------------------
// every service receives

proof fn lemma_insert_keeps_key<V>(m: Seq<(Seq<char>, V)>, k: Seq<char>, x: V, k2: Seq<char>)
    requires
        k2 == k || model::map_get(m, k2) is Some,
    ensures
        model::map_get(model::map_insert(m, k, x), k2) is Some,
{
    model::law_map_insert_then_get(m, k, x, k2);
}

proof fn lemma_starters_receive(inputs: Seq<(Seq<char>, InputWireModel)>, q: int)
    requires
        0 <= q < inputs.len(),
        inputs[q].1 is Unwired,
    ensures
        model::map_get(plan_starters(inputs).incomings, inputs[q].0) is Some,
    decreases inputs.len(),
{
    let rest = inputs.drop_last();
    let p = plan_starters(rest);
    let last = inputs.last();
    if q < inputs.len() - 1 {
        assert(rest[q] == inputs[q]);
        lemma_starters_receive(rest, q);
        if last.1 is Unwired {
            lemma_insert_keeps_key(p.incomings, last.0, 1u32, inputs[q].0);
        }
    } else {
        lemma_insert_keeps_key(p.incomings, last.0, 1u32, inputs[q].0);
    }
}

proof fn lemma_last_keeps_incomings(p: PlanModel, outputs: Seq<(Seq<char>, OutputWireModel)>)
    ensures
        plan_last(p, outputs).incomings == p.incomings,
    decreases outputs.len(),
{
    if outputs.len() > 0 {
        lemma_last_keeps_incomings(p, outputs.drop_last());
    }
}

proof fn lemma_wires_keep_incoming(
    p: PlanModel,
    inputs: Seq<(Seq<char>, InputWireModel)>,
    k: Seq<char>,
)
    requires
        model::map_get(p.incomings, k) is Some,
    ensures
        model::map_get(plan_wires(p, inputs).incomings, k) is Some,
    decreases inputs.len(),
{
    if inputs.len() > 0 {
        lemma_wires_keep_incoming(p, inputs.drop_last(), k);
        let q = plan_wires(p, inputs.drop_last());
        match inputs.last().1 {
            InputWireModel::Single(_, i) => lemma_insert_keeps_key(q.incomings, i, 1u32, k),
            InputWireModel::Fanin(os, i) => lemma_insert_keeps_key(
                q.incomings,
                i,
                os.len() as u32,
                k,
            ),
            InputWireModel::Unwired => {},
        }
    }
}

proof fn lemma_wires_receive(p: PlanModel, inputs: Seq<(Seq<char>, InputWireModel)>, q: int)
    requires
        0 <= q < inputs.len(),
        !(inputs[q].1 is Unwired),
    ensures
        model::map_get(
            plan_wires(p, inputs).incomings,
            match inputs[q].1 {
                InputWireModel::Single(_, i) => i,
                InputWireModel::Fanin(_, i) => i,
                InputWireModel::Unwired => inputs[q].0,
            },
        ) is Some,
    decreases inputs.len(),
{
    let rest = inputs.drop_last();
    let r = plan_wires(p, rest);
    let t = match inputs[q].1 {
        InputWireModel::Single(_, i) => i,
        InputWireModel::Fanin(_, i) => i,
        InputWireModel::Unwired => inputs[q].0,
    };
    if q < inputs.len() - 1 {
        assert(rest[q] == inputs[q]);
        lemma_wires_receive(p, rest, q);
    }
    match inputs.last().1 {
        InputWireModel::Single(_, i) => lemma_insert_keeps_key(r.incomings, i, 1u32, t),
        InputWireModel::Fanin(os, i) => lemma_insert_keeps_key(r.incomings, i, os.len() as u32, t),
        InputWireModel::Unwired => {},
    }
}

/// Every service of a graph read from a configuration receives from a channel of its task:
/// from a channel that starts the task where no service sends to it, else from the services
/// that send to it.
pub proof fn law_every_service_receives(v: model::ValueModel, j: int)
    requires
        graph::graph_of(v) is Ok,
        0 <= j < graph::graph_of(v)->Ok_0.outputs.len(),
    ensures
        model::map_get(
            plan_of(graph::graph_of(v)->Ok_0).incomings,
            graph::graph_of(v)->Ok_0.outputs[j].0,
        ) is Some,
{
    let g = graph::graph_of(v)->Ok_0;
    let uri = g.outputs[j].0;
    graph::law_graph_inputs_cover_outputs(v, j);
    graph::lemma_graph_inputs_keyed(v);
    model::lemma_key_index(g.inputs, uri);
    let q = model::key_index(g.inputs, uri);
    assert(g.inputs[q].0 == uri);
    assert(graph::wire_leads_to(g.inputs[q].1, g.inputs[q].0));
    let starters = plan_starters(g.inputs);
    let last = plan_last(starters, g.outputs);
    lemma_last_keeps_incomings(starters, g.outputs);
    if g.inputs[q].1 is Unwired {
        lemma_starters_receive(g.inputs, q);
        lemma_wires_keep_incoming(last, g.inputs, uri);
    } else {
        lemma_wires_receive(last, g.inputs, q);
    }
}

// ---------------------------------------------------------------------------
// upstream counts

/// With distinct keys, the entry of `t` is the last entry where that one holds `t`, else
/// the entry of `t` among the others.
proof fn lemma_map_get_last<V>(m: Seq<(Seq<char>, V)>, t: Seq<char>)
    requires
        m.len() > 0,
        model::keys_distinct(m),
    ensures
        model::map_get(m, t) == if m.last().0 == t {
            Some(m.last().1)
        } else {
            model::map_get(m.drop_last(), t)
        },
        model::keys_distinct(m.drop_last()),
        m.last().0 == t ==> model::map_get(m.drop_last(), t) is None,
{
    let r = m.drop_last();
    assert forall|a: int, b: int| 0 <= a < r.len() && 0 <= b < r.len() && a != b implies r[a].0
        != r[b].0 by {
        assert(r[a] == m[a] && r[b] == m[b]);
    }
    model::lemma_key_index(m, t);
    model::lemma_key_index(r, t);
    if m.last().0 == t {
        assert forall|j: int| 0 <= j < r.len() implies r[j].0 != t by {
            assert(r[j] == m[j]);
            assert(m[m.len() - 1].0 == t);
        }
        model::lemma_key_index_absent(r, t);
        assert forall|j: int| 0 <= j < m.len() - 1 implies m[j].0 != t by {
            assert(m[m.len() - 1].0 == t);
        }
        model::lemma_key_index_at(m, t, m.len() - 1);
    } else {
        let i = model::key_index(r, t);
        if i >= 0 {
            assert(m[i] == r[i]);
            assert forall|j: int| 0 <= j < i implies m[j].0 != t by {
                assert(m[j] == r[j]);
            }
            model::lemma_key_index_at(m, t, i);
        } else {
            assert forall|j: int| 0 <= j < m.len() implies m[j].0 != t by {
                if j < m.len() - 1 {
                    assert(m[j] == r[j]);
                }
            }
            model::lemma_key_index_absent(m, t);
        }
    }
}

proof fn lemma_starters_get(inputs: Seq<(Seq<char>, InputWireModel)>, t: Seq<char>)
    requires
        model::keys_distinct(inputs),
    ensures
        model::map_get(plan_starters(inputs).incomings, t) == if model::map_get(inputs, t)
            == Some(InputWireModel::Unwired) {
            Some(1u32)
        } else {
            None
        },
    decreases inputs.len(),
{
    if inputs.len() == 0 {
        model::lemma_key_index_absent(Seq::<(Seq<char>, u32)>::empty(), t);
        model::lemma_key_index_absent(inputs, t);
    } else {
        lemma_map_get_last(inputs, t);
        let rest = inputs.drop_last();
        lemma_starters_get(rest, t);
        let p = plan_starters(rest);
        if inputs.last().1 is Unwired {
            model::lemma_map_insert_get(p.incomings, inputs.last().0, 1u32, t);
        }
    }
}

proof fn lemma_wires_get(p: PlanModel, inputs: Seq<(Seq<char>, InputWireModel)>, t: Seq<char>)
    requires
        model::keys_distinct(inputs),
        graph::inputs_keyed_by_target(inputs),
    ensures
        model::map_get(plan_wires(p, inputs).incomings, t) == match model::map_get(inputs, t) {
            Some(InputWireModel::Single(_, _)) => Some(1u32),
            Some(InputWireModel::Fanin(os, _)) => Some(os.len() as u32),
            _ => model::map_get(p.incomings, t),
        },
    decreases inputs.len(),
{
    if inputs.len() == 0 {
        model::lemma_key_index_absent(inputs, t);
    } else {
        lemma_map_get_last(inputs, t);
        let rest = inputs.drop_last();
        assert forall|q: int| 0 <= q < rest.len() implies graph::wire_leads_to(
            #[trigger] rest[q].1,
            rest[q].0,
        ) by {
            assert(rest[q] == inputs[q]);
        }
        lemma_wires_get(p, rest, t);
        let q = plan_wires(p, rest);
        let last = inputs.last();
        assert(graph::wire_leads_to(inputs[inputs.len() - 1].1, inputs[inputs.len() - 1].0));
        match last.1 {
            InputWireModel::Single(_, i) => model::lemma_map_insert_get(q.incomings, i, 1u32, t),
            InputWireModel::Fanin(os, i) => model::lemma_map_insert_get(
                q.incomings,
                i,
                os.len() as u32,
                t,
            ),
            InputWireModel::Unwired => {},
        }
    }
}

/// The number of upstreams that each URI of a task receives from: as many as the services
/// whose wire leads to it (one for a one-to-one wire, the number of senders for a fan-in);
/// one, the channel that starts the task, for a service that nothing sends to; and no
/// receiving channel for a URI that is neither a service nor sent to.
pub proof fn law_upstream_counts(m: model::Entries, svcs: Seq<model::ValueModel>, t: Seq<char>)
    requires
        model::map_get(m, "services"@) == Some(model::ValueModel::Sequence(svcs)),
        graph::graph_of(model::ValueModel::Mapping(m)) is Ok,
        graph::senders_to(svcs, t).len() <= u32::MAX,
    ensures
        model::map_get(plan_of(graph::graph_of(model::ValueModel::Mapping(m))->Ok_0).incomings, t)
            == if graph::senders_to(svcs, t).len() > 0 {
            Some(graph::senders_to(svcs, t).len() as u32)
        } else if model::keys_of(graph::graph_of(model::ValueModel::Mapping(m))->Ok_0.outputs).contains(
            t,
        ) {
            Some(1u32)
        } else {
            None
        },
{
    let g = graph::graph_of(model::ValueModel::Mapping(m))->Ok_0;
    assert(g == graph::finish(graph::traverse(svcs)->Ok_0));
    graph::law_graph_shape(svcs, t);
    graph::lemma_graph_inputs_distinct(svcs);
    let st = plan_starters(g.inputs);
    lemma_starters_get(g.inputs, t);
    lemma_last_keeps_incomings(st, g.outputs);
    lemma_wires_get(plan_last(st, g.outputs), g.inputs, t);
    let w = model::map_get(g.inputs, t);
    if graph::senders_to(svcs, t).len() > 0 {
        match w {
            Some(InputWireModel::Single(_, _)) => {},
            Some(InputWireModel::Fanin(os, _)) => {
                assert(os == graph::senders_to(svcs, t));
            },
            _ => {},
        }
    }
}

// ---------------------------------------------------------------------------
// the channels

/// The receiving channel of a URI and the number of its upstreams.
#[derive(Debug)]
struct IncomingInner {
    rx: Incoming<Frame>,
    upstream_count: u32,
}

impl IncomingInner {
    /// The receiving half that it holds.
    pub closed spec fn spec_rx(&self) -> Incoming<Frame> {
        self.rx
    }

    /// A receiving channel with one upstream.
    pub fn from_rx(rx: Incoming<Frame>) -> (r: IncomingInner)
        ensures
            r@ == 1,
            r.spec_rx() == rx,
    {
        IncomingInner::from_rx_and_count(rx, 1)
    }

    /// A receiving channel with `upstream_count` upstreams.
    pub fn from_rx_and_count(rx: Incoming<Frame>, upstream_count: u32) -> (r: IncomingInner)
        ensures
            r@ == upstream_count,
            r.spec_rx() == rx,
    {
        IncomingInner { rx, upstream_count }
    }
}

impl View for IncomingInner {
    type V = u32;

    closed spec fn view(&self) -> u32 {
        self.upstream_count
    }
}

/// Receive channel for each URI.
#[derive(Debug)]
pub struct Incomings {
    map: Vec<(Uri, IncomingInner)>,
}

/// Sending channels for each URI.
#[derive(Debug)]
pub struct Outgoings {
    map: Vec<(Uri, Outgoing<Frame>)>,
}

/// Receive channel of the end of the task.
#[derive(Debug)]
pub struct Awaiter {
    inner: IncomingInner,
}

/// Sending channels that start the task.
#[derive(Debug)]
pub struct Starters {
    map: Vec<(Uri, Outgoing<Frame>)>,
}

/// Sending channels of all nodes: those of `Starters`, then those of `Outgoings`.
#[derive(Debug)]
pub struct SignalOutgoings {
    map: Vec<(Uri, Outgoing<Frame>)>,
}

impl View for Incomings {
    type V = Seq<(Seq<char>, u32)>;

    closed spec fn view(&self) -> Seq<(Seq<char>, u32)> {
        wires_view(self.map@)
    }
}

impl View for Outgoings {
    type V = Seq<(Seq<char>, PortsModel)>;

    closed spec fn view(&self) -> Seq<(Seq<char>, PortsModel)> {
        wires_view(self.map@)
    }
}

impl View for Starters {
    type V = Seq<(Seq<char>, PortsModel)>;

    closed spec fn view(&self) -> Seq<(Seq<char>, PortsModel)> {
        wires_view(self.map@)
    }
}

impl View for SignalOutgoings {
    type V = Seq<(Seq<char>, PortsModel)>;

    closed spec fn view(&self) -> Seq<(Seq<char>, PortsModel)> {
        wires_view(self.map@)
    }
}

proof fn lemma_wires_update<W: View>(s: Seq<(Uri, W)>, i: int, e: (Uri, W))
    requires
        0 <= i < s.len(),
    ensures
        wires_view(s.update(i, e)) == wires_view(s).update(i, (e.0@, e.1@)),
{
    assert(wires_view(s.update(i, e)) =~= wires_view(s).update(i, (e.0@, e.1@)));
}

proof fn lemma_wires_remove<W: View>(s: Seq<(Uri, W)>, i: int)
    requires
        0 <= i < s.len(),
    ensures
        wires_view(s.remove(i)) == wires_view(s).remove(i),
{
    assert(wires_view(s.remove(i)) =~= wires_view(s).remove(i));
}

/// Merges one channel `tx` into the senders of `k`: towards its own input port, or towards
/// `port` where one is given.
fn merge_into(outs: &mut Vec<(Uri, Outgoing<Frame>)>, k: &Uri, port: Option<u8>, tx: Outgoing<Frame>)
    requires
        tx@ == one_channel(),
        or_empty(wires_view(old(outs)@), k@).channels + 1 <= usize::MAX,
    ensures
        wires_view(final(outs)@) == model::map_insert(
            wires_view(old(outs)@),
            k@,
            match port {
                Some(p) => merged_by(or_empty(wires_view(old(outs)@), k@), p, one_channel()),
                None => merged(or_empty(wires_view(old(outs)@), k@), one_channel()),
            },
        ),
{
    let ghost m = wires_view(old(outs)@);
    proof {
        model::lemma_key_index(m, k@);
    }
    let i = match graph::find_wire(outs, k) {
        Some(i) => i,
        None => {
            let ghost before = outs@;
            outs.push((k.clone(), Outgoing::empty()));
            proof {
                assert(wires_view(outs@) =~= m.push((k@, no_channel())));
                model::lemma_key_index_absent(m, k@);
                model::lemma_key_index_at(wires_view(outs@), k@, m.len() as int);
            }
            outs.len() - 1
        },
    };
    let ghost mid = outs@;
    proof {
        assert(wires_view(mid)[i as int].0 == k@);
        assert(mid[i as int].1@ == or_empty(m, k@));
    }
    let e = &mut outs[i];
    match port {
        Some(p) => e.1.merge_by(p, tx),
        None => e.1.merge(tx),
    }
    proof {
        lemma_wires_update(mid, i as int, *final(e));
    }
}

/// The channels of a task, from its graph: the receiving channel of every receiving URI, the
/// sending channels of every sending URI, the receiving channel of the end of the task, the
/// channels that start it, and all sending channels together.
pub fn from_graph(graph: &Graph) -> (r: (Incomings, Outgoings, Awaiter, Starters, SignalOutgoings))
    requires
        graph@.outputs.len() <= u32::MAX,
        merges_in_outputs(graph@.outputs) + merges_in_inputs(graph@.inputs) < usize::MAX,
    ensures
        r.0@ == plan_of(graph@).incomings,
        r.1@ == plan_of(graph@).outgoings,
        r.2.upstream_count() == plan_of(graph@).awaiter,
        r.3@ == plan_of(graph@).starters,
        r.4@ == insert_all(insert_all(Seq::empty(), plan_of(graph@).starters), plan_of(graph@).outgoings),
{
    let inputs = graph.inputs();
    let outputs = graph.outputs();
    let ghost ins = wires_view(inputs@);
    let ghost outs = wires_view(outputs@);
    let ghost total = merges_in_outputs(outs) + merges_in_inputs(ins);
    let mut incomings: Vec<(Uri, IncomingInner)> = Vec::new();
    let mut outgoings: Vec<(Uri, Outgoing<Frame>)> = Vec::new();
    let mut starters: Vec<(Uri, Outgoing<Frame>)> = Vec::new();
    let (awaiter_tx, awaiter_rx) = mpsc::channel::<Frame>(DEFAULT_CHANNEL_BUFFER_SIZE);
    proof {
        assert(wires_view(incomings@) =~= Seq::<(Seq<char>, u32)>::empty());
        assert(wires_view(outgoings@) =~= Seq::<(Seq<char>, PortsModel)>::empty());
        assert(wires_view(starters@) =~= Seq::<(Seq<char>, PortsModel)>::empty());
        assert(ins.take(0) =~= Seq::<(Seq<char>, InputWireModel)>::empty());
    }
    // first channels
    let n = inputs.len();
    let mut i: usize = 0;
    while i < n
        invariant
            n == inputs@.len(),
            ins == wires_view(inputs@),
            i <= n,
            wires_view(incomings@) == plan_starters(ins.take(i as int)).incomings,
            wires_view(outgoings@) == plan_starters(ins.take(i as int)).outgoings,
            wires_view(starters@) == plan_starters(ins.take(i as int)).starters,
        decreases n - i,
    {
        proof {
            assert(ins.take(i + 1).drop_last() =~= ins.take(i as int));
        }
        let (uri, w) = &inputs[i];
        match w {
            InputWire::Unwired => {
                let (tx, rx) = mpsc::channel::<Frame>(DEFAULT_CHANNEL_BUFFER_SIZE);
                let inner = IncomingInner::from_rx(rx);
                graph::insert_wire(&mut incomings, uri.clone(), inner);
                graph::insert_wire(&mut starters, uri.clone(), tx);
            },
            _ => {},
        }
        i = i + 1;
    }
    proof {
        assert(ins.take(n as int) =~= ins);
        assert(outs.take(0) =~= Seq::<(Seq<char>, OutputWireModel)>::empty());
        assert(channels_within(wires_view(outgoings@), 0));
    }
    let ghost p0 = plan_starters(ins);
    proof {
        lemma_plan_starters_awaiter(ins);
    }
    // last channels
    let mut awaiter_upstream_count: u32 = 0;
    let m = outputs.len();
    let mut j: usize = 0;
    while j < m
        invariant
            m == outputs@.len(),
            m <= u32::MAX,
            outs == wires_view(outputs@),
            total == merges_in_outputs(outs) + merges_in_inputs(ins),
            total < usize::MAX,
            j <= m,
            awaiter_tx@ == one_channel(),
            wires_view(incomings@) == plan_last(p0, outs.take(j as int)).incomings,
            wires_view(outgoings@) == plan_last(p0, outs.take(j as int)).outgoings,
            wires_view(starters@) == plan_last(p0, outs.take(j as int)).starters,
            awaiter_upstream_count == plan_last(p0, outs.take(j as int)).awaiter,
            awaiter_upstream_count <= j,
            channels_within(wires_view(outgoings@), merges_in_outputs(outs.take(j as int))),
        decreases m - j,
    {
        proof {
            assert(outs.take(j + 1).drop_last() =~= outs.take(j as int));
            lemma_merges_in_outputs_prefix(outs, j + 1);
        }
        let (uri, w) = &outputs[j];
        match w {
            OutputWire::Unwired => {
                let ghost before = wires_view(outgoings@);
                proof {
                    lemma_or_empty_within(before, uri@, merges_in_outputs(outs.take(j as int)));
                }
                awaiter_upstream_count = awaiter_upstream_count + 1;
                merge_into(&mut outgoings, uri, None, awaiter_tx.clone());
                proof {
                    lemma_insert_within(
                        before,
                        uri@,
                        merged(or_empty(before, uri@), one_channel()),
                        merges_in_outputs(outs.take(j + 1)),
                    );
                }
            },
            _ => {},
        }
        j = j + 1;
    }
    proof {
        assert(outs.take(m as int) =~= outs);
        assert(ins.take(0) =~= Seq::<(Seq<char>, InputWireModel)>::empty());
    }
    let ghost p1 = plan_last(p0, outs);
    // channels of the wires
    let mut k: usize = 0;
    while k < n
        invariant
            n == inputs@.len(),
            ins == wires_view(inputs@),
            total == merges_in_outputs(outs) + merges_in_inputs(ins),
            total < usize::MAX,
            k <= n,
            wires_view(incomings@) == plan_wires(p1, ins.take(k as int)).incomings,
            wires_view(outgoings@) == plan_wires(p1, ins.take(k as int)).outgoings,
            wires_view(starters@) == plan_wires(p1, ins.take(k as int)).starters,
            awaiter_upstream_count == p1.awaiter,
            channels_within(
                wires_view(outgoings@),
                merges_in_outputs(outs) + merges_in_inputs(ins.take(k as int)),
            ),
        decreases n - k,
    {
        proof {
            assert(ins.take(k + 1).drop_last() =~= ins.take(k as int));
            lemma_merges_in_inputs_prefix(ins, k + 1);
        }
        let ghost done = merges_in_outputs(outs) + merges_in_inputs(ins.take(k as int));
        let (_, w) = &inputs[k];
        match w {
            InputWire::Single(o, to) => {
                let (tx, rx) = mpsc::channel::<Frame>(DEFAULT_CHANNEL_BUFFER_SIZE);
                graph::insert_wire(&mut incomings, to.clone(), IncomingInner::from_rx(rx));
                let ghost before = wires_view(outgoings@);
                proof {
                    lemma_or_empty_within(before, o@, done);
                }
                merge_into(&mut outgoings, o, None, tx);
                proof {
                    lemma_insert_within(before, o@, merged(or_empty(before, o@), one_channel()), done + 1);
                }
            },
            InputWire::Fanin(senders, to) => {
                let (tx, rx) = mpsc::channel::<Frame>(DEFAULT_CHANNEL_BUFFER_SIZE);
                let count = senders.len() as u32;
                graph::insert_wire(&mut incomings, to.clone(), IncomingInner::from_rx_and_count(rx, count));
                let ghost os = graph::uris_view(senders@);
                let ghost base = wires_view(outgoings@);
                let ns = senders.len();
                let mut idx: usize = 0;
                while idx < ns
                    invariant
                        ns == senders@.len(),
                        os == graph::uris_view(senders@),
                        idx <= ns,
                        tx@ == one_channel(),
                        done + ns < usize::MAX,
                        wires_view(outgoings@) == fanin_merges(base, os, idx as int),
                        channels_within(wires_view(outgoings@), (done + idx) as nat),
                    decreases ns - idx,
                {
                    let ghost before = wires_view(outgoings@);
                    proof {
                        lemma_or_empty_within(before, os[idx as int], (done + idx) as nat);
                    }
                    let port = idx as u8;
                    merge_into(&mut outgoings, &senders[idx], Some(port), tx.clone());
                    proof {
                        lemma_insert_within(
                            before,
                            os[idx as int],
                            merged_by(or_empty(before, os[idx as int]), port, one_channel()),
                            (done + idx + 1) as nat,
                        );
                    }
                    idx = idx + 1;
                }
            },
            InputWire::Unwired => {},
        }
        k = k + 1;
    }
    proof {
        assert(ins.take(n as int) =~= ins);
        lemma_plan_wires_awaiter(p1, ins);
    }
    // all sending channels
    let mut all: Vec<(Uri, Outgoing<Frame>)> = Vec::new();
    let ghost st = wires_view(starters@);
    let ghost og = wires_view(outgoings@);
    proof {
        assert(wires_view(all@) =~= Seq::<(Seq<char>, PortsModel)>::empty());
        assert(st.take(0) =~= Seq::<(Seq<char>, PortsModel)>::empty());
    }
    let ns = starters.len();
    let mut a: usize = 0;
    while a < ns
        invariant
            ns == starters@.len(),
            st == wires_view(starters@),
            a <= ns,
            wires_view(all@) == insert_all(Seq::empty(), st.take(a as int)),
        decreases ns - a,
    {
        proof {
            assert(st.take(a + 1).drop_last() =~= st.take(a as int));
        }
        graph::insert_wire(&mut all, starters[a].0.clone(), starters[a].1.clone());
        a = a + 1;
    }
    proof {
        assert(st.take(ns as int) =~= st);
        assert(og.take(0) =~= Seq::<(Seq<char>, PortsModel)>::empty());
    }
    let ghost base = wires_view(all@);
    let no = outgoings.len();
    let mut b: usize = 0;
    while b < no
        invariant
            no == outgoings@.len(),
            og == wires_view(outgoings@),
            b <= no,
            wires_view(all@) == insert_all(base, og.take(b as int)),
        decreases no - b,
    {
        proof {
            assert(og.take(b + 1).drop_last() =~= og.take(b as int));
        }
        graph::insert_wire(&mut all, outgoings[b].0.clone(), outgoings[b].1.clone());
        b = b + 1;
    }
    proof {
        assert(og.take(no as int) =~= og);
    }
    (
        Incomings { map: incomings },
        Outgoings { map: outgoings },
        Awaiter { inner: IncomingInner::from_rx_and_count(awaiter_rx, awaiter_upstream_count) },
        Starters { map: starters },
        SignalOutgoings { map: all },
    )
}

impl Awaiter {
    pub closed spec fn upstream_count(&self) -> nat {
        self.inner.upstream_count as nat
    }

    /// The number of upstreams of the end of the task.
    pub fn get_upstream_count(&self) -> (r: u32)
        ensures
            r == self.upstream_count(),
    {
        self.inner.upstream_count
    }

    /// The receiving half of the end of the task.
    pub closed spec fn spec_incoming(&self) -> Incoming<Frame> {
        self.inner.rx
    }

    /// The receiver of the end of the task, to wait on its next frame.
    pub fn receiver_mut(&mut self) -> (r: &mut Incoming<Frame>)
        ensures
            *r == old(self).spec_incoming(),
            final(self).spec_incoming() == *final(r),
            final(self).upstream_count() == old(self).upstream_count(),
    {
        &mut self.inner.rx
    }
}

impl Incomings {
    /// Takes the receiving channel of `uri` and the number of its upstreams.
    pub fn pop(&mut self, uri: &Uri) -> (r: Option<(Incoming<Frame>, u32)>)
        ensures
            match r {
                Some((_, c)) => model::map_get(old(self)@, uri@) == Some(c) && final(self)@ == old(
                    self,
                )@.remove(model::key_index(old(self)@, uri@)),
                None => model::map_get(old(self)@, uri@) is None && final(self)@ == old(self)@,
            },
    {
        proof {
            model::lemma_key_index(self@, uri@);
        }
        match graph::find_wire(&self.map, uri) {
            Some(i) => {
                let ghost before = self.map@;
                let (_, inner) = self.map.remove(i);
                proof {
                    lemma_wires_remove(before, i as int);
                }
                Some((inner.rx, inner.upstream_count))
            },
            None => None,
        }
    }
}

impl Outgoings {
    /// Takes the sending channels of `uri`.
    pub fn pop(&mut self, uri: &Uri) -> (r: Option<Outgoing<Frame>>)
        ensures
            match r {
                Some(o) => model::map_get(old(self)@, uri@) == Some(o@) && final(self)@ == old(
                    self,
                )@.remove(model::key_index(old(self)@, uri@)),
                None => model::map_get(old(self)@, uri@) is None && final(self)@ == old(self)@,
            },
    {
        proof {
            model::lemma_key_index(self@, uri@);
        }
        match graph::find_wire(&self.map, uri) {
            Some(i) => {
                let ghost before = self.map@;
                let (_, o) = self.map.remove(i);
                proof {
                    lemma_wires_remove(before, i as int);
                }
                Some(o)
            },
            None => None,
        }
    }
}

impl Starters {
    pub fn len(&self) -> (r: usize)
        ensures
            r == self@.len(),
    {
        self.map.len()
    }

    /// The URI and the sending channels of the `i`-th starter.
    pub fn entry_mut(&mut self, i: usize) -> (r: (&Uri, &mut Outgoing<Frame>))
        requires
            i < old(self)@.len(),
        ensures
            r.0@ == old(self)@[i as int].0,
            r.1@ == old(self)@[i as int].1,
            final(self)@ == old(self)@.update(i as int, (old(self)@[i as int].0, final(r.1)@)),
    {
        let ghost before = self.map@;
        let e = &mut self.map[i];
        let r = (&e.0, &mut e.1);
        proof {
            lemma_wires_update(before, i as int, (before[i as int].0, *final(r.1)));
        }
        r
    }
}

impl SignalOutgoings {
    pub fn len(&self) -> (r: usize)
        ensures
            r == self@.len(),
    {
        self.map.len()
    }

    /// The URI and the sending channels of the `i`-th node.
    pub fn entry_mut(&mut self, i: usize) -> (r: (&Uri, &mut Outgoing<Frame>))
        requires
            i < old(self)@.len(),
        ensures
            r.0@ == old(self)@[i as int].0,
            r.1@ == old(self)@[i as int].1,
            final(self)@ == old(self)@.update(i as int, (old(self)@[i as int].0, final(r.1)@)),
    {
        let ghost before = self.map@;
        let e = &mut self.map[i];
        let r = (&e.0, &mut e.1);
        proof {
            lemma_wires_update(before, i as int, (before[i as int].0, *final(r.1)));
        }
        r
    }
}

} // verus!
