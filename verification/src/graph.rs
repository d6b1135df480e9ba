//! The graph of services of a task, read from its configuration value.

use crate::data::model::{self, ValueModel};
use crate::data::value::{self, DataMap, Value};
use crate::error::{ConfigError, ConfigErrorModel};
use crate::service_type::{self, ServiceType};
use crate::service_uri::Uri;
use vstd::prelude::*;

verus! {

// ---------------------------------------------------------------------------
// wires

/// The outgoing wire of a service.
#[derive(Debug)]
pub enum OutputWire {
    /// Wire of "One to One". The sender is the first URI.
    Single(Uri, Uri),
    /// Wire of "One To Many".
    Fanout(Uri, Vec<Uri>),
    /// Without output.
    Unwired,
}

/// The incoming wire of a service.
#[derive(Debug)]
pub enum InputWire {
    /// Wire of "One to One". The sender is the first URI.
    Single(Uri, Uri),
    /// Wire of "Many to One".
    Fanin(Vec<Uri>, Uri),
    /// Without Input.
    Unwired,
}

pub enum OutputWireModel {
    Single(Seq<char>, Seq<char>),
    Fanout(Seq<char>, Seq<Seq<char>>),
    Unwired,
}

pub enum InputWireModel {
    Single(Seq<char>, Seq<char>),
    Fanin(Seq<Seq<char>>, Seq<char>),
    Unwired,
}

/// The views of a list of URIs.
pub open spec fn uris_view(s: Seq<Uri>) -> Seq<Seq<char>> {
    Seq::new(s.len(), |i: int| s[i]@)
}

impl View for OutputWire {
    type V = OutputWireModel;

    open spec fn view(&self) -> OutputWireModel {
        match self {
            OutputWire::Single(o, i) => OutputWireModel::Single(o@, i@),
            OutputWire::Fanout(o, is) => OutputWireModel::Fanout(o@, uris_view(is@)),
            OutputWire::Unwired => OutputWireModel::Unwired,
        }
    }
}

impl View for InputWire {
    type V = InputWireModel;

    open spec fn view(&self) -> InputWireModel {
        match self {
            InputWire::Single(o, i) => InputWireModel::Single(o@, i@),
            InputWire::Fanin(os, i) => InputWireModel::Fanin(uris_view(os@), i@),
            InputWire::Unwired => InputWireModel::Unwired,
        }
    }
}

/// Adds a sender to an incoming wire: one sender becomes a fan-in of two.
pub open spec fn put_output(w: InputWireModel, uri: Seq<char>) -> InputWireModel {
    match w {
        InputWireModel::Single(o, i) => InputWireModel::Fanin(seq![o, uri], i),
        InputWireModel::Fanin(os, i) => InputWireModel::Fanin(os.push(uri), i),
        InputWireModel::Unwired => InputWireModel::Unwired,
    }
}

fn clone_uris(v: &Vec<Uri>) -> (r: Vec<Uri>)
    ensures
        uris_view(r@) == uris_view(v@),
{
    let mut r: Vec<Uri> = Vec::new();
    let n = v.len();
    let mut i: usize = 0;
    while i < n
        invariant
            n == v@.len(),
            i <= n,
            r@.len() == i,
            forall|j: int| 0 <= j < i ==> r@[j]@ == v@[j]@,
        decreases n - i,
    {
        r.push(v[i].clone());
        i = i + 1;
    }
    proof {
        assert(uris_view(r@) =~= uris_view(v@));
    }
    r
}

impl InputWire {
    /// Adds the sender `uri`; an unwired input cannot take one.
    pub fn put_output(&self, uri: Uri) -> (r: InputWire)
        requires
            !(self@ is Unwired),
        ensures
            r@ == put_output(self@, uri@),
    {
        match self {
            InputWire::Single(o, i) => {
                let mut os: Vec<Uri> = Vec::new();
                os.push(o.clone());
                os.push(uri);
                let r = InputWire::Fanin(os, i.clone());
                proof {
                    assert(uris_view(os@) =~= seq![o@, uri@]);
                }
                r
            },
            InputWire::Fanin(o, i) => {
                let mut o2 = clone_uris(o);
                let ghost before = o2@;
                o2.push(uri);
                proof {
                    assert(uris_view(o2@) =~= uris_view(before).push(uri@));
                }
                InputWire::Fanin(o2, i.clone())
            },
            InputWire::Unwired => InputWire::Unwired,
        }
    }
}

impl Clone for OutputWire {
    fn clone(&self) -> (r: OutputWire)
        ensures
            r@ == self@,
    {
        match self {
            OutputWire::Single(o, i) => OutputWire::Single(o.clone(), i.clone()),
            OutputWire::Fanout(o, is) => OutputWire::Fanout(o.clone(), clone_uris(is)),
            OutputWire::Unwired => OutputWire::Unwired,
        }
    }
}

impl Clone for InputWire {
    fn clone(&self) -> (r: InputWire)
        ensures
            r@ == self@,
    {
        match self {
            InputWire::Single(o, i) => InputWire::Single(o.clone(), i.clone()),
            InputWire::Fanin(os, i) => InputWire::Fanin(clone_uris(os), i.clone()),
            InputWire::Unwired => InputWire::Unwired,
        }
    }
}

// ---------------------------------------------------------------------------
// nodes

/// A service of the graph: its type, its URI and its configuration value.
#[derive(Debug)]
pub struct Node {
    tp: ServiceType,
    uri: Uri,
    config_value: Value,
}

pub struct NodeModel {
    /// The full name, the name space and the service name of the node's type.
    pub service_type: (Seq<char>, Seq<char>, Seq<char>),
    pub uri: Seq<char>,
    pub config: ValueModel,
}

impl View for Node {
    type V = NodeModel;

    closed spec fn view(&self) -> NodeModel {
        NodeModel { service_type: self.tp@, uri: self.uri@, config: self.config_value@ }
    }
}

impl Node {
    pub fn new(tp: ServiceType, uri: Uri, config_value: Value) -> (n: Node)
        ensures
            n@ == (NodeModel { service_type: tp@, uri: uri@, config: config_value@ }),
    {
        Node { tp, uri, config_value }
    }

    pub fn uri(&self) -> (u: Uri)
        ensures
            u@ == self@.uri,
    {
        self.uri.clone()
    }

    pub fn service_type(&self) -> (t: ServiceType)
        ensures
            t@ == self@.service_type,
    {
        self.tp.clone()
    }

    pub fn config(&self) -> (v: Value)
        ensures
            v@ == self@.config,
    {
        self.config_value.deep_copy()
    }
}

impl Clone for Node {
    fn clone(&self) -> (n: Node)
        ensures
            n@ == self@,
    {
        Node { tp: self.tp.clone(), uri: self.uri.clone(), config_value: self.config_value.deep_copy() }
    }
}

// ---------------------------------------------------------------------------
// reading the configuration

/// The texts of the string values among `xs`, in order.
pub open spec fn strings_of(xs: Seq<ValueModel>) -> Seq<Seq<char>>
    decreases xs.len(),
{
    if xs.len() == 0 {
        Seq::empty()
    } else {
        let rest = strings_of(xs.drop_last());
        match xs.last() {
            ValueModel::String(s) => rest.push(s),
            _ => rest,
        }
    }
}

/// The error of reading a service type from a full name, if any.
pub open spec fn full_name_error(tp: Seq<char>) -> Option<ConfigErrorModel> {
    if tp.len() == 0 {
        Some(
            ConfigErrorModel::InvalidServiceType(
                ""@,
                ""@,
                "serivce full name should not be empty."@,
            ),
        )
    } else if service_type::last_dot(tp) < 0 {
        Some(
            ConfigErrorModel::InvalidServiceType(
                ""@,
                ""@,
                "service full name should contains \".\" (=name_space should not be empty)."@,
            ),
        )
    } else {
        None
    }
}

/// A full service type name with its name space (before the last `.`) and its service name
/// (after it).
pub open spec fn full_name_parts(tp: Seq<char>) -> (Seq<char>, Seq<char>, Seq<char>) {
    (
        tp,
        tp.subrange(0, service_type::last_dot(tp)),
        tp.subrange(service_type::last_dot(tp) + 1, tp.len() as int),
    )
}

pub open spec fn wires_expected() -> Seq<char> {
    "String or Seq(element:String) or None"@
}

/// Reads one service: a mapping with a string `type` (a full service type name), a
/// string `uri`, and `wires` that are `Null` (no output), a string (one receiver) or a
/// sequence (its strings are the receivers).
pub open spec fn parse_service(v: ValueModel) -> Result<(NodeModel, OutputWireModel), ConfigErrorModel> {
    match v {
        ValueModel::Mapping(m) => match model::map_get(m, "type"@) {
            None => Err(ConfigErrorModel::NotFoundKey("type"@)),
            Some(ValueModel::String(tp)) => match model::map_get(m, "uri"@) {
                None => Err(ConfigErrorModel::NotFoundKey("uri"@)),
                Some(ValueModel::String(uri)) => {
                    let wire = match model::map_get(m, "wires"@) {
                        None => Err(ConfigErrorModel::NotFoundKey("wires"@)),
                        Some(ValueModel::Null) => Ok(OutputWireModel::Unwired),
                        Some(ValueModel::String(w)) => Ok(OutputWireModel::Single(uri, w)),
                        Some(ValueModel::Sequence(xs)) => Ok(
                            OutputWireModel::Fanout(uri, strings_of(xs)),
                        ),
                        Some(_) => Err(
                            ConfigErrorModel::InvalidKeyType("wires"@, wires_expected()),
                        ),
                    };
                    match wire {
                        Err(e) => Err(e),
                        Ok(w) => match full_name_error(tp) {
                            Some(e) => Err(e),
                            None => Ok(
                                (NodeModel { service_type: full_name_parts(tp), uri, config: v }, w),
                            ),
                        },
                    }
                },
                Some(_) => Err(ConfigErrorModel::InvalidKeyType("uri"@, "String"@)),
            },
            Some(_) => Err(ConfigErrorModel::InvalidKeyType("type"@, "String"@)),
        },
        _ => Err(ConfigErrorModel::InvalidKeyType("service"@, "map"@)),
    }
}

/// The nodes, the outgoing wires and the incoming wires of a graph.
pub struct GraphModel {
    pub nodes: Seq<NodeModel>,
    pub outputs: Seq<(Seq<char>, OutputWireModel)>,
    pub inputs: Seq<(Seq<char>, InputWireModel)>,
}

pub open spec fn empty_graph() -> GraphModel {
    GraphModel { nodes: Seq::empty(), outputs: Seq::empty(), inputs: Seq::empty() }
}

/// Adds a read service: its node, its outgoing wire under its URI, and, for a wire to one
/// receiver, the service as a sender of the receiver's incoming wire.
pub open spec fn add_service(g: GraphModel, n: NodeModel, w: OutputWireModel) -> GraphModel {
    GraphModel {
        nodes: g.nodes.push(n),
        outputs: model::map_insert(g.outputs, n.uri, w),
        inputs: match w {
            OutputWireModel::Single(o, i) => model::map_insert(
                g.inputs,
                i,
                match model::map_get(g.inputs, i) {
                    Some(x) => put_output(x, o),
                    None => InputWireModel::Single(o, i),
                },
            ),
            _ => g.inputs,
        },
    }
}

/// Reads the services in order; the first error ends the reading.
pub open spec fn traverse(svcs: Seq<ValueModel>) -> Result<GraphModel, ConfigErrorModel>
    decreases svcs.len(),
{
    if svcs.len() == 0 {
        Ok(empty_graph())
    } else {
        match traverse(svcs.drop_last()) {
            Err(e) => Err(e),
            Ok(g) => match parse_service(svcs.last()) {
                Err(e) => Err(e),
                Ok((n, w)) => Ok(add_service(g, n, w)),
            },
        }
    }
}

/// Reading comes to a halt at the first service whose wires are a sequence (a fan-out is
/// not supported), when no error came before.
pub open spec fn traverse_halts(svcs: Seq<ValueModel>) -> bool
    decreases svcs.len(),
{
    if svcs.len() == 0 {
        false
    } else {
        traverse_halts(svcs.drop_last()) || (traverse(svcs.drop_last()) is Ok && parse_service(
            svcs.last(),
        ) matches Ok((_, OutputWireModel::Fanout(_, _))))
    }
}

/// Every URI with an outgoing wire but no incoming wire gets an unwired input.
pub open spec fn add_unwired_inputs(
    inputs: Seq<(Seq<char>, InputWireModel)>,
    uris: Seq<Seq<char>>,
) -> Seq<(Seq<char>, InputWireModel)>
    decreases uris.len(),
{
    if uris.len() == 0 {
        inputs
    } else {
        let before = add_unwired_inputs(inputs, uris.drop_last());
        if model::map_get(before, uris.last()) is Some {
            before
        } else {
            before.push((uris.last(), InputWireModel::Unwired))
        }
    }
}

pub open spec fn finish(g: GraphModel) -> GraphModel {
    GraphModel {
        nodes: g.nodes,
        outputs: g.outputs,
        inputs: add_unwired_inputs(g.inputs, model::keys_of(g.outputs)),
    }
}

/// The graph that a configuration value describes: a mapping whose `services` are a
/// sequence of services (anything else under `services` gives an empty graph).
pub open spec fn graph_of(v: ValueModel) -> Result<GraphModel, ConfigErrorModel> {
    match v {
        ValueModel::Mapping(m) => match model::map_get(m, "services"@) {
            None => Err(ConfigErrorModel::NotFoundKey("services"@)),
            Some(ValueModel::Sequence(svcs)) => match traverse(svcs) {
                Ok(g) => Ok(finish(g)),
                Err(e) => Err(e),
            },
            Some(_) => Ok(finish(empty_graph())),
        },
        _ => Err(ConfigErrorModel::Error("invalid config. config value must be map type."@)),
    }
}

/// Reading the configuration value does not come to a halt.
pub open spec fn graph_of_defined(v: ValueModel) -> bool {
    match v {
        ValueModel::Mapping(m) => match model::map_get(m, "services"@) {
            Some(ValueModel::Sequence(svcs)) => !traverse_halts(svcs),
            _ => true,
        },
        _ => true,
    }
}

// ---------------------------------------------------------------------------
// lists of wires keyed by URI

/// A list of wires keyed by URI, by the views of its URIs and wires.
pub open spec fn wires_view<W: View>(s: Seq<(Uri, W)>) -> Seq<(Seq<char>, W::V)> {
    Seq::new(s.len(), |i: int| (s[i].0@, s[i].1@))
}

/// The position of `k` in a list of wires.
pub(crate) fn find_wire<W: View>(v: &Vec<(Uri, W)>, k: &Uri) -> (r: Option<usize>)
    ensures
        match r {
            Some(i) => model::key_index(wires_view(v@), k@) == i,
            None => model::key_index(wires_view(v@), k@) == -1,
        },
{
    let ghost m = wires_view(v@);
    let n = v.len();
    let mut i: usize = 0;
    while i < n
        invariant
            n == v@.len(),
            m == wires_view(v@),
            i <= n,
            forall|j: int| 0 <= j < i ==> m[j].0 != k@,
        decreases n - i,
    {
        if v[i].0 == *k {
            proof {
                model::lemma_key_index_at(m, k@, i as int);
            }
            return Some(i);
        }
        i = i + 1;
    }
    proof {
        model::lemma_key_index_absent(m, k@);
    }
    None
}

/// Sets the wire of `k`: in place where `k` has one, else at the end.
pub(crate) fn insert_wire<W: View>(v: &mut Vec<(Uri, W)>, k: Uri, w: W)
    ensures
        wires_view(final(v)@) == model::map_insert(wires_view(old(v)@), k@, w@),
{
    let ghost m = wires_view(old(v)@);
    match find_wire(v, &k) {
        Some(i) => {
            proof {
                model::lemma_key_index(m, k@);
            }
            v.set(i, (k, w));
            proof {
                assert(wires_view(v@) =~= m.update(i as int, (k@, w@)));
            }
        },
        None => {
            v.push((k, w));
            proof {
                assert(wires_view(v@) =~= m.push((k@, w@)));
            }
        },
    }
}

// ---------------------------------------------------------------------------
// reading one service

/// The receivers named by the string values among `xs`, in order.
fn receivers(xs: &Vec<Value>) -> (r: Vec<Uri>)
    ensures
        uris_view(r@) == strings_of(value::models(xs@)),
{
    let n = xs.len();
    let mut r: Vec<Uri> = Vec::new();
    let mut i: usize = 0;
    while i < n
        invariant
            n == xs@.len(),
            i <= n,
            uris_view(r@) == strings_of(value::models(xs@).take(i as int)),
        decreases n - i,
    {
        let ghost before = r@;
        proof {
            assert(value::models(xs@).take(i as int + 1).drop_last() =~= value::models(xs@).take(i as int));
            value::lemma_view(&xs@[i as int]);
        }
        match xs[i].as_str() {
            Some(s) => {
                r.push(Uri::new(s));
                proof {
                    assert(uris_view(r@) =~= uris_view(before).push(s@));
                }
            },
            None => {},
        }
        i = i + 1;
    }
    proof {
        assert(value::models(xs@).take(n as int) =~= value::models(xs@));
    }
    r
}

/// Reads one service of the configuration (see `parse_service`).
fn try_traverse_service(v: &Value) -> (r: Result<(Node, OutputWire), ConfigError>)
    ensures
        match r {
            Ok((n, w)) => parse_service(v@) == Ok::<(NodeModel, OutputWireModel), ConfigErrorModel>((n@, w@)),
            Err(e) => parse_service(v@) == Err::<(NodeModel, OutputWireModel), ConfigErrorModel>(e@),
        },
{
    let map = match v.as_map() {
        Some(m) => m,
        None => {
            return Err(ConfigError::invalid_key_type("service", "map"));
        },
    };
    let tp = match map.get("type") {
        Some(kind) => match kind.as_str() {
            Some(k) => k,
            None => {
                return Err(ConfigError::invalid_key_type("type", "String"));
            },
        },
        None => {
            return Err(ConfigError::not_found_key("type"));
        },
    };
    let uri = match map.get("uri") {
        Some(u) => match u.as_str() {
            Some(s) => s,
            None => {
                return Err(ConfigError::invalid_key_type("uri", "String"));
            },
        },
        None => {
            return Err(ConfigError::not_found_key("uri"));
        },
    };
    let wire = match map.get("wires") {
        Some(wires) => {
            proof {
                value::lemma_view(wires);
            }
            match wires {
                Value::Null => OutputWire::Unwired,
                Value::String(w) => OutputWire::Single(Uri::new(uri), Uri::new(w.as_str())),
                Value::Sequence(xs) => OutputWire::Fanout(Uri::new(uri), receivers(xs)),
                _ => {
                    return Err(
                        ConfigError::invalid_key_type(
                            "wires",
                            "String or Seq(element:String) or None",
                        ),
                    );
                },
            }
        },
        None => {
            return Err(ConfigError::not_found_key("wires"));
        },
    };
    let tp = match ServiceType::from_full_name(tp) {
        Ok(t) => t,
        Err(e) => {
            return Err(e);
        },
    };
    let n = Node::new(tp, Uri::new(uri), v.deep_copy());
    Ok((n, wire))
}

// ---------------------------------------------------------------------------
// facts about the reading

/// An error of a prefix of the services is the error of all of them.
pub proof fn lemma_traverse_prefix_err(svcs: Seq<ValueModel>, i: int)
    requires
        0 <= i <= svcs.len(),
        traverse(svcs.take(i)) is Err,
    ensures
        traverse(svcs) == traverse(svcs.take(i)),
    decreases svcs.len() - i,
{
    if i < svcs.len() {
        assert(svcs.take(i + 1).drop_last() =~= svcs.take(i));
        lemma_traverse_prefix_err(svcs, i + 1);
    } else {
        assert(svcs.take(i) =~= svcs);
    }
}

/// A halt in the reading of a prefix is a halt in the reading of all the services.
pub proof fn lemma_traverse_halts_prefix(svcs: Seq<ValueModel>, i: int)
    requires
        0 <= i <= svcs.len(),
        traverse_halts(svcs.take(i)),
    ensures
        traverse_halts(svcs),
    decreases svcs.len() - i,
{
    if i < svcs.len() {
        assert(svcs.take(i + 1).drop_last() =~= svcs.take(i));
        lemma_traverse_halts_prefix(svcs, i + 1);
    } else {
        assert(svcs.take(i) =~= svcs);
    }
}

/// No incoming wire in the list is unwired.
pub open spec fn all_wired(inputs: Seq<(Seq<char>, InputWireModel)>) -> bool {
    forall|j: int| 0 <= j < inputs.len() ==> !(#[trigger] inputs[j].1 is Unwired)
}

proof fn lemma_insert_wired(inputs: Seq<(Seq<char>, InputWireModel)>, k: Seq<char>, w: InputWireModel)
    requires
        all_wired(inputs),
        !(w is Unwired),
    ensures
        all_wired(model::map_insert(inputs, k, w)),
{
    model::lemma_key_index(inputs, k);
}

// ---------------------------------------------------------------------------
// the graph

/// The services of a task and the wires between them.
#[derive(Debug)]
pub struct Graph {
    nodes: Vec<Node>,
    outputs: Vec<(Uri, OutputWire)>,
    inputs: Vec<(Uri, InputWire)>,
}

/// The views of a list of nodes.
pub open spec fn nodes_view(s: Seq<Node>) -> Seq<NodeModel> {
    Seq::new(s.len(), |i: int| s[i]@)
}

impl View for Graph {
    type V = GraphModel;

    closed spec fn view(&self) -> GraphModel {
        GraphModel {
            nodes: nodes_view(self.nodes@),
            outputs: wires_view(self.outputs@),
            inputs: wires_view(self.inputs@),
        }
    }
}

impl Graph {
    /// Reads the services of a sequence value (anything else has none) and completes the
    /// incoming wires.
    fn try_traverse_services(v: &Value) -> (r: Result<Graph, ConfigError>)
        requires
            v@ matches ValueModel::Sequence(svcs) ==> !traverse_halts(svcs),
        ensures
            match v@ {
                ValueModel::Sequence(svcs) => match traverse(svcs) {
                    Ok(g) => r matches Ok(x) && x@ == finish(g),
                    Err(e) => r matches Err(x) && x@ == e,
                },
                _ => r matches Ok(x) && x@ == finish(empty_graph()),
            },
    {
        let mut nodes: Vec<Node> = Vec::new();
        let mut outputs: Vec<(Uri, OutputWire)> = Vec::new();
        let mut inputs: Vec<(Uri, InputWire)> = Vec::new();
        proof {
            value::lemma_view(v);
            assert(nodes_view(nodes@) =~= Seq::<NodeModel>::empty());
            assert(wires_view(outputs@) =~= Seq::<(Seq<char>, OutputWireModel)>::empty());
            assert(wires_view(inputs@) =~= Seq::<(Seq<char>, InputWireModel)>::empty());
        }
        match v {
            Value::Sequence(xs) => {
                let ghost svcs = value::models(xs@);
                let n = xs.len();
                let mut i: usize = 0;
                proof {
                    assert(svcs.take(0) =~= Seq::<ValueModel>::empty());
                }
                while i < n
                    invariant
                        n == xs@.len(),
                        i <= n,
                        svcs == value::models(xs@),
                        v@ == ValueModel::Sequence(svcs),
                        !traverse_halts(svcs),
                        traverse(svcs.take(i as int)) == Ok::<GraphModel, ConfigErrorModel>(
                            GraphModel {
                                nodes: nodes_view(nodes@),
                                outputs: wires_view(outputs@),
                                inputs: wires_view(inputs@),
                            },
                        ),
                        all_wired(wires_view(inputs@)),
                    decreases n - i,
                {
                    let ghost g = GraphModel {
                        nodes: nodes_view(nodes@),
                        outputs: wires_view(outputs@),
                        inputs: wires_view(inputs@),
                    };
                    proof {
                        assert(svcs.take(i + 1).drop_last() =~= svcs.take(i as int));
                        assert(svcs.take(i + 1).last() == xs@[i as int]@);
                    }
                    let (node, w) = match try_traverse_service(&xs[i]) {
                        Ok(p) => p,
                        Err(e) => {
                            proof {
                                assert(traverse(svcs.take(i + 1)) == Err::<GraphModel, ConfigErrorModel>(e@));
                                lemma_traverse_prefix_err(svcs, i + 1);
                            }
                            return Err(e);
                        },
                    };
                    proof {
                        if w@ is Fanout {
                            lemma_traverse_halts_prefix(svcs, i + 1);
                        }
                    }
                    insert_wire(&mut outputs, node.uri(), w.clone());
                    match &w {
                        OutputWire::Single(o, to) => {
                            let ghost base = wires_view(inputs@);
                            let new_wire = match find_wire(&inputs, to) {
                                Some(k) => {
                                    proof {
                                        model::lemma_key_index(base, to@);
                                    }
                                    inputs[k].1.put_output(o.clone())
                                },
                                None => InputWire::Single(o.clone(), to.clone()),
                            };
                            proof {
                                lemma_insert_wired(base, to@, new_wire@);
                            }
                            insert_wire(&mut inputs, to.clone(), new_wire);
                        },
                        OutputWire::Fanout(_, _) => {},
                        OutputWire::Unwired => {},
                    }
                    let ghost before = nodes@;
                    nodes.push(node);
                    proof {
                        assert(nodes_view(nodes@) =~= nodes_view(before).push(node@));
                    }
                    i = i + 1;
                }
                proof {
                    assert(svcs.take(n as int) =~= svcs);
                }
            },
            _ => {},
        }
        let ghost keys = model::keys_of(wires_view(outputs@));
        let ghost base = wires_view(inputs@);
        let m = outputs.len();
        let mut j: usize = 0;
        proof {
            assert(keys.take(0) =~= Seq::<Seq<char>>::empty());
        }
        while j < m
            invariant
                m == outputs@.len(),
                j <= m,
                keys == model::keys_of(wires_view(outputs@)),
                wires_view(inputs@) == add_unwired_inputs(base, keys.take(j as int)),
            decreases m - j,
        {
            proof {
                assert(keys.take(j + 1).drop_last() =~= keys.take(j as int));
                assert(keys.take(j + 1).last() == outputs@[j as int].0@);
            }
            if find_wire(&inputs, &outputs[j].0).is_none() {
                let ghost before = inputs@;
                inputs.push((outputs[j].0.clone(), InputWire::Unwired));
                proof {
                    assert(wires_view(inputs@) =~= wires_view(before).push(
                        (outputs@[j as int].0@, InputWireModel::Unwired),
                    ));
                }
            }
            j = j + 1;
        }
        proof {
            assert(keys.take(m as int) =~= keys);
        }
        Ok(Graph { nodes, outputs, inputs })
    }
}

impl Graph {
    /// Reads the graph of a task from its configuration value (see `graph_of`).
    pub fn from(v: Value) -> (r: Result<Graph, ConfigError>)
        requires
            graph_of_defined(v@),
        ensures
            match graph_of(v@) {
                Ok(g) => r matches Ok(x) && x@ == g,
                Err(e) => r matches Err(x) && x@ == e,
            },
    {
        proof {
            value::lemma_view(&v);
        }
        match &v {
            Value::Mapping(map) => match map.get("services") {
                Some(services) => {
                    proof {
                        value::lemma_view(services);
                    }
                    Graph::try_traverse_services(services)
                },
                None => Err(ConfigError::not_found_key("services")),
            },
            _ => Err(ConfigError::error("invalid config. config value must be map type.")),
        }
    }

    /// The first node with the URI `uri`.
    pub fn by_uri(&self, uri: &Uri) -> (r: Option<Node>)
        ensures
            match r {
                Some(n) => exists|i: int|
                    0 <= i < self@.nodes.len() && self@.nodes[i] == n@ && n@.uri == uri@
                        && forall|j: int| 0 <= j < i ==> self@.nodes[j].uri != uri@,
                None => forall|j: int| 0 <= j < self@.nodes.len() ==> self@.nodes[j].uri != uri@,
            },
    {
        let n = self.nodes.len();
        let mut i: usize = 0;
        while i < n
            invariant
                n == self.nodes@.len(),
                i <= n,
                forall|j: int| 0 <= j < i ==> self@.nodes[j].uri != uri@,
            decreases n - i,
        {
            let u = self.nodes[i].uri();
            if u == *uri {
                let node = self.nodes[i].clone();
                proof {
                    assert(self@.nodes[i as int] == node@);
                }
                return Some(node);
            }
            i = i + 1;
        }
        None
    }

    /// Walks the nodes in the order of the configuration.
    pub fn iter(&self) -> (it: NodeIterator<'_>)
        ensures
            it.well_formed(),
            it.remaining() == self@.nodes,
    {
        let len = self.nodes.len();
        let it = NodeIterator { graph: self, cur: 0, len };
        proof {
            assert(nodes_view(self.nodes@).subrange(0, len as int) =~= self@.nodes);
        }
        it
    }

    /// The outgoing wires, each under the URI of its sender.
    pub fn outputs(&self) -> (r: &Vec<(Uri, OutputWire)>)
        ensures
            wires_view(r@) == self@.outputs,
    {
        &self.outputs
    }

    /// The incoming wires, each under the URI of its receiver.
    pub fn inputs(&self) -> (r: &Vec<(Uri, InputWire)>)
        ensures
            wires_view(r@) == self@.inputs,
    {
        &self.inputs
    }
}

/// Walks the nodes of a graph from both ends.
pub struct NodeIterator<'a> {
    graph: &'a Graph,
    cur: usize,
    len: usize,
}

impl<'a> NodeIterator<'a> {
    pub closed spec fn well_formed(&self) -> bool {
        self.cur <= self.len <= self.graph.nodes@.len()
    }

    /// The nodes not walked yet, from the front to the back.
    pub closed spec fn remaining(&self) -> Seq<NodeModel> {
        nodes_view(self.graph.nodes@).subrange(self.cur as int, self.len as int)
    }

    /// The next node from the front.
    pub fn next(&mut self) -> (r: Option<Node>)
        requires
            old(self).well_formed(),
        ensures
            final(self).well_formed(),
            old(self).remaining().len() == 0 ==> r is None && final(self).remaining() == old(
                self,
            ).remaining(),
            old(self).remaining().len() > 0 ==> (r matches Some(n) && n@ == old(self).remaining()[0]
                && final(self).remaining() == old(self).remaining().drop_first()),
    {
        if self.cur == self.len {
            None
        } else {
            let e = self.graph.nodes[self.cur].clone();
            self.cur = self.cur + 1;
            proof {
                assert(self.remaining() =~= old(self).remaining().drop_first());
            }
            Some(e)
        }
    }

    /// The next node from the back.
    pub fn next_back(&mut self) -> (r: Option<Node>)
        requires
            old(self).well_formed(),
        ensures
            final(self).well_formed(),
            old(self).remaining().len() == 0 ==> r is None && final(self).remaining() == old(
                self,
            ).remaining(),
            old(self).remaining().len() > 0 ==> (r matches Some(n) && n@ == old(self).remaining().last()
                && final(self).remaining() == old(self).remaining().drop_last()),
    {
        if self.cur == self.len {
            None
        } else {
            self.len = self.len - 1;
            let e = self.graph.nodes[self.len].clone();
            proof {
                assert(self.remaining() =~= old(self).remaining().drop_last());
            }
            Some(e)
        }
    }
}

} // verus!

verus! {

proof fn lemma_map_get_push<V>(m: Seq<(Seq<char>, V)>, e: (Seq<char>, V), k: Seq<char>)
    ensures
        model::map_get(m, k) is Some ==> model::map_get(m.push(e), k) is Some,
        e.0 == k ==> model::map_get(m.push(e), k) is Some,
{
    model::lemma_key_index(m, k);
    model::lemma_key_index(m.push(e), k);
    if model::map_get(m, k) is Some {
        let i = model::key_index(m, k);
        assert(m.push(e)[i].0 == k);
    }
    if e.0 == k {
        assert(m.push(e)[m.len() as int].0 == k);
    }
}

/// After the unwired inputs were added, every URI of the list, and every URI that had an
/// incoming wire before, has an incoming wire.
proof fn lemma_add_unwired_inputs(
    inputs: Seq<(Seq<char>, InputWireModel)>,
    uris: Seq<Seq<char>>,
    k: Seq<char>,
)
    ensures
        (uris.contains(k) || model::map_get(inputs, k) is Some) ==> model::map_get(
            add_unwired_inputs(inputs, uris),
            k,
        ) is Some,
    decreases uris.len(),
{
    if uris.len() > 0 {
        let before = add_unwired_inputs(inputs, uris.drop_last());
        lemma_add_unwired_inputs(inputs, uris.drop_last(), k);
        lemma_map_get_push(before, (uris.last(), InputWireModel::Unwired), k);
        if uris.contains(k) && !uris.drop_last().contains(k) {
            let i = choose|i: int| 0 <= i < uris.len() && uris[i] == k;
            if i < uris.len() - 1 {
                assert(uris.drop_last()[i] == k);
            }
            assert(uris.last() == k);
        }
    }
}

/// Every URI that has an outgoing wire in a graph read from a configuration also has an
/// incoming wire (an unwired one where no service sends to it).
pub proof fn law_graph_inputs_cover_outputs(v: ValueModel, j: int)
    requires
        graph_of(v) is Ok,
        0 <= j < graph_of(v)->Ok_0.outputs.len(),
    ensures
        model::map_get(graph_of(v)->Ok_0.inputs, graph_of(v)->Ok_0.outputs[j].0) is Some,
{
    let g = graph_of(v)->Ok_0;
    let base = match v {
        ValueModel::Mapping(m) => match model::map_get(m, "services"@) {
            Some(ValueModel::Sequence(svcs)) => traverse(svcs)->Ok_0,
            _ => empty_graph(),
        },
        _ => empty_graph(),
    };
    assert(g == finish(base));
    let keys = model::keys_of(base.outputs);
    assert(keys[j] == g.outputs[j].0);
    assert(keys.contains(g.outputs[j].0));
    lemma_add_unwired_inputs(base.inputs, keys, g.outputs[j].0);
}


/// The incoming wire `w` leads to `k`.
pub open spec fn wire_leads_to(w: InputWireModel, k: Seq<char>) -> bool {
    match w {
        InputWireModel::Single(_, i) => i == k,
        InputWireModel::Fanin(_, i) => i == k,
        InputWireModel::Unwired => true,
    }
}

/// Every incoming wire is kept under the URI that it leads to.
pub open spec fn inputs_keyed_by_target(inputs: Seq<(Seq<char>, InputWireModel)>) -> bool {
    forall|q: int| 0 <= q < inputs.len() ==> wire_leads_to(#[trigger] inputs[q].1, inputs[q].0)
}

proof fn lemma_keyed_insert(inputs: Seq<(Seq<char>, InputWireModel)>, k: Seq<char>, w: InputWireModel)
    requires
        inputs_keyed_by_target(inputs),
        wire_leads_to(w, k),
    ensures
        inputs_keyed_by_target(model::map_insert(inputs, k, w)),
{
    model::lemma_key_index(inputs, k);
    let r = model::map_insert(inputs, k, w);
    assert forall|q: int| 0 <= q < r.len() implies wire_leads_to(#[trigger] r[q].1, r[q].0) by {
        if q < inputs.len() && r[q] == inputs[q] {
            assert(wire_leads_to(inputs[q].1, inputs[q].0));
        }
    }
}

proof fn lemma_traverse_keyed(svcs: Seq<ValueModel>)
    requires
        traverse(svcs) is Ok,
    ensures
        inputs_keyed_by_target(traverse(svcs)->Ok_0.inputs),
    decreases svcs.len(),
{
    if svcs.len() > 0 {
        lemma_traverse_keyed(svcs.drop_last());
        let g = traverse(svcs.drop_last())->Ok_0;
        let (n, w) = parse_service(svcs.last())->Ok_0;
        match w {
            OutputWireModel::Single(o, i) => {
                model::lemma_key_index(g.inputs, i);
                let x = match model::map_get(g.inputs, i) {
                    Some(x) => put_output(x, o),
                    None => InputWireModel::Single(o, i),
                };
                if model::map_get(g.inputs, i) is Some {
                    let q = model::key_index(g.inputs, i);
                    assert(wire_leads_to(g.inputs[q].1, g.inputs[q].0));
                }
                lemma_keyed_insert(g.inputs, i, x);
            },
            _ => {},
        }
    }
}

proof fn lemma_add_unwired_keyed(inputs: Seq<(Seq<char>, InputWireModel)>, uris: Seq<Seq<char>>)
    requires
        inputs_keyed_by_target(inputs),
    ensures
        inputs_keyed_by_target(add_unwired_inputs(inputs, uris)),
    decreases uris.len(),
{
    if uris.len() > 0 {
        lemma_add_unwired_keyed(inputs, uris.drop_last());
        let before = add_unwired_inputs(inputs, uris.drop_last());
        let after = add_unwired_inputs(inputs, uris);
        assert forall|q: int| 0 <= q < after.len() implies wire_leads_to(#[trigger] after[q].1, after[q].0) by {
            if q < before.len() {
                assert(after[q] == before[q]);
            }
        }
    }
}

/// In a graph read from a configuration, every incoming wire is kept under the URI that it
/// leads to.
pub proof fn lemma_graph_inputs_keyed(v: ValueModel)
    requires
        graph_of(v) is Ok,
    ensures
        inputs_keyed_by_target(graph_of(v)->Ok_0.inputs),
{
    let base = match v {
        ValueModel::Mapping(m) => match model::map_get(m, "services"@) {
            Some(ValueModel::Sequence(svcs)) => {
                lemma_traverse_keyed(svcs);
                traverse(svcs)->Ok_0
            },
            _ => empty_graph(),
        },
        _ => empty_graph(),
    };
    lemma_add_unwired_keyed(base.inputs, model::keys_of(base.outputs));
}


/// The senders of an incoming wire, in order.
pub open spec fn senders_of(w: InputWireModel) -> Seq<Seq<char>> {
    match w {
        InputWireModel::Single(o, _) => seq![o],
        InputWireModel::Fanin(os, _) => os,
        InputWireModel::Unwired => Seq::empty(),
    }
}

/// The receiver of an incoming wire (`None` for an unwired one).
pub open spec fn receiver_of(w: InputWireModel) -> Option<Seq<char>> {
    match w {
        InputWireModel::Single(_, i) => Some(i),
        InputWireModel::Fanin(_, i) => Some(i),
        InputWireModel::Unwired => None,
    }
}

/// Adding a sender to a wired input makes a fan-in whose senders are the earlier ones, in
/// their order, followed by the new one, towards the same receiver.
pub proof fn law_put_output_appends(w: InputWireModel, u: Seq<char>)
    requires
        !(w is Unwired),
    ensures
        put_output(w, u) is Fanin,
        senders_of(put_output(w, u)) == senders_of(w).push(u),
        receiver_of(put_output(w, u)) == receiver_of(w),
{
    match w {
        InputWireModel::Single(o, _) => {
            assert(seq![o, u] =~= seq![o].push(u));
        },
        _ => {},
    }
}


/// The services, in their order, whose wire leads to `t` alone.
pub open spec fn senders_to(svcs: Seq<ValueModel>, t: Seq<char>) -> Seq<Seq<char>>
    decreases svcs.len(),
{
    if svcs.len() == 0 {
        Seq::empty()
    } else {
        let rest = senders_to(svcs.drop_last(), t);
        match parse_service(svcs.last()) {
            Ok((_, OutputWireModel::Single(o, i))) => if i == t {
                rest.push(o)
            } else {
                rest
            },
            _ => rest,
        }
    }
}

/// The incoming wire of `t` after reading `svcs`: none where no service sends to `t`, one
/// sender for a single one, a fan-in of the senders in their order for more.
pub open spec fn wire_fits(w: Option<InputWireModel>, senders: Seq<Seq<char>>, t: Seq<char>) -> bool {
    match w {
        None => senders.len() == 0,
        Some(w) => {
            &&& senders.len() > 0
            &&& !(w is Unwired)
            &&& senders_of(w) == senders
            &&& receiver_of(w) == Some(t)
            &&& (w is Single <==> senders.len() == 1)
        },
    }
}

proof fn lemma_traverse_inputs(svcs: Seq<ValueModel>, t: Seq<char>)
    requires
        traverse(svcs) is Ok,
    ensures
        wire_fits(model::map_get(traverse(svcs)->Ok_0.inputs, t), senders_to(svcs, t), t),
    decreases svcs.len(),
{
    if svcs.len() > 0 {
        let rest = svcs.drop_last();
        lemma_traverse_inputs(rest, t);
        let g = traverse(rest)->Ok_0;
        let (n, w) = parse_service(svcs.last())->Ok_0;
        let sr = senders_to(rest, t);
        assert(traverse(svcs)->Ok_0 == add_service(g, n, w));
        match w {
            OutputWireModel::Single(o, i) => {
                let x = match model::map_get(g.inputs, i) {
                    Some(x) => put_output(x, o),
                    None => InputWireModel::Single(o, i),
                };
                assert(traverse(svcs)->Ok_0.inputs == model::map_insert(g.inputs, i, x));
                model::lemma_map_insert_get(g.inputs, i, x, t);
                if i == t {
                    assert(senders_to(svcs, t) == sr.push(o));
                    if let Some(y) = model::map_get(g.inputs, i) {
                        law_put_output_appends(y, o);
                    } else {
                        assert(sr.len() == 0);
                        assert(seq![o] =~= sr.push(o));
                    }
                } else {
                    assert(senders_to(svcs, t) == sr);
                }
            },
            _ => {
                assert(senders_to(svcs, t) == sr);
            },
        }
    }
}

proof fn lemma_traverse_nodes(svcs: Seq<ValueModel>)
    requires
        traverse(svcs) is Ok,
    ensures
        traverse(svcs)->Ok_0.nodes.len() == svcs.len(),
        forall|j: int|
            0 <= j < svcs.len() ==> parse_service(#[trigger] svcs[j]) is Ok
                && traverse(svcs)->Ok_0.nodes[j] == parse_service(svcs[j])->Ok_0.0,
    decreases svcs.len(),
{
    if svcs.len() > 0 {
        let rest = svcs.drop_last();
        lemma_traverse_nodes(rest);
        assert forall|j: int| 0 <= j < svcs.len() implies parse_service(#[trigger] svcs[j]) is Ok
            && traverse(svcs)->Ok_0.nodes[j] == parse_service(svcs[j])->Ok_0.0 by {
            if j < svcs.len() - 1 {
                assert(rest[j] == svcs[j]);
            }
        }
    }
}

/// No two services share a URI.
pub open spec fn uris_distinct(svcs: Seq<ValueModel>) -> bool {
    forall|a: int, b: int|
        0 <= a < b < svcs.len() ==> parse_service(#[trigger] svcs[a])->Ok_0.0.uri != parse_service(
            #[trigger] svcs[b],
        )->Ok_0.0.uri
}

proof fn lemma_traverse_outputs(svcs: Seq<ValueModel>)
    requires
        traverse(svcs) is Ok,
        uris_distinct(svcs),
    ensures
        forall|j: int|
            0 <= j < svcs.len() ==> model::map_get(
                traverse(svcs)->Ok_0.outputs,
                #[trigger] parse_service(svcs[j])->Ok_0.0.uri,
            ) == Some(parse_service(svcs[j])->Ok_0.1),
    decreases svcs.len(),
{
    if svcs.len() > 0 {
        let rest = svcs.drop_last();
        assert forall|a: int, b: int| 0 <= a < b < rest.len() implies parse_service(#[trigger] rest[a])->Ok_0.0.uri
            != parse_service(#[trigger] rest[b])->Ok_0.0.uri by {
            assert(rest[a] == svcs[a] && rest[b] == svcs[b]);
        }
        lemma_traverse_outputs(rest);
        lemma_traverse_nodes(svcs);
        let g = traverse(rest)->Ok_0;
        let (n, w) = parse_service(svcs.last())->Ok_0;
        assert forall|j: int| 0 <= j < svcs.len() implies model::map_get(
            traverse(svcs)->Ok_0.outputs,
            #[trigger] parse_service(svcs[j])->Ok_0.0.uri,
        ) == Some(parse_service(svcs[j])->Ok_0.1) by {
            let k = parse_service(svcs[j])->Ok_0.0.uri;
            model::lemma_map_insert_get(g.outputs, n.uri, w, k);
            if j < svcs.len() - 1 {
                assert(rest[j] == svcs[j]);
                assert(svcs[svcs.len() - 1] == svcs.last());
            }
        }
    }
}

proof fn lemma_add_unwired_get(
    inputs: Seq<(Seq<char>, InputWireModel)>,
    uris: Seq<Seq<char>>,
    k: Seq<char>,
)
    ensures
        model::map_get(add_unwired_inputs(inputs, uris), k) == if model::map_get(inputs, k) is Some {
            model::map_get(inputs, k)
        } else if uris.contains(k) {
            Some(InputWireModel::Unwired)
        } else {
            None
        },
    decreases uris.len(),
{
    if uris.len() > 0 {
        let before = add_unwired_inputs(inputs, uris.drop_last());
        lemma_add_unwired_get(inputs, uris.drop_last(), k);
        if model::map_get(before, uris.last()) is None {
            let e = (uris.last(), InputWireModel::Unwired);
            model::lemma_key_index(before, k);
            model::lemma_key_index(before.push(e), k);
            if model::map_get(before, k) is Some {
                let i = model::key_index(before, k);
                assert(before.push(e)[i] == before[i]);
                model::lemma_key_index_at(before.push(e), k, i);
            } else if e.0 == k {
                model::lemma_key_index_absent(before, k);
                model::lemma_key_index_at(before.push(e), k, before.len() as int);
            } else {
                model::lemma_key_index_absent(before, k);
                assert forall|j: int| 0 <= j < before.push(e).len() implies before.push(e)[j].0 != k by {
                    if j < before.len() {
                        assert(before.push(e)[j] == before[j]);
                    }
                }
                model::lemma_key_index_absent(before.push(e), k);
            }
        }
        if uris.drop_last().contains(k) {
            let i = choose|i: int| 0 <= i < uris.drop_last().len() && uris.drop_last()[i] == k;
            assert(uris[i] == k);
        }
        if uris.contains(k) && !uris.drop_last().contains(k) {
            let i = choose|i: int| 0 <= i < uris.len() && uris[i] == k;
            if i < uris.len() - 1 {
                assert(uris.drop_last()[i] == k);
            }
        }
    }
}

/// The shape of a graph read from a list of services: its nodes are the services, in their
/// order; with distinct URIs, each service's outgoing wire is kept under its URI; and the
/// incoming wire of a URI is a single wire from its one sender, a fan-in of its senders in
/// their order where there are more, an unwired input where nothing sends to a URI that has
/// an outgoing wire, and none otherwise.
pub proof fn law_graph_shape(svcs: Seq<ValueModel>, t: Seq<char>)
    requires
        traverse(svcs) is Ok,
    ensures
        finish(traverse(svcs)->Ok_0).nodes.len() == svcs.len(),
        forall|j: int|
            0 <= j < svcs.len() ==> #[trigger] finish(traverse(svcs)->Ok_0).nodes[j] == parse_service(
                svcs[j],
            )->Ok_0.0,
        uris_distinct(svcs) ==> forall|j: int|
            0 <= j < svcs.len() ==> model::map_get(
                finish(traverse(svcs)->Ok_0).outputs,
                #[trigger] parse_service(svcs[j])->Ok_0.0.uri,
            ) == Some(parse_service(svcs[j])->Ok_0.1),
        senders_to(svcs, t).len() > 0 ==> wire_fits(
            model::map_get(finish(traverse(svcs)->Ok_0).inputs, t),
            senders_to(svcs, t),
            t,
        ),
        senders_to(svcs, t).len() == 0 ==> model::map_get(finish(traverse(svcs)->Ok_0).inputs, t)
            == if model::keys_of(traverse(svcs)->Ok_0.outputs).contains(t) {
            Some(InputWireModel::Unwired)
        } else {
            None
        },
{
    let g = traverse(svcs)->Ok_0;
    lemma_traverse_nodes(svcs);
    if uris_distinct(svcs) {
        lemma_traverse_outputs(svcs);
    }
    lemma_traverse_inputs(svcs, t);
    lemma_add_unwired_get(g.inputs, model::keys_of(g.outputs), t);
}


/// Every node of a graph read from a configuration is the service it was read from: the
/// nodes come in the order of the services, each holds its service's value as its
/// configuration, and its URI and the full name of its type are the strings under `uri` and
/// `type` in that value.
pub proof fn law_nodes_hold_their_services(m: model::Entries, svcs: Seq<ValueModel>, j: int)
    requires
        model::map_get(m, "services"@) == Some(ValueModel::Sequence(svcs)),
        graph_of(ValueModel::Mapping(m)) is Ok,
        0 <= j < svcs.len(),
    ensures
        graph_of(ValueModel::Mapping(m))->Ok_0.nodes.len() == svcs.len(),
        graph_of(ValueModel::Mapping(m))->Ok_0.nodes[j].config == svcs[j],
        svcs[j] matches ValueModel::Mapping(e) && model::map_get(e, "uri"@) == Some(
            ValueModel::String(graph_of(ValueModel::Mapping(m))->Ok_0.nodes[j].uri),
        ) && model::map_get(e, "type"@) == Some(
            ValueModel::String(graph_of(ValueModel::Mapping(m))->Ok_0.nodes[j].service_type.0),
        ),
{
    lemma_traverse_nodes(svcs);
    assert(parse_service(svcs[j]) is Ok);
}

/// Storing under a key keeps the keys of a list distinct.
pub proof fn lemma_map_insert_distinct<V>(m: Seq<(Seq<char>, V)>, k: Seq<char>, x: V)
    requires
        model::keys_distinct(m),
    ensures
        model::keys_distinct(model::map_insert(m, k, x)),
{
    model::lemma_key_index(m, k);
    let r = model::map_insert(m, k, x);
    let i = model::key_index(m, k);
    assert forall|a: int, b: int| 0 <= a < r.len() && 0 <= b < r.len() && a != b implies r[a].0
        != r[b].0 by {
        if i >= 0 {
            assert(r[a].0 == m[a].0 && r[b].0 == m[b].0);
        } else {
            if a < m.len() && b < m.len() {
                assert(r[a] == m[a] && r[b] == m[b]);
            } else if a == m.len() {
                assert(r[b] == m[b]);
            } else {
                assert(r[a] == m[a]);
            }
        }
    }
}

proof fn lemma_traverse_distinct(svcs: Seq<ValueModel>)
    requires
        traverse(svcs) is Ok,
    ensures
        model::keys_distinct(traverse(svcs)->Ok_0.inputs),
    decreases svcs.len(),
{
    if svcs.len() > 0 {
        lemma_traverse_distinct(svcs.drop_last());
        let g = traverse(svcs.drop_last())->Ok_0;
        let (n, w) = parse_service(svcs.last())->Ok_0;
        match w {
            OutputWireModel::Single(o, i) => {
                let x = match model::map_get(g.inputs, i) {
                    Some(x) => put_output(x, o),
                    None => InputWireModel::Single(o, i),
                };
                lemma_map_insert_distinct(g.inputs, i, x);
            },
            _ => {},
        }
    }
}

proof fn lemma_add_unwired_distinct(inputs: Seq<(Seq<char>, InputWireModel)>, uris: Seq<Seq<char>>)
    requires
        model::keys_distinct(inputs),
    ensures
        model::keys_distinct(add_unwired_inputs(inputs, uris)),
    decreases uris.len(),
{
    if uris.len() > 0 {
        lemma_add_unwired_distinct(inputs, uris.drop_last());
        let before = add_unwired_inputs(inputs, uris.drop_last());
        if model::map_get(before, uris.last()) is None {
            model::lemma_key_index(before, uris.last());
            let after = before.push((uris.last(), InputWireModel::Unwired));
            assert forall|a: int, b: int| 0 <= a < after.len() && 0 <= b < after.len() && a != b implies after[a].0
                != after[b].0 by {
                if a < before.len() {
                    assert(after[a] == before[a]);
                }
                if b < before.len() {
                    assert(after[b] == before[b]);
                }
            }
        }
    }
}

/// In a graph read from a list of services, no URI has two incoming wires, and every
/// incoming wire is kept under the URI it leads to.
pub proof fn lemma_graph_inputs_distinct(svcs: Seq<ValueModel>)
    requires
        traverse(svcs) is Ok,
    ensures
        model::keys_distinct(finish(traverse(svcs)->Ok_0).inputs),
        inputs_keyed_by_target(finish(traverse(svcs)->Ok_0).inputs),
{
    let g = traverse(svcs)->Ok_0;
    lemma_traverse_distinct(svcs);
    lemma_add_unwired_distinct(g.inputs, model::keys_of(g.outputs));
    lemma_traverse_keyed(svcs);
    lemma_add_unwired_keyed(g.inputs, model::keys_of(g.outputs));
}

} // verus!
