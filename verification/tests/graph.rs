use toy_core::data::{DataMap, Value};
use toy_core::graph::{Graph, InputWire, OutputWire};
use toy_core::Uri;

fn mapping(entries: Vec<(&str, Value)>) -> Value {
    let mut m = DataMap::new();
    for (k, v) in entries {
        m.insert(k.to_string(), v);
    }
    Value::from(m)
}

fn service(tp: &str, uri: &str, wires: Value) -> Value {
    mapping(vec![
        ("type", Value::from_str_slice(tp)),
        ("uri", Value::from_str_slice(uri)),
        ("wires", wires),
    ])
}

fn config(services: Vec<Value>) -> Value {
    mapping(vec![
        ("name", Value::from_str_slice("test")),
        ("services", Value::from(services)),
    ])
}

#[test]
fn graph_from_single_service() {
    let g = Graph::from(config(vec![service(
        "toy.plugin.test.dummy",
        "test",
        Value::Null,
    )]))
    .unwrap();
    let n = g.by_uri(&Uri::new("test")).unwrap();
    assert_eq!(n.service_type().full_name(), "toy.plugin.test.dummy");
    assert_eq!(n.service_type().name_space(), "toy.plugin.test");
    assert!(g.by_uri(&Uri::new("other")).is_none());
    assert_eq!(g.outputs().len(), 1);
    assert_eq!(g.inputs().len(), 1);
    assert!(matches!(g.inputs()[0].1, InputWire::Unwired));
}

#[test]
fn graph_wires_between_services() {
    let g = Graph::from(config(vec![
        service("a.first", "one", Value::from_str_slice("three")),
        service("a.second", "two", Value::from_str_slice("three")),
        service("a.third", "three", Value::Null),
    ]))
    .unwrap();
    let outs = g.outputs();
    assert_eq!(outs.len(), 3);
    match &outs[0].1 {
        OutputWire::Single(o, i) => {
            assert_eq!(o.as_str(), "one");
            assert_eq!(i.as_str(), "three");
        }
        _ => panic!("expected a single wire"),
    }
    let three = g
        .inputs()
        .iter()
        .find(|(u, _)| u.as_str() == "three")
        .unwrap();
    match &three.1 {
        InputWire::Fanin(senders, receiver) => {
            let names: Vec<&str> = senders.iter().map(|u| u.as_str()).collect();
            assert_eq!(names, vec!["one", "two"]);
            assert_eq!(receiver.as_str(), "three");
        }
        _ => panic!("expected a fan-in"),
    }
    let mut it = g.iter();
    assert_eq!(it.next().unwrap().uri().as_str(), "one");
    assert_eq!(it.next_back().unwrap().uri().as_str(), "three");
    assert_eq!(it.next().unwrap().uri().as_str(), "two");
    assert!(it.next().is_none());
}

#[test]
fn graph_errors() {
    assert!(Graph::from(Value::from(1)).is_err());
    assert!(Graph::from(mapping(vec![("name", Value::from(1))])).is_err());
    let missing_uri = mapping(vec![
        ("type", Value::from_str_slice("a.b")),
        ("wires", Value::Null),
    ]);
    assert!(Graph::from(config(vec![missing_uri])).is_err());
    assert!(Graph::from(config(vec![service("nodot", "x", Value::Null)])).is_err());
    assert!(Graph::from(config(vec![service("a.b", "x", Value::from(1))])).is_err());
}

#[test]
fn graph_services_not_a_sequence() {
    let g = Graph::from(mapping(vec![("services", Value::from(1))])).unwrap();
    assert_eq!(g.outputs().len(), 0);
    assert_eq!(g.inputs().len(), 0);
}

#[test]
fn put_output_makes_fan_in() {
    let w = InputWire::Single(Uri::new("a"), Uri::new("c"));
    match w.put_output(Uri::new("b")) {
        InputWire::Fanin(senders, receiver) => {
            assert_eq!(senders.len(), 2);
            assert_eq!(senders[1].as_str(), "b");
            assert_eq!(receiver.as_str(), "c");
        }
        _ => panic!("expected a fan-in"),
    }
}

#[test]
fn channels_from_graph() {
    let g = Graph::from(config(vec![
        service("a.first", "one", Value::from_str_slice("three")),
        service("a.second", "two", Value::from_str_slice("three")),
        service("a.third", "three", Value::Null),
    ]))
    .unwrap();
    let (mut incomings, mut outgoings, awaiter, starters, signals) =
        toy_core::node_channel::from_graph(&g);
    assert_eq!(awaiter.get_upstream_count(), 1);
    assert_eq!(starters.len(), 2);
    let (_, count) = incomings.pop(&Uri::new("three")).unwrap();
    assert_eq!(count, 2);
    let (_, count) = incomings.pop(&Uri::new("one")).unwrap();
    assert_eq!(count, 1);
    assert!(incomings.pop(&Uri::new("one")).is_none());
    let two = outgoings.pop(&Uri::new("two")).unwrap();
    assert_eq!(two.len(), 1);
    assert_eq!(two.target_input_port(0), 1);
    let three = outgoings.pop(&Uri::new("three")).unwrap();
    assert_eq!(three.len(), 1);
    assert_eq!(signals.len(), 3);
}

#[test]
fn every_service_receives() {
    let g = Graph::from(config(vec![
        service("a.first", "one", Value::from_str_slice("two")),
        service("a.second", "two", Value::Null),
        service("a.third", "alone", Value::Null),
    ]))
    .unwrap();
    let (mut incomings, _, awaiter, starters, _) = toy_core::node_channel::from_graph(&g);
    for uri in ["one", "two", "alone"] {
        assert!(incomings.pop(&Uri::new(uri)).is_some(), "{}", uri);
    }
    assert_eq!(starters.len(), 2);
    assert_eq!(awaiter.get_upstream_count(), 2);
}

#[test]
fn put_output_appends_a_sender() {
    let w = InputWire::Single(Uri::new("a"), Uri::new("t"));
    match w.put_output(Uri::new("b")).put_output(Uri::new("c")) {
        InputWire::Fanin(senders, receiver) => {
            let names: Vec<&str> = senders.iter().map(|u| u.as_str()).collect();
            assert_eq!(names, vec!["a", "b", "c"]);
            assert_eq!(receiver.as_str(), "t");
        }
        _ => panic!("expected a fan-in"),
    }
}
