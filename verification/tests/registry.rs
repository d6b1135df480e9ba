use toy_core::registry::{
    app, layer, Delegator, NoopEntry, Plugin, PortType, Registry, ServiceExecutor, ServiceSet,
};
use toy_core::{ServiceType, Uri};

struct Recorder {
    spawned: Vec<String>,
}

impl ServiceExecutor for Recorder {
    fn spawn<F>(&mut self, service_type: &ServiceType, _uri: &Uri, _factory: F) {
        self.spawned.push(service_type.full_name().to_string());
    }
}

fn names(types: Vec<ServiceType>) -> Vec<String> {
    types.iter().map(|t| t.full_name().to_string()).collect()
}

#[test]
fn plugin_delegates_known_types() {
    let a = layer(("a", "one", 1u32), PortType::source(), None);
    let b = layer(("b", "two", 2u32), PortType::flow(), None).layer(
        ("b", "three", 3u32),
        PortType::sink(),
        None,
    );
    let p = Plugin::new(a, b);
    assert_eq!(names(p.service_types()), vec!["a.one", "b.two", "b.three"]);
    let mut ex = Recorder { spawned: vec![] };
    let uri = Uri::new("u");
    assert!(p
        .delegate(&ServiceType::new("b", "three").unwrap(), &uri, &mut ex)
        .is_ok());
    assert!(p
        .delegate(&ServiceType::new("c", "none").unwrap(), &uri, &mut ex)
        .is_err());
    assert_eq!(ex.spawned, vec!["b.three".to_string()]);
}

#[test]
fn schemas_follow_the_layers() {
    let l = layer(("a", "one", 1u32), PortType::source(), None).layer(
        ("a", "two", 2u32),
        PortType::fan_in_sink(3),
        None,
    );
    let schemas = l.schemas();
    assert_eq!(schemas.len(), 2);
    assert_eq!(schemas[0].service_type().full_name(), "a.one");
    assert_eq!(*schemas[0].port_type(), PortType::Source(1));
    assert_eq!(schemas[1].service_type().full_name(), "a.two");
    assert_eq!(*schemas[1].port_type(), PortType::Sink(3));
    assert!(schemas[1].schema().is_none());
}

#[test]
fn app_keeps_the_schemas_of_its_plugins() {
    let p = app(layer(("a", "one", 1u32), PortType::source(), None))
        .with(layer(("b", "two", 2u32), PortType::flow(), None));
    let built = p.build();
    assert_eq!(names(built.service_types()), vec!["a.one", "b.two"]);
    let schemas = built.schemas();
    assert_eq!(schemas.len(), 2);
    assert_eq!(schemas[1].service_type().full_name(), "b.two");
    let mut ex = Recorder { spawned: vec![] };
    assert!(built
        .delegate(&ServiceType::new("a", "one").unwrap(), &Uri::new("u"), &mut ex)
        .is_ok());
    assert_eq!(ex.spawned, vec!["a.one".to_string()]);
}

#[test]
fn service_set_asks_inner_services_first() {
    let s = ServiceSet::new(NoopEntry, ServiceType::new("b", "two").unwrap(), 2u32)
        .service(ServiceType::new("b", "three").unwrap(), 3u32);
    let mut ex = Recorder { spawned: vec![] };
    let uri = Uri::new("u");
    assert!(s
        .delegate(&ServiceType::new("b", "two").unwrap(), &uri, &mut ex)
        .is_ok());
    assert!(s
        .delegate(&ServiceType::new("b", "four").unwrap(), &uri, &mut ex)
        .is_err());
    assert_eq!(ex.spawned, vec!["b.two".to_string()]);
}

#[test]
fn noop_entry_knows_nothing() {
    let mut ex = Recorder { spawned: vec![] };
    assert!(NoopEntry
        .delegate(&ServiceType::noop(), &Uri::new("u"), &mut ex)
        .is_err());
    assert!(NoopEntry.service_types().is_empty());
    assert!(NoopEntry.schemas().is_empty());
}

#[test]
fn noop_entry_says_the_type_is_not_found() {
    let mut ex = Recorder { spawned: vec![] };
    match NoopEntry.delegate(&ServiceType::new("a", "b").unwrap(), &Uri::new("u"), &mut ex) {
        Err(toy_core::error::ServiceError::Error { inner }) => {
            assert_eq!(inner, "not found service. service_type: a.b")
        }
        other => panic!("unexpected {:?}", other),
    }
}
