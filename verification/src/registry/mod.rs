//! Registry of services: which service types a plugin knows, and handing a service of a known
//! type to an executor.

pub mod app;
pub mod layered;
pub mod plugin;
pub mod port_type;
pub mod service_set;

pub use app::App;
pub use layered::Layered;
pub use plugin::Plugin;
pub use port_type::PortType;
pub use service_set::ServiceSet;

use crate::data::schema::json_schema::SchemaModel;
use crate::data::schema::JsonSchema;
use crate::error::{Error, ServiceError};
use crate::service_type::ServiceType;
use crate::service_uri::Uri;
use vstd::prelude::*;

verus! {

/// Starts the services that a registry hands over.
pub trait ServiceExecutor {
    fn spawn<F>(&mut self, service_type: &ServiceType, uri: &Uri, factory: F);
}

/// The views of a list of service types.
pub open spec fn types_view(s: Seq<ServiceType>) -> Seq<(Seq<char>, Seq<char>, Seq<char>)> {
    Seq::new(s.len(), |i: int| s[i]@)
}

/// Something that starts services by their type.
pub trait Delegator {
    /// The service types that it knows, in order.
    spec fn spec_service_types(&self) -> Seq<(Seq<char>, Seq<char>, Seq<char>)>;

    /// Hands a service of type `tp` at `uri` to `executor`; it fails for an unknown type.
    fn delegate<T: ServiceExecutor>(&self, tp: &ServiceType, uri: &Uri, executor: &mut T) -> (r:
        Result<(), ServiceError>)
        ensures
            r is Ok <==> self.spec_service_types().contains(tp@),
    ;
}

/// A set of services that can be started by their type, each with the schema of its
/// configuration.
pub trait Registry: Delegator {
    fn service_types(&self) -> (r: Vec<ServiceType>)
        ensures
            types_view(r@) == self.spec_service_types(),
    ;

    /// The schemas of the services, in the order of their types.
    spec fn spec_schemas(&self) -> Seq<SchemaView>;

    fn schemas(&self) -> (r: Vec<ServiceSchema>)
        ensures
            schemas_view(r@) == self.spec_schemas(),
            schema_types(schemas_view(r@)) == self.spec_service_types(),
    ;
}

/// The registry that knows no service.
#[derive(Debug, Clone, Copy)]
pub struct NoopEntry;

impl Delegator for NoopEntry {
    open spec fn spec_service_types(&self) -> Seq<(Seq<char>, Seq<char>, Seq<char>)> {
        Seq::empty()
    }

    /// Fails with the message that no service of type `tp` is found.
    fn delegate<T: ServiceExecutor>(&self, tp: &ServiceType, _uri: &Uri, _executor: &mut T) -> (r:
        Result<(), ServiceError>)
        ensures
            r matches Err(e) && e.is_custom(crate::error::not_found_text(tp.full_name_view())),
    {
        Err(ServiceError::service_not_found(tp))
    }
}

impl Registry for NoopEntry {
    fn service_types(&self) -> (r: Vec<ServiceType>) {
        let r: Vec<ServiceType> = Vec::new();
        proof {
            assert(types_view(r@) =~= Seq::<(Seq<char>, Seq<char>, Seq<char>)>::empty());
        }
        r
    }

    open spec fn spec_schemas(&self) -> Seq<SchemaView> {
        Seq::empty()
    }

    fn schemas(&self) -> (r: Vec<ServiceSchema>) {
        let r: Vec<ServiceSchema> = Vec::new();
        proof {
            assert(schemas_view(r@) =~= Seq::<SchemaView>::empty());
            assert(schema_types(schemas_view(r@)) =~= Seq::<(Seq<char>, Seq<char>, Seq<char>)>::empty());
        }
        r
    }
}

/// A plugin of the registry `registry` alone.
pub fn app<T: Registry>(registry: T) -> (r: Plugin<NoopEntry, T>)
    ensures
        r.spec_service_types() == registry.spec_service_types(),
        r.spec_schemas() == registry.spec_schemas(),
{
    let r = Plugin::new(NoopEntry, registry);
    assert(Seq::<(Seq<char>, Seq<char>, Seq<char>)>::empty() + registry.spec_service_types()
        =~= registry.spec_service_types());
    assert(Seq::<SchemaView>::empty() + registry.spec_schemas() =~= registry.spec_schemas());
    r
}

/// A registry of the one service `entry.2`, whose type is `entry.0`.`entry.1`, whose ports are
/// `port_type` and whose configuration scanned into `schema`. Both names must not be empty.
pub fn layer<F: Clone>(entry: (&str, &str, F), port_type: PortType, schema: Option<JsonSchema>) -> (r:
    Layered<NoopEntry, F>)
    requires
        entry.0@.len() > 0,
        entry.1@.len() > 0,
    ensures
        r.spec_service_types() == seq![(entry.0@ + "."@ + entry.1@, entry.0@, entry.1@)],
        r.spec_schemas() == seq![(
            (entry.0@ + "."@ + entry.1@, entry.0@, entry.1@),
            port_type,
            opt_schema_view(schema),
        )],
{
    let (name_space, service_name, factory) = entry;
    let r = Layered::new(NoopEntry, name_space, service_name, factory, port_type, schema);
    assert(r.spec_service_types() =~= seq![(entry.0@ + "."@ + entry.1@, entry.0@, entry.1@)]);
    assert(r.spec_schemas() =~= seq![(
        (entry.0@ + "."@ + entry.1@, entry.0@, entry.1@),
        port_type,
        opt_schema_view(schema),
    )]);
    r
}

/// What a service schema holds: the service type, its ports and its configuration schema.
pub type SchemaView = ((Seq<char>, Seq<char>, Seq<char>), PortType, Option<SchemaModel>);

pub open spec fn opt_schema_view(s: Option<JsonSchema>) -> Option<SchemaModel> {
    match s {
        Some(s) => Some(s@),
        None => None,
    }
}

pub open spec fn schemas_view(s: Seq<ServiceSchema>) -> Seq<SchemaView> {
    Seq::new(s.len(), |i: int| s[i]@)
}

/// The service types of a list of schemas, in order.
pub open spec fn schema_types(s: Seq<SchemaView>) -> Seq<(Seq<char>, Seq<char>, Seq<char>)> {
    Seq::new(s.len(), |i: int| s[i].0)
}

/// A copy of each schema of `v`.
pub fn clone_schemas(v: &Vec<ServiceSchema>) -> (r: Vec<ServiceSchema>)
    ensures
        schemas_view(r@) == schemas_view(v@),
{
    let mut r: Vec<ServiceSchema> = Vec::new();
    let n = v.len();
    for i in 0..n
        invariant
            n == v.len(),
            r.len() == i,
            forall|j: int| 0 <= j < i ==> r@[j]@ == v@[j]@,
    {
        r.push(v[i].clone());
    }
    assert(schemas_view(r@) =~= schemas_view(v@));
    r
}

/// The service type of each schema of `v`, in order.
pub fn types_of_schemas(v: &Vec<ServiceSchema>) -> (r: Vec<ServiceType>)
    ensures
        types_view(r@) == schema_types(schemas_view(v@)),
{
    let mut r: Vec<ServiceType> = Vec::new();
    let n = v.len();
    for i in 0..n
        invariant
            n == v.len(),
            r.len() == i,
            forall|j: int| 0 <= j < i ==> r@[j]@ == v@[j]@.0,
    {
        r.push(v[i].service_type().clone());
    }
    assert(types_view(r@) =~= schema_types(schemas_view(v@)));
    r
}

/// The configuration schema of a service type, for front ends.
#[derive(Debug)]
pub struct ServiceSchema {
    service_type: ServiceType,
    port_type: PortType,
    schema: Option<JsonSchema>,
}

impl ServiceSchema {
    /// The schema of the service `service_name` in `name_space`, whose configuration scanned
    /// into `schema` (`None` where scanning failed). Both names must not be empty.
    pub fn new(
        name_space: &str,
        service_name: &str,
        port_type: PortType,
        schema: Option<JsonSchema>,
    ) -> (r: ServiceSchema)
        requires
            name_space@.len() > 0,
            service_name@.len() > 0,
        ensures
            r.spec_service_type().name_space_view() == name_space@,
            r.spec_service_type().service_name_view() == service_name@,
            r.spec_service_type().full_name_view() == name_space@ + "."@ + service_name@,
            r.spec_port_type() == port_type,
            r.schema_view() == match schema {
                Some(s) => Some(s@),
                None => None,
            },
    {
        let tp = ServiceType::new(name_space, service_name).unwrap();
        ServiceSchema { service_type: tp, port_type, schema }
    }

    pub closed spec fn spec_service_type(&self) -> ServiceType {
        self.service_type
    }

    pub closed spec fn spec_port_type(&self) -> PortType {
        self.port_type
    }

    pub closed spec fn schema_view(&self) -> Option<crate::data::schema::json_schema::SchemaModel> {
        match self.schema {
            Some(s) => Some(s@),
            None => None,
        }
    }

    pub fn service_type(&self) -> (r: &ServiceType)
        ensures
            *r == self.spec_service_type(),
    {
        &self.service_type
    }

    pub fn port_type(&self) -> (r: &PortType)
        ensures
            *r == self.spec_port_type(),
    {
        &self.port_type
    }

    pub fn schema(&self) -> (r: Option<&JsonSchema>)
        ensures
            match r {
                Some(s) => self.schema_view() == Some(s@),
                None => self.schema_view() is None,
            },
    {
        match &self.schema {
            Some(s) => Some(s),
            None => None,
        }
    }
}

impl View for ServiceSchema {
    type V = SchemaView;

    open spec fn view(&self) -> SchemaView {
        (self.spec_service_type()@, self.spec_port_type(), self.schema_view())
    }
}

impl Clone for ServiceSchema {
    fn clone(&self) -> (r: ServiceSchema)
        ensures
            r@ == self@,
    {
        let schema = match &self.schema {
            Some(s) => Some(s.clone()),
            None => None,
        };
        ServiceSchema { service_type: self.service_type.clone(), port_type: self.port_type, schema }
    }
}

} // verus!
