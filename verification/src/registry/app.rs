//! An application: a plugin together with the schemas of all its services.

use crate::error::ServiceError;
use crate::registry::{
    clone_schemas, schema_types, schemas_view, types_of_schemas, Delegator, Registry, SchemaView,
    ServiceExecutor, ServiceSchema,
};
use crate::service_type::ServiceType;
use crate::service_uri::Uri;
use vstd::prelude::*;

verus! {

/// An application that collects plugins. The schemas of its services are read once, when it is
/// made.
#[derive(Debug)]
pub struct App<P: Registry> {
    plugin: P,
    schemas: Vec<ServiceSchema>,
}

impl<P: Registry> App<P> {
    #[verifier::type_invariant]
    spec fn schemas_read(self) -> bool {
        &&& schemas_view(self.schemas@) == self.plugin.spec_schemas()
        &&& schema_types(self.plugin.spec_schemas()) == self.plugin.spec_service_types()
    }

    pub fn new(plugin: P) -> (r: App<P>)
        ensures
            r.spec_service_types() == plugin.spec_service_types(),
            r.spec_schemas() == plugin.spec_schemas(),
    {
        let schemas = plugin.schemas();
        App { plugin, schemas }
    }
}

impl<P: Registry> Delegator for App<P> {
    closed spec fn spec_service_types(&self) -> Seq<(Seq<char>, Seq<char>, Seq<char>)> {
        self.plugin.spec_service_types()
    }

    fn delegate<T: ServiceExecutor>(&self, tp: &ServiceType, uri: &Uri, executor: &mut T) -> (r:
        Result<(), ServiceError>) {
        self.plugin.delegate(tp, uri, executor)
    }
}

impl<P: Registry> Registry for App<P> {
    fn service_types(&self) -> (r: Vec<ServiceType>) {
        proof {
            use_type_invariant(self);
        }
        types_of_schemas(&self.schemas)
    }

    closed spec fn spec_schemas(&self) -> Seq<SchemaView> {
        self.plugin.spec_schemas()
    }

    fn schemas(&self) -> (r: Vec<ServiceSchema>) {
        proof {
            use_type_invariant(self);
        }
        clone_schemas(&self.schemas)
    }
}

} // verus!
