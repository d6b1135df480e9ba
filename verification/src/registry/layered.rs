//! A registry built one layer at a time: each layer adds one service and its schema.

use crate::data::schema::JsonSchema;
use crate::error::{Error, ServiceError};
use crate::registry::{
    clone_schemas, opt_schema_view, schema_types, schemas_view, types_of_schemas, types_view,
    Delegator, PortType, Registry, SchemaView, ServiceExecutor, ServiceSchema,
};
use crate::service_type::ServiceType;
use crate::service_uri::Uri;
use vstd::prelude::*;

verus! {

/// The registry `other` with one more service: its factory and its schema. The schemas of all
/// its services are kept, in order.
#[derive(Debug)]
pub struct Layered<L: Registry, R: Clone> {
    other: L,
    factory: R,
    schema: ServiceSchema,
    schemas: Vec<ServiceSchema>,
}

impl<L: Registry, R: Clone> Layered<L, R> {
    #[verifier::type_invariant]
    spec fn schemas_kept(self) -> bool {
        &&& schemas_view(self.schemas@) == self.other.spec_schemas().push(self.schema@)
        &&& schema_types(self.other.spec_schemas()) == self.other.spec_service_types()
    }

    /// The registry `init` with the service `factory`, whose type is `name_space`.`service_name`,
    /// whose ports are `port_type` and whose configuration scanned into `schema`. Both names must
    /// not be empty.
    pub fn new(
        init: L,
        name_space: &str,
        service_name: &str,
        factory: R,
        port_type: PortType,
        schema: Option<JsonSchema>,
    ) -> (r: Layered<L, R>)
        requires
            name_space@.len() > 0,
            service_name@.len() > 0,
        ensures
            r.spec_service_types() == init.spec_service_types().push(
                (name_space@ + "."@ + service_name@, name_space@, service_name@),
            ),
            r.spec_schemas() == init.spec_schemas().push(
                (
                    (name_space@ + "."@ + service_name@, name_space@, service_name@),
                    port_type,
                    opt_schema_view(schema),
                ),
            ),
    {
        let schema = ServiceSchema::new(name_space, service_name, port_type, schema);
        let mut schemas = init.schemas();
        let ghost before = schemas@;
        schemas.push(schema.clone());
        proof {
            assert(schemas_view(schemas@) =~= schemas_view(before).push(schema@));
        }
        Layered { factory, schema, other: init, schemas }
    }

    /// This registry with the service `layer.2`, whose type is `layer.0`.`layer.1`, whose ports
    /// are `port_type` and whose configuration scanned into `schema`.
    pub fn layer<F: Clone>(
        self,
        layer: (&str, &str, F),
        port_type: PortType,
        schema: Option<JsonSchema>,
    ) -> (r: Layered<Self, F>)
        requires
            layer.0@.len() > 0,
            layer.1@.len() > 0,
        ensures
            r.spec_service_types() == self.spec_service_types().push(
                (layer.0@ + "."@ + layer.1@, layer.0@, layer.1@),
            ),
            r.spec_schemas() == self.spec_schemas().push(
                ((layer.0@ + "."@ + layer.1@, layer.0@, layer.1@), port_type, opt_schema_view(schema)),
            ),
    {
        let (name_space, service_name, factory) = layer;
        Layered::new(self, name_space, service_name, factory, port_type, schema)
    }
}

impl<L: Registry, R: Clone> Delegator for Layered<L, R> {
    closed spec fn spec_service_types(&self) -> Seq<(Seq<char>, Seq<char>, Seq<char>)> {
        self.other.spec_service_types().push(self.schema.spec_service_type()@)
    }

    /// The services of the inner registry are asked first; then this one, if its type is `tp`.
    fn delegate<T: ServiceExecutor>(&self, tp: &ServiceType, uri: &Uri, executor: &mut T) -> (r:
        Result<(), ServiceError>) {
        let ghost a = self.other.spec_service_types();
        let r = match self.other.delegate(tp, uri, executor) {
            Ok(()) => Ok(()),
            Err(_) => {
                if *self.schema.service_type() == *tp {
                    executor.spawn(tp, uri, self.factory.clone());
                    Ok(())
                } else {
                    Err(ServiceError::service_not_found(tp))
                }
            },
        };
        proof {
            let own = self.schema.spec_service_type()@;
            let b = a.push(own);
            assert(b.contains(tp@) <==> a.contains(tp@) || own == tp@) by {
                if b.contains(tp@) {
                    let i = choose|i: int| 0 <= i < b.len() && b[i] == tp@;
                    if i < a.len() {
                        assert(a[i] == tp@);
                    }
                }
                if a.contains(tp@) {
                    let i = choose|i: int| 0 <= i < a.len() && a[i] == tp@;
                    assert(b[i] == tp@);
                }
                if own == tp@ {
                    assert(b[a.len() as int] == tp@);
                }
            }
        }
        r
    }
}

impl<L: Registry, R: Clone> Registry for Layered<L, R> {
    fn service_types(&self) -> (r: Vec<ServiceType>) {
        proof {
            use_type_invariant(self);
            assert(schema_types(self.other.spec_schemas().push(self.schema@)) =~= schema_types(
                self.other.spec_schemas(),
            ).push(self.schema@.0));
        }
        types_of_schemas(&self.schemas)
    }

    closed spec fn spec_schemas(&self) -> Seq<SchemaView> {
        self.other.spec_schemas().push(self.schema@)
    }

    fn schemas(&self) -> (r: Vec<ServiceSchema>) {
        proof {
            use_type_invariant(self);
            assert(schema_types(self.other.spec_schemas().push(self.schema@)) =~= schema_types(
                self.other.spec_schemas(),
            ).push(self.schema@.0));
        }
        clone_schemas(&self.schemas)
    }
}

} // verus!
