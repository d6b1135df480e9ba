//! A plugin: two registries, asked one after the other.

use crate::error::ServiceError;
use crate::registry::{schema_types, schemas_view, types_view, App, Delegator, Registry, SchemaView, ServiceExecutor, ServiceSchema};
use crate::service_type::ServiceType;
use crate::service_uri::Uri;
use vstd::prelude::*;

verus! {

/// Two registries; the first one is asked first.
#[derive(Debug, Clone)]
pub struct Plugin<L, R> {
    other: L,
    layer: R,
}

impl<L: Registry, R: Registry> Plugin<L, R> {
    pub fn new(init: L, layer: R) -> (r: Plugin<L, R>)
        ensures
            r.spec_service_types() == init.spec_service_types() + layer.spec_service_types(),
            r.spec_schemas() == init.spec_schemas() + layer.spec_schemas(),
    {
        Plugin { layer, other: init }
    }

    /// This plugin, with `layer` asked after it.
    pub fn with<F: Registry>(self, layer: F) -> (r: Plugin<Self, F>)
        ensures
            r.spec_service_types() == self.spec_service_types() + layer.spec_service_types(),
            r.spec_schemas() == self.spec_schemas() + layer.spec_schemas(),
    {
        Plugin::<Self, F>::new(self, layer)
    }

    /// The application of this plugin.
    pub fn build(self) -> (r: App<Self>)
        ensures
            r.spec_service_types() == self.spec_service_types(),
            r.spec_schemas() == self.spec_schemas(),
    {
        App::new(self)
    }
}

impl<L: Registry, R: Registry> Delegator for Plugin<L, R> {
    closed spec fn spec_service_types(&self) -> Seq<(Seq<char>, Seq<char>, Seq<char>)> {
        self.other.spec_service_types() + self.layer.spec_service_types()
    }

    fn delegate<T: ServiceExecutor>(&self, tp: &ServiceType, uri: &Uri, executor: &mut T) -> (r:
        Result<(), ServiceError>) {
        let r = match self.other.delegate(tp, uri, executor) {
            Ok(()) => Ok(()),
            Err(_) => self.layer.delegate(tp, uri, executor),
        };
        proof {
            let a = self.other.spec_service_types();
            let b = self.layer.spec_service_types();
            assert((a + b).contains(tp@) <==> a.contains(tp@) || b.contains(tp@)) by {
                if (a + b).contains(tp@) {
                    let i = choose|i: int| 0 <= i < (a + b).len() && (a + b)[i] == tp@;
                    if i < a.len() {
                        assert(a[i] == tp@);
                    } else {
                        assert(b[i - a.len()] == tp@);
                    }
                }
                if a.contains(tp@) {
                    let i = choose|i: int| 0 <= i < a.len() && a[i] == tp@;
                    assert((a + b)[i] == tp@);
                }
                if b.contains(tp@) {
                    let i = choose|i: int| 0 <= i < b.len() && b[i] == tp@;
                    assert((a + b)[a.len() + i] == tp@);
                }
            }
        }
        r
    }
}

impl<L: Registry, R: Registry> Registry for Plugin<L, R> {
    fn service_types(&self) -> (r: Vec<ServiceType>) {
        let mut v = self.other.service_types();
        let mut w = self.layer.service_types();
        let ghost a = v@;
        let ghost b = w@;
        v.append(&mut w);
        proof {
            assert(types_view(v@) =~= types_view(a) + types_view(b));
        }
        v
    }

    closed spec fn spec_schemas(&self) -> Seq<SchemaView> {
        self.other.spec_schemas() + self.layer.spec_schemas()
    }

    fn schemas(&self) -> (r: Vec<ServiceSchema>) {
        let mut v = self.other.schemas();
        let mut w = self.layer.schemas();
        let ghost a = v@;
        let ghost b = w@;
        v.append(&mut w);
        proof {
            assert(schemas_view(v@) =~= schemas_view(a) + schemas_view(b));
            assert(schema_types(schemas_view(v@)) =~= schema_types(schemas_view(a)) + schema_types(
                schemas_view(b),
            ));
        }
        v
    }
}

} // verus!
