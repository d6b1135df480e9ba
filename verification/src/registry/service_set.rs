//! A delegator built one service at a time.

use crate::error::ServiceError;
use crate::registry::{Delegator, ServiceExecutor};
use crate::service_type::ServiceType;
use crate::service_uri::Uri;
use vstd::prelude::*;

verus! {

/// A delegator `other` with one more service: its type and its factory.
#[derive(Debug, Clone)]
pub struct ServiceSet<S, F> {
    tp: ServiceType,
    other: S,
    factory: F,
}

impl<S: Delegator, F: Clone> ServiceSet<S, F> {
    /// The delegator `other` with one more service.
    pub fn new(other: S, tp: ServiceType, factory: F) -> (r: ServiceSet<S, F>)
        ensures
            r.spec_service_types() == other.spec_service_types().push(tp@),
    {
        ServiceSet { tp, other, factory }
    }

    /// This delegator with one more service.
    pub fn service<F2: Clone>(self, tp: ServiceType, other: F2) -> (r: ServiceSet<Self, F2>)
        ensures
            r.spec_service_types() == self.spec_service_types().push(tp@),
    {
        ServiceSet { tp, other: self, factory: other }
    }
}

impl<S: Delegator, F: Clone> Delegator for ServiceSet<S, F> {
    closed spec fn spec_service_types(&self) -> Seq<(Seq<char>, Seq<char>, Seq<char>)> {
        self.other.spec_service_types().push(self.tp@)
    }

    /// The services of `other` are asked first; then this one, if its type is `tp`.
    fn delegate<T: ServiceExecutor>(&self, tp: &ServiceType, uri: &Uri, executor: &mut T) -> (r:
        Result<(), ServiceError>) {
        let ghost a = self.other.spec_service_types();
        let r = match self.other.delegate(tp, uri, executor) {
            Ok(()) => Ok(()),
            Err(_) => {
                if self.tp == *tp {
                    executor.spawn(tp, uri, self.factory.clone());
                    Ok(())
                } else {
                    Err(ServiceError::error("don't know"))
                }
            },
        };
        proof {
            let b = a.push(self.tp@);
            assert(b.contains(tp@) <==> a.contains(tp@) || self.tp@ == tp@) by {
                if b.contains(tp@) {
                    let i = choose|i: int| 0 <= i < b.len() && b[i] == tp@;
                    if i < a.len() {
                        assert(a[i] == tp@);
                    }
                }
                if a.contains(tp@) {
                    let i = choose|i: int| 0 <= i < a.len() && a[i] == tp@;
                    assert(b[i] == tp@);
                }
                if self.tp@ == tp@ {
                    assert(b[a.len() as int] == tp@);
                }
            }
        }
        r
    }
}

} // verus!
