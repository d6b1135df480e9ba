//! The identifier of a service.

use vstd::prelude::*;

verus! {

/// The identifier of a service.
#[derive(Debug)]
pub struct ServiceId {
    id: String,
}

impl View for ServiceId {
    type V = Seq<char>;

    closed spec fn view(&self) -> Seq<char> {
        self.id@
    }
}

impl ServiceId {
    pub fn new(id: &str) -> (r: ServiceId)
        ensures
            r@ == id@,
    {
        ServiceId { id: id.to_owned() }
    }

    pub fn from_string(id: String) -> (r: ServiceId)
        ensures
            r@ == id@,
    {
        ServiceId { id }
    }
}

impl Clone for ServiceId {
    fn clone(&self) -> (r: ServiceId)
        ensures
            r@ == self@,
    {
        ServiceId { id: self.id.clone() }
    }
}

impl PartialEq for ServiceId {
    fn eq(&self, other: &ServiceId) -> (r: bool) {
        self.id == other.id
    }
}

impl vstd::std_specs::cmp::PartialEqSpecImpl for ServiceId {
    open spec fn obeys_eq_spec() -> bool {
        true
    }

    open spec fn eq_spec(&self, other: &ServiceId) -> bool {
        self@ == other@
    }
}

impl Eq for ServiceId {

}

} // verus!
