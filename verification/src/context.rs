//! The context that a service keeps between requests.

use vstd::prelude::*;

verus! {

/// The context of a service, configured from the configuration of the service.
pub trait Context {
    type Config;

    fn set_config(&mut self, config: Self::Config);
}

} // verus!
