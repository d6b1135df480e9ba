//! The number of input and output ports of a service.

use vstd::prelude::*;

verus! {

/// The kind of a service by its ports: a source has outputs only, a flow has inputs and
/// outputs, a sink has inputs only. The numbers count the ports.
#[derive(Debug, Clone, Copy, PartialEq, Eq, Structural)]
pub enum PortType {
    Source(u32),
    Flow(u32, u32),
    Sink(u32),
}

impl PortType {
    pub fn flow() -> (p: PortType)
        ensures
            p == PortType::Flow(1, 1),
    {
        PortType::Flow(1, 1)
    }

    pub fn fan_in_flow(v: u32) -> (p: PortType)
        ensures
            p == PortType::Flow(v, 1),
    {
        PortType::Flow(v, 1)
    }

    pub fn fan_out_flow(v: u32) -> (p: PortType)
        ensures
            p == PortType::Flow(1, v),
    {
        PortType::Flow(1, v)
    }

    pub fn fan_flow(i: u32, o: u32) -> (p: PortType)
        ensures
            p == PortType::Flow(i, o),
    {
        PortType::Flow(i, o)
    }

    pub fn source() -> (p: PortType)
        ensures
            p == PortType::Source(1),
    {
        PortType::Source(1)
    }

    pub fn fan_out_source(v: u32) -> (p: PortType)
        ensures
            p == PortType::Source(v),
    {
        PortType::Source(v)
    }

    pub fn sink() -> (p: PortType)
        ensures
            p == PortType::Sink(1),
    {
        PortType::Sink(1)
    }

    pub fn fan_in_sink(v: u32) -> (p: PortType)
        ensures
            p == PortType::Sink(v),
    {
        PortType::Sink(v)
    }
}

impl Default for PortType {
    fn default() -> (p: PortType)
        ensures
            p == PortType::Flow(1, 1),
    {
        PortType::flow()
    }
}

} // verus!
