//! Service results, ready values and the port kinds of function services.

use crate::registry::PortType;
use vstd::prelude::*;

verus! {

/// A value for reporting the current context to the executor.
/// The executor changes its behavior depending on this value.
#[derive(Debug)]
pub enum ServiceContext<T> {
    /// processed request and waiting next request.
    Ready(T),
    /// complete service. not waiting next request.
    Complete(T),
    /// force next loop. not receiving next request.
    Next(T),
}

impl<T> ServiceContext<T> {
    /// The context, whichever state it is reported in.
    pub fn into(self) -> (r: T)
        ensures
            r == match self {
                ServiceContext::Ready(c) => c,
                ServiceContext::Complete(c) => c,
                ServiceContext::Next(c) => c,
            },
    {
        match self {
            ServiceContext::Ready(c) => c,
            ServiceContext::Complete(c) => c,
            ServiceContext::Next(c) => c,
        }
    }
}

/// A value that is ready at once.
#[derive(Debug)]
pub struct Ready<T>(Option<T>);

impl<T> Ready<T> {
    #[verifier::type_invariant]
    spec fn holds_value(self) -> bool {
        self.0 is Some
    }

    pub closed spec fn spec_value(self) -> T {
        self.0->0
    }

    /// Unwraps the value from this immediately ready future.
    pub fn into_inner(self) -> (r: T)
        ensures
            r == self.spec_value(),
    {
        proof {
            use_type_invariant(&self);
        }
        let Ready(v) = self;
        v.unwrap()
    }
}

/// A ready successful result.
pub fn ok<T, E>(t: T) -> (r: Ready<Result<T, E>>)
    ensures
        r.spec_value() == Ok::<T, E>(t),
{
    Ready(Some(Ok(t)))
}

/// A ready value.
pub fn ready<T>(t: T) -> (r: Ready<T>)
    ensures
        r.spec_value() == t,
{
    Ready(Some(t))
}

/// The port kind of a function service.
pub trait FnPortType: Copy {
    spec fn spec_port_type() -> PortType;

    fn port_type() -> (p: PortType)
        ensures
            p == Self::spec_port_type(),
    ;
}

/// A service with one output port and no input.
#[derive(Debug, Clone, Copy)]
pub struct SourcePort;

/// A service with one input and one output port.
#[derive(Debug, Clone, Copy)]
pub struct FlowPort;

/// A service with one input port and no output.
#[derive(Debug, Clone, Copy)]
pub struct SinkPort;

impl FnPortType for SourcePort {
    open spec fn spec_port_type() -> PortType {
        PortType::Source(1)
    }

    fn port_type() -> (p: PortType) {
        PortType::source()
    }
}

impl FnPortType for FlowPort {
    open spec fn spec_port_type() -> PortType {
        PortType::Flow(1, 1)
    }

    fn port_type() -> (p: PortType) {
        PortType::flow()
    }
}

impl FnPortType for SinkPort {
    open spec fn spec_port_type() -> PortType {
        PortType::Sink(1)
    }

    fn port_type() -> (p: PortType) {
        PortType::sink()
    }
}

/// The context of the service that does nothing.
#[derive(Debug, Clone, Copy)]
pub struct NoopContext;

/// The service that does nothing.
#[derive(Debug, Clone, Copy)]
pub struct NoopService;

/// The configuration of the service that does nothing.
#[derive(Debug, Clone, Copy)]
pub struct NoopServiceConfig;

/// The factory of the service that does nothing.
#[derive(Debug, Clone, Copy)]
pub struct NoopServiceFactory;

impl NoopService {
    /// Handling a request completes the service at once.
    pub fn handle(&self, _ctx: NoopContext) -> (r: Ready<Result<ServiceContext<NoopContext>, ()>>)
        ensures
            r.spec_value() == Ok::<ServiceContext<NoopContext>, ()>(
                ServiceContext::Complete(NoopContext),
            ),
    {
        ok(ServiceContext::Complete(NoopContext))
    }

    /// An upstream that finishes leaves the service ready for the next request.
    pub fn upstream_finish(&self, _ctx: NoopContext) -> (r: Ready<
        Result<ServiceContext<NoopContext>, ()>,
    >)
        ensures
            r.spec_value() == Ok::<ServiceContext<NoopContext>, ()>(
                ServiceContext::Ready(NoopContext),
            ),
    {
        ok(ServiceContext::Ready(NoopContext))
    }

    /// When all upstreams have finished, the service completes.
    pub fn upstream_finish_all(&self, _ctx: NoopContext) -> (r: Ready<
        Result<ServiceContext<NoopContext>, ()>,
    >)
        ensures
            r.spec_value() == Ok::<ServiceContext<NoopContext>, ()>(
                ServiceContext::Complete(NoopContext),
            ),
    {
        ok(ServiceContext::Complete(NoopContext))
    }
}

impl NoopServiceFactory {
    pub fn new_service(&self) -> (r: Ready<Result<NoopService, ()>>)
        ensures
            r.spec_value() == Ok::<NoopService, ()>(NoopService),
    {
        ok(NoopService)
    }

    pub fn new_context(&self, _config: NoopServiceConfig) -> (r: Ready<Result<NoopContext, ()>>)
        ensures
            r.spec_value() == Ok::<NoopContext, ()>(NoopContext),
    {
        ok(NoopContext)
    }
}

} // verus!
