//! Who serves the data channels of a service.
use crate::registry::Registry;
use std::sync::Arc;
use vstd::prelude::*;

verus! {

/// Makes `handler` the handler of a service's TCP channels, in the place of
/// any other.
pub fn register_data_channel_tcp_handler<H>(
    registry: &mut Registry<String, Arc<H>>,
    service_name: &str,
    handler: Arc<H>,
) -> (r: Arc<H>)
    requires
        old(registry).wf(),
    ensures
        final(registry).wf(),
        final(registry)@ == old(registry)@.insert(service_name@, handler),
        r == handler,
{
    registry.insert(service_name.to_owned(), Arc::clone(&handler));
    handler
}

/// Forgets the handler of a service's TCP channels, and gives it back.
pub fn unregister_data_channel_tcp_handler<H>(
    registry: &mut Registry<String, Arc<H>>,
    service_name: &str,
) -> (r: Option<Arc<H>>)
    requires
        old(registry).wf(),
    ensures
        final(registry).wf(),
        final(registry)@ == old(registry)@.remove(service_name@),
        r is Some <==> old(registry)@.dom().contains(service_name@),
        r matches Some(h) ==> h == old(registry)@[service_name@],
{
    registry.remove(&service_name.to_owned())
}

/// The handler of a service's TCP channels.
pub fn get_data_channel_tcp_handler<H>(
    registry: &Registry<String, Arc<H>>,
    service_name: &str,
) -> (r: Option<Arc<H>>)
    requires
        registry.wf(),
    ensures
        r is Some <==> registry@.dom().contains(service_name@),
        r matches Some(h) ==> h == registry@[service_name@],
{
    match registry.get(&service_name.to_owned()) {
        Some(h) => Some(Arc::clone(h)),
        None => None,
    }
}

/// Makes `handler` the handler of a service's UDP channels, in the place of
/// any other.
pub fn register_data_channel_udp_handler<H>(
    registry: &mut Registry<String, Arc<H>>,
    service_name: &str,
    handler: Arc<H>,
) -> (r: Arc<H>)
    requires
        old(registry).wf(),
    ensures
        final(registry).wf(),
        final(registry)@ == old(registry)@.insert(service_name@, handler),
        r == handler,
{
    registry.insert(service_name.to_owned(), Arc::clone(&handler));
    handler
}

/// Forgets the handler of a service's UDP channels, and gives it back.
pub fn unregister_data_channel_udp_handler<H>(
    registry: &mut Registry<String, Arc<H>>,
    service_name: &str,
) -> (r: Option<Arc<H>>)
    requires
        old(registry).wf(),
    ensures
        final(registry).wf(),
        final(registry)@ == old(registry)@.remove(service_name@),
        r is Some <==> old(registry)@.dom().contains(service_name@),
        r matches Some(h) ==> h == old(registry)@[service_name@],
{
    registry.remove(&service_name.to_owned())
}

/// The handler of a service's UDP channels.
pub fn get_data_channel_udp_handler<H>(
    registry: &Registry<String, Arc<H>>,
    service_name: &str,
) -> (r: Option<Arc<H>>)
    requires
        registry.wf(),
    ensures
        r is Some <==> registry@.dom().contains(service_name@),
        r matches Some(h) ==> h == registry@[service_name@],
{
    match registry.get(&service_name.to_owned()) {
        Some(h) => Some(Arc::clone(h)),
        None => None,
    }
}

/// Of two handlers that are registered for a service one after the other, the
/// second one serves; once it is taken back, nobody does. Other services keep
/// theirs.
pub proof fn last_handler_serves<H>(
    handlers: Map<Seq<char>, Arc<H>>,
    service_name: Seq<char>,
    first: Arc<H>,
    second: Arc<H>,
    other: Seq<char>,
)
    requires
        other != service_name,
    ensures
        ({
            let twice = handlers.insert(service_name, first).insert(service_name, second);
            &&& twice[service_name] == second
            &&& !twice.remove(service_name).dom().contains(service_name)
            &&& twice.dom().contains(other) <==> handlers.dom().contains(other)
            &&& handlers.dom().contains(other) ==> twice[other] == handlers[other]
        }),
{
}

} // verus!
