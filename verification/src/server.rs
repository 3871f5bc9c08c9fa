//! The facade over the event log and the node registry.

use crate::event::{AcceptAll, Event, EventError, VerifierCapability};
use crate::event_log::{events_since, EventLog};
use crate::node::Node;
use crate::registry::{is_active_in, with_node, NodeRegistry};
use crate::time::Timestamp;
use vstd::prelude::*;

verus! {

/// The two stores behind one interface. Each operation goes to one store,
/// returns what that store returned and leaves the other store alone.
pub struct MasterServer<V: VerifierCapability> {
    event_log: EventLog<V>,
    node_registry: NodeRegistry,
}

impl MasterServer<AcceptAll> {
    /// A server with an empty log that holds every signature valid, and an
    /// empty registry.
    pub fn new() -> (server: Self)
        ensures
            server.events() == Seq::<Event>::empty(),
            server.nodes() == Map::<Seq<char>, Node>::empty(),
    {
        MasterServer { event_log: EventLog::new(), node_registry: NodeRegistry::new() }
    }
}

impl<V: VerifierCapability> MasterServer<V> {
    /// The event log, oldest insertion first.
    pub closed spec fn events(&self) -> Seq<Event> {
        self.event_log@
    }

    /// The node registry, each node under its identifier.
    pub closed spec fn nodes(&self) -> Map<Seq<char>, Node> {
        self.node_registry@
    }

    /// The capability that the event log asks before it appends.
    pub closed spec fn capability(&self) -> V {
        self.event_log.capability()
    }

    /// A server with an empty log that admits the events that `capability`
    /// accepts, and an empty registry.
    pub fn with_verifier(capability: V) -> (server: Self)
        ensures
            server.events() == Seq::<Event>::empty(),
            server.nodes() == Map::<Seq<char>, Node>::empty(),
            server.capability() == capability,
    {
        MasterServer {
            event_log: EventLog::with_verifier(capability),
            node_registry: NodeRegistry::new(),
        }
    }

    /// Appends `event` to the log if the log's verifier accepts it.
    pub fn log_event(&mut self, event: Event) -> (r: Result<(), EventError>)
        ensures
            final(self).capability() == old(self).capability(),
            final(self).nodes() == old(self).nodes(),
            old(self).capability().accepts(&event) ==> r == Ok::<(), EventError>(())
                && final(self).events() == old(self).events().push(event),
            !old(self).capability().accepts(&event) ==> r == Err::<(), EventError>(
                EventError::InvalidSignature,
            ) && final(self).events() == old(self).events(),
    {
        self.event_log.add_event(event)
    }

    /// Copies of the logged events with a timestamp strictly after
    /// `timestamp`, in the order in which they were added.
    pub fn get_events_since(&self, timestamp: Timestamp) -> (found: Vec<Event>)
        ensures
            found@ == events_since(self.events(), timestamp),
    {
        self.event_log.get_events_since(timestamp)
    }

    /// Stores `node` in the registry under its identifier, in place of
    /// whatever was stored under it before.
    pub fn register_node(&mut self, node: Node)
        ensures
            final(self).nodes() == with_node(old(self).nodes(), node),
            final(self).events() == old(self).events(),
            final(self).capability() == old(self).capability(),
    {
        self.node_registry.register_node(node)
    }

    /// Copies of the registered nodes whose status is active, each once, in
    /// no particular order.
    pub fn get_active_nodes(&self) -> (found: Vec<Node>)
        ensures
            forall|k: int| 0 <= k < found.len() ==> is_active_in(self.nodes(), #[trigger] found[k]),
            forall|node: Node| #[trigger]
                is_active_in(self.nodes(), node) ==> found@.contains(node),
            found@.no_duplicates(),
    {
        self.node_registry.get_active_nodes()
    }
}

} // verus!
