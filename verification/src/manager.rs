//! The forwarder as a whole: its rules, its one registry of connections,
//! its global cancellation, and whether it has been stopped.

use crate::config::{Config, RuleView};
use crate::connections::{Connections, RegistryView};
use crate::listener::{start_listeners, ListenerService, ListenerState};
use crate::token::{cancel, new_token, share};
use tokio_util::sync::CancellationToken;
use vstd::prelude::*;

verus! {

/// The owner of a forwarder's rules, of the registry that all its
/// connections share, and of its global cancellation token.
pub struct ForwardManager {
    config: Config,
    connections: Connections,
    /// The token on which every listener and every relay waits.
    global_token: CancellationToken,
    /// Whether `global_token` has been cancelled by this manager.
    stopped: bool,
}

/// The mathematical content of a [`ForwardManager`].
pub struct ManagerView {
    pub rules: Seq<RuleView>,
    pub registry: RegistryView,
    pub stopped: bool,
}

impl View for ForwardManager {
    type V = ManagerView;

    closed spec fn view(&self) -> ManagerView {
        ManagerView { rules: self.config@, registry: self.connections@, stopped: self.stopped }
    }
}

impl ForwardManager {
    /// The registry is well-formed.
    pub open spec fn wf(&self) -> bool {
        self@.registry.wf()
    }

    /// A running forwarder for the rules of `cfg`, with an empty registry
    /// and a global token of its own.
    pub fn start(cfg: Config) -> (manager: ForwardManager)
        ensures
            manager@ == (ManagerView {
                rules: cfg@,
                registry: RegistryView::empty(),
                stopped: false,
            }),
            manager.wf(),
    {
        ForwardManager {
            config: cfg,
            connections: Connections::new(),
            global_token: new_token(),
            stopped: false,
        }
    }

    /// The listeners to run: one for each rule, in the order of the rules,
    /// each yet to bind.
    pub fn listeners(&self) -> (listeners: Vec<ListenerService>)
        ensures
            listeners@.len() == self@.rules.len(),
            forall|i: int|
                0 <= i < listeners@.len() ==> (#[trigger] listeners@[i]).rule()@ == self@.rules[i]
                    && listeners@[i].position() == ListenerState::Binding,
    {
        start_listeners(&self.config)
    }

    /// A handle on the global cancellation token, for the driver of a
    /// listener or of a relay to wait on.
    pub fn global_token(&self) -> (handle: CancellationToken)
        ensures
            handle == self.cancellation(),
    {
        share(&self.global_token)
    }

    /// The global cancellation token of this forwarder: the one token that
    /// the manager was started with, whatever handle on it is held.
    pub closed spec fn cancellation(&self) -> CancellationToken {
        self.global_token
    }

    /// The registry, for reporting.
    pub fn get_connections(&self) -> (connections: &Connections)
        ensures
            connections@ == self@.registry,
    {
        &self.connections
    }

    /// The registry, for the flows of this forwarder to register and count
    /// in. What they leave in it is what the manager holds.
    pub fn connections_mut(&mut self) -> (connections: &mut Connections)
        ensures
            connections@ == old(self)@.registry,
            final(self)@ == (ManagerView { registry: final(connections)@, ..old(self)@ }),
            final(self).cancellation() == old(self).cancellation(),
    {
        &mut self.connections
    }

    /// Whether the forwarder has been stopped.
    pub fn is_stopped(&self) -> (stopped: bool)
        ensures
            stopped == self@.stopped,
    {
        self.stopped
    }

    /// Stops the forwarder: cancels the global token, for good. Connections
    /// and their records are left as they are.
    ///
    /// Says whether this call was the one that stopped it. The caller of
    /// that one call waits for the listeners to leave their loops; a later
    /// call finds nothing left to wait for.
    pub fn stop(&mut self) -> (first: bool)
        ensures
            final(self)@ == (ManagerView { stopped: true, ..old(self)@ }),
            final(self).cancellation() == old(self).cancellation(),
            first == !old(self)@.stopped,
    {
        let first = !self.stopped;
        cancel(&self.global_token);
        self.stopped = true;
        first
    }
}

} // verus!
