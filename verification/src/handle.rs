//! What the owner of a running server holds.
use crate::channels::{answers, event_channel, missed, EventReceiver};
use crate::clock::read_since;
use crate::messages::CloudCommand;
use crate::registry::{lists, AwaitedCommand, ClientRegistry, RegistryView, SendStep};
use crate::text::views;
use vstd::prelude::*;

verus! {

/// How many connection events are kept for a subscriber that lags behind.
pub const EVENT_CAPACITY: usize = 100;

/// How long a client may give no sign of life, in seconds.
pub const STALE_AFTER_SECS: u64 = 120;

/// How long a client may give no sign of life, in nanoseconds.
pub open spec fn stale_after() -> u128 {
    (STALE_AFTER_SECS * 1_000_000_000) as u128
}

/// Gives access to the clients of a server.
pub struct CloudHandle {
    /// The clients.
    pub registry: ClientRegistry,
}

impl CloudHandle {
    /// A handle of a server without clients, of which nothing was announced.
    pub fn new() -> (handle: Self)
        ensures
            handle.registry@ == (RegistryView {
                clients: Map::empty(),
                pending: Map::empty(),
                last_seen: Map::empty(),
                waiters: Map::empty(),
                events: Seq::empty(),
                event_capacity: EVENT_CAPACITY,
                listeners: handle.registry@.listeners,
                started: handle.registry@.started,
            }),
            handle.registry@.well_formed(),
    {
        let registry = ClientRegistry::new(event_channel(EVENT_CAPACITY));
        assert(registry@.events =~= Seq::empty());
        CloudHandle { registry }
    }

    /// A receiver of the events that come after this call.
    pub fn subscribe_events(&self) -> (receiver: EventReceiver)
        ensures
            self.registry@.listeners.contains(receiver),
            missed(receiver) == self.registry@.events,
    {
        self.registry.subscribe_events()
    }

    /// Sends a command to a client, as `ClientRegistry::send_command` does.
    pub fn send_command(&mut self, client_id: &str, command: CloudCommand) -> (step: SendStep)
        ensures
            final(self).registry@ == old(self).registry@.routed(client_id@, command),
            step == old(self).registry@.route(client_id@, command),
            old(self).registry@.well_formed() ==> final(self).registry@.well_formed(),
    {
        self.registry.send_command(client_id, command)
    }

    /// Begins a command whose response is awaited, as
    /// `ClientRegistry::send_command_await` does.
    pub fn send_command_await(&mut self, client_id: &str, command: CloudCommand) -> (call:
        AwaitedCommand)
        ensures
            call.command_id@ == command.command_id@,
            call.step == old(self).registry@.route(client_id@, command),
            answers(final(self).registry@.waiters[command.command_id@], call.reply),
            final(self).registry@ == old(self).registry@.awaiting(
                command.command_id@,
                final(self).registry@.waiters[command.command_id@],
            ).routed(client_id@, command),
            old(self).registry@.well_formed() ==> final(self).registry@.well_formed(),
    {
        self.registry.send_command_await(client_id, command)
    }

    /// Drops the clients that gave no sign of life for more than
    /// `STALE_AFTER_SECS`, and says which.
    pub fn evict_stale_clients(&mut self) -> (evicted: Vec<String>)
        ensures
            exists|now: u128| #[trigger]
                read_since(old(self).registry@.started, now) && lists(
                    views(evicted@),
                    old(self).registry@.stale(now, stale_after()),
                ),
            final(self).registry@ == old(self).registry@.unregistered_all(views(evicted@)),
            old(self).registry@.well_formed() ==> final(self).registry@.well_formed(),
    {
        self.registry.evict_stale_clients(STALE_AFTER_SECS as u128 * 1_000_000_000)
    }

    /// The ids of the connected clients, in no particular order.
    pub fn list_clients(&self) -> (ids: Vec<String>)
        ensures
            lists(views(ids@), self.registry@.clients.dom()),
    {
        self.registry.list_clients()
    }
}

} // verus!
