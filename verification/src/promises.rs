//! What callers can rely on, said of each operation and of several in a row over
//! plain values: which entry of a table changes and to what, which stay, what is
//! announced, what is handed on to whom.
use crate::auth::{bytes_of, carries, characters, is_result, token_in, visible, AuthError};
use crate::builder::{path_view, EVICTION_INTERVAL_SECS};
use crate::cert::{appdata_view, directory, follows, host_names, CertError, SelfSigned};
use crate::channels::{
    command_capacity, feeds, hears, listeners, offers, replied, CommandReceiver, CommandSender,
    EventReceiver, EventSender, ReplySender,
};
use crate::handle::{stale_after, EVENT_CAPACITY};
use crate::laws::{
    eviction_announces_the_connected, eviction_drops_the_stale, goodbyes, tick,
};
use crate::messages::{
    Claims, ClientMessage, CloudCommand, CommandResponse, ConnectionEvent, EventView, Registration,
};
use crate::registry::{
    filled, lists, offered, same_stream, RegistryView, SendStep, RESPONSE_TIMEOUT_SECS,
};
use crate::session::{SessionStep, SessionView, COMMAND_CAPACITY};
use crate::text::{anonymized, decimal, views};
use crate::validator::default_claims;
use vstd::prelude::*;

verus! {

/// After a client registered, its commands go into the stream that it brought, it
/// was seen when the clock stood at `now`, nothing waits for it, and its coming
/// is the one new announcement. Whoever else is known, and whoever waits for a
/// response, is as before.
pub proof fn registration_is_noted(
    registry: RegistryView,
    id: Seq<char>,
    sender: CommandSender,
    now: u128,
    other: Seq<char>,
)
    ensures
        ({
            let after = registry.registered(id, sender, now);
            let count = registry.events.len() as int;
            &&& after.clients.contains_key(id) && after.clients[id] == sender
            &&& after.last_seen.contains_key(id) && after.last_seen[id] == now
            &&& !after.pending.contains_key(id)
            &&& after.events.len() == count + 1
            &&& after.events[count] == EventView::Connected(id)
            &&& forall|i: int| 0 <= i < count ==> #[trigger] after.events[i] == registry.events[i]
            &&& other != id ==> {
                &&& after.clients.contains_key(other) <==> registry.clients.contains_key(other)
                &&& after.clients.contains_key(other) ==> after.clients[other]
                    == registry.clients[other]
                &&& after.last_seen.contains_key(other) <==> registry.last_seen.contains_key(other)
                &&& after.last_seen.contains_key(other) ==> after.last_seen[other]
                    == registry.last_seen[other]
                &&& after.pending.contains_key(other) <==> registry.pending.contains_key(other)
                &&& after.pending.contains_key(other) ==> after.pending[other]
                    == registry.pending[other]
            }
            &&& after.waiters == registry.waiters
            &&& after.event_capacity == registry.event_capacity
            &&& after.listeners == registry.listeners
            &&& after.started == registry.started
        }),
{
}

/// After a client was dropped it is not connected and has no last activity; its
/// going is announced if and only if it was connected, once. What waits for it
/// still does, and whoever else is known is as before.
pub proof fn dropping_is_noted(registry: RegistryView, id: Seq<char>, other: Seq<char>)
    ensures
        ({
            let after = registry.unregistered(id);
            let count = registry.events.len() as int;
            &&& !after.clients.contains_key(id)
            &&& !after.last_seen.contains_key(id)
            &&& registry.clients.contains_key(id) ==> after.events.len() == count + 1
                && after.events[count] == EventView::Disconnected(id)
            &&& !registry.clients.contains_key(id) ==> after.events.len() == count
            &&& forall|i: int| 0 <= i < count ==> #[trigger] after.events[i] == registry.events[i]
            &&& other != id ==> {
                &&& after.clients.contains_key(other) <==> registry.clients.contains_key(other)
                &&& after.clients.contains_key(other) ==> after.clients[other]
                    == registry.clients[other]
                &&& after.last_seen.contains_key(other) <==> registry.last_seen.contains_key(other)
                &&& after.last_seen.contains_key(other) ==> after.last_seen[other]
                    == registry.last_seen[other]
            }
            &&& after.pending == registry.pending
            &&& after.waiters == registry.waiters
            &&& after.event_capacity == registry.event_capacity
            &&& after.listeners == registry.listeners
            &&& after.started == registry.started
        }),
{
}

/// A sign of life notes the clock reading under the id that gave it, and does
/// nothing else: it connects nobody and announces nothing.
pub proof fn sign_of_life_is_noted(
    registry: RegistryView,
    id: Seq<char>,
    now: u128,
    other: Seq<char>,
)
    ensures
        ({
            let after = registry.active(id, now);
            &&& after.last_seen.contains_key(id) && after.last_seen[id] == now
            &&& other != id ==> {
                &&& after.last_seen.contains_key(other) <==> registry.last_seen.contains_key(other)
                &&& after.last_seen.contains_key(other) ==> after.last_seen[other]
                    == registry.last_seen[other]
            }
            &&& after.clients == registry.clients
            &&& after.pending == registry.pending
            &&& after.waiters == registry.waiters
            &&& after.events == registry.events
            &&& after.event_capacity == registry.event_capacity
            &&& after.listeners == registry.listeners
            &&& after.started == registry.started
        }),
{
}

/// A command for a connected client is handed out for that client's stream, as it
/// is, and nothing changes. A command for any other client waits behind what
/// waited for it before. Nobody else's commands are touched.
pub proof fn command_goes_to_its_client(
    registry: RegistryView,
    id: Seq<char>,
    command: CloudCommand,
    other: Seq<char>,
)
    ensures
        ({
            let after = registry.routed(id, command);
            let step = registry.route(id, command);
            &&& registry.clients.contains_key(id) ==> {
                &&& step is Deliver
                &&& step->sender == registry.clients[id]
                &&& step->command == command
                &&& after.pending == registry.pending
            }
            &&& !registry.clients.contains_key(id) ==> {
                let waited = if registry.pending.contains_key(id) {
                    registry.pending[id].len() as int
                } else {
                    0
                };
                &&& step is Queued
                &&& after.pending.contains_key(id)
                &&& after.pending[id].len() == waited + 1
                &&& after.pending[id][waited] == command
                &&& forall|i: int|
                    0 <= i < waited ==> #[trigger] after.pending[id][i] == registry.pending[id][i]
            }
            &&& other != id ==> {
                &&& after.pending.contains_key(other) <==> registry.pending.contains_key(other)
                &&& after.pending.contains_key(other) ==> after.pending[other]
                    == registry.pending[other]
            }
            &&& after.clients == registry.clients
            &&& after.last_seen == registry.last_seen
            &&& after.waiters == registry.waiters
            &&& after.events == registry.events
            &&& after.event_capacity == registry.event_capacity
            &&& after.listeners == registry.listeners
            &&& after.started == registry.started
        }),
{
}

/// Whoever begins to wait for a response is found under the command's id, in
/// place of whoever was; all others wait as before.
pub proof fn caller_is_noted(
    registry: RegistryView,
    command_id: Seq<char>,
    waiter: ReplySender,
    other: Seq<char>,
)
    ensures
        ({
            let after = registry.awaiting(command_id, waiter);
            &&& after.waiters.contains_key(command_id) && after.waiters[command_id] == waiter
            &&& other != command_id ==> {
                &&& after.waiters.contains_key(other) <==> registry.waiters.contains_key(other)
                &&& after.waiters.contains_key(other) ==> after.waiters[other]
                    == registry.waiters[other]
            }
            &&& after.clients == registry.clients
            &&& after.pending == registry.pending
            &&& after.last_seen == registry.last_seen
            &&& after.events == registry.events
            &&& after.event_capacity == registry.event_capacity
            &&& after.listeners == registry.listeners
            &&& after.started == registry.started
        }),
{
}

/// When one command is done with, nobody waits for its response any more, and
/// every other caller waits as before.
pub proof fn other_callers_keep_waiting(
    registry: RegistryView,
    command_id: Seq<char>,
    other: Seq<char>,
)
    ensures
        ({
            let after = registry.forgotten(command_id);
            &&& !after.waiters.contains_key(command_id)
            &&& other != command_id ==> {
                &&& after.waiters.contains_key(other) <==> registry.waiters.contains_key(other)
                &&& after.waiters.contains_key(other) ==> after.waiters[other]
                    == registry.waiters[other]
            }
            &&& after.clients == registry.clients
            &&& after.pending == registry.pending
            &&& after.last_seen == registry.last_seen
            &&& after.events == registry.events
            &&& after.event_capacity == registry.event_capacity
            &&& after.listeners == registry.listeners
            &&& after.started == registry.started
        }),
{
}

/// Two callers that wait at once, for responses with different ids, each find
/// their own waiter when their response comes, whichever comes first.
pub proof fn callers_get_their_own_responses(
    registry: RegistryView,
    first_id: Seq<char>,
    first: CloudCommand,
    first_waiter: ReplySender,
    second_id: Seq<char>,
    second: CloudCommand,
    second_waiter: ReplySender,
)
    requires
        first.command_id@ != second.command_id@,
    ensures
        ({
            let both = registry.awaiting(first.command_id@, first_waiter).routed(
                first_id,
                first,
            ).awaiting(second.command_id@, second_waiter).routed(second_id, second);
            let first_done = both.forgotten(first.command_id@);
            let second_done = both.forgotten(second.command_id@);
            &&& both.waiters.contains_key(first.command_id@)
            &&& both.waiters[first.command_id@] == first_waiter
            &&& both.waiters.contains_key(second.command_id@)
            &&& both.waiters[second.command_id@] == second_waiter
            &&& first_done.waiters.contains_key(second.command_id@)
            &&& first_done.waiters[second.command_id@] == second_waiter
            &&& second_done.waiters.contains_key(first.command_id@)
            &&& second_done.waiters[first.command_id@] == first_waiter
        }),
{
}

/// What waits for a client is what was put there for it, and nothing for a
/// client that nothing was put there for.
pub proof fn backlog_is_what_waits(registry: RegistryView, id: Seq<char>)
    ensures
        registry.pending.contains_key(id) ==> registry.backlog(id) == registry.pending[id],
        !registry.pending.contains_key(id) ==> registry.backlog(id).len() == 0,
{
}

/// A client is stale exactly when it was seen, and the time since then is longer
/// than the limit: at the limit itself it is not, nor is one that was seen later
/// than `now`.
pub proof fn stale_is_silent_for_longer(
    registry: RegistryView,
    now: u128,
    timeout: u128,
    id: Seq<char>,
)
    ensures
        registry.stale(now, timeout).contains(id) <==> registry.last_seen.contains_key(id) && now
            > registry.last_seen[id] + timeout,
{
}

/// The regular eviction drops exactly the clients that gave no sign of life for
/// more than two minutes: a client last seen at a reading is dropped at `now` if
/// and only if the difference is more than 120,000,000,000 nanoseconds.
pub proof fn regular_eviction_comes_after_two_minutes(
    registry: RegistryView,
    now: u128,
    evicted: Seq<Seq<char>>,
    id: Seq<char>,
)
    requires
        lists(evicted, registry.stale(now, stale_after())),
    ensures
        stale_after() == 120_000_000_000,
        evicted.contains(id) <==> registry.last_seen.contains_key(id) && now
            - registry.last_seen[id] > 120_000_000_000,
{
    assert(registry.stale(now, stale_after()).contains(id) <==> evicted.contains(id));
}

/// The regular evictions come a minute apart.
pub proof fn regular_evictions_are_a_minute_apart(first: u128, k: nat)
    ensures
        EVICTION_INTERVAL_SECS == 60,
        tick(first, 0) == first,
        tick(first, k + 1) == tick(first, k) + 60_000_000_000,
{
    let interval: int = EVICTION_INTERVAL_SECS * 1_000_000_000;
    assert((k + 1) * interval == k * interval + interval) by (nonlinear_arith);
    assert(0 * interval == 0) by (nonlinear_arith);
}

/// A client's stream holds a hundred commands, a subscriber may lag behind by a
/// hundred events, and a caller waits ten seconds for a response.
pub proof fn limits_are_these()
    ensures
        COMMAND_CAPACITY == 100,
        EVENT_CAPACITY == 100,
        RESPONSE_TIMEOUT_SECS == 10,
{
}

/// No departure is announced twice.
proof fn lemma_goodbyes_differ(registry: RegistryView, ids: Seq<Seq<char>>)
    requires
        ids.no_duplicates(),
    ensures
        goodbyes(registry, ids).no_duplicates(),
    decreases ids.len(),
{
    if ids.len() > 0 {
        let rest = ids.drop_last();
        lemma_goodbyes_differ(registry, rest);
        let said = goodbyes(registry, rest);
        let event = EventView::Disconnected(ids.last());
        eviction_announces_the_connected(registry, rest, event);
        if said.contains(event) {
            let i = choose|i: int|
                0 <= i < rest.len() && registry.clients.contains_key(#[trigger] rest[i]) && event
                    == EventView::Disconnected(rest[i]);
            assert(ids[i] == ids[ids.len() - 1]);
        }
        assert(forall|k: int| 0 <= k < said.len() ==> #[trigger] said.contains(said[k]));
    }
}

/// An eviction at `now` leaves exactly the clients and the readings that are not
/// more than `timeout` old, each as it was. What waits, and whoever waits, stays.
/// Behind what was announced before comes the going of each client that was
/// connected and is dropped, once, and nothing else.
pub proof fn eviction_is_noted(
    registry: RegistryView,
    now: u128,
    timeout: u128,
    evicted: Seq<Seq<char>>,
    id: Seq<char>,
)
    requires
        lists(evicted, registry.stale(now, timeout)),
    ensures
        ({
            let after = registry.unregistered_all(evicted);
            let count = registry.events.len() as int;
            let goes = registry.last_seen.contains_key(id) && now - registry.last_seen[id]
                > timeout;
            &&& after.clients.contains_key(id) <==> registry.clients.contains_key(id) && !goes
            &&& after.clients.contains_key(id) ==> after.clients[id] == registry.clients[id]
            &&& after.last_seen.contains_key(id) <==> registry.last_seen.contains_key(id) && !goes
            &&& after.last_seen.contains_key(id) ==> after.last_seen[id] == registry.last_seen[id]
            &&& after.events.len() >= count
            &&& forall|i: int| 0 <= i < count ==> #[trigger] after.events[i] == registry.events[i]
            &&& registry.clients.contains_key(id) && goes <==> exists|i: int|
                count <= i < after.events.len() && #[trigger] after.events[i]
                    == EventView::Disconnected(id)
            &&& forall|i: int|
                count <= i < after.events.len() ==> (#[trigger] after.events[i]) is Disconnected
            &&& forall|i: int, j: int|
                count <= i < j < after.events.len() ==> #[trigger] after.events[i]
                    != #[trigger] after.events[j]
            &&& after.pending == registry.pending
            &&& after.waiters == registry.waiters
            &&& after.event_capacity == registry.event_capacity
            &&& after.listeners == registry.listeners
            &&& after.started == registry.started
        }),
{
    eviction_drops_the_stale(registry, now, timeout, evicted);
    lemma_goodbyes_differ(registry, evicted);
    let after = registry.unregistered_all(evicted);
    let count = registry.events.len() as int;
    let said = goodbyes(registry, evicted);
    let stale = registry.stale(now, timeout);
    assert(stale.contains(id) <==> evicted.contains(id));
    assert(forall|i: int| 0 <= i < said.len() ==> #[trigger] said[i] == after.events[count + i]);
    assert(forall|i: int|
        count <= i < after.events.len() ==> #[trigger] after.events[i] == said[i - count]);
    eviction_announces_the_connected(registry, evicted, EventView::Disconnected(id));
    if registry.clients.contains_key(id) && stale.contains(id) {
        let k = choose|k: int| 0 <= k < evicted.len() && evicted[k] == id;
        assert(registry.clients.contains_key(evicted[k]));
        let i = choose|i: int| 0 <= i < said.len() && said[i] == EventView::Disconnected(id);
        assert(after.events[count + i] == EventView::Disconnected(id));
    }
    if exists|i: int|
        count <= i < after.events.len() && #[trigger] after.events[i] == EventView::Disconnected(
            id,
        ) {
        let i = choose|i: int|
            count <= i < after.events.len() && #[trigger] after.events[i]
                == EventView::Disconnected(id);
        assert(said.contains(said[i - count]));
        let k = choose|k: int|
            0 <= k < evicted.len() && registry.clients.contains_key(#[trigger] evicted[k])
                && EventView::Disconnected(id) == EventView::Disconnected(evicted[k]);
        assert(evicted.contains(evicted[k]));
    }
    assert forall|i: int| count <= i < after.events.len() implies (
    #[trigger] after.events[i]) is Disconnected by {
        let event = said[i - count];
        eviction_announces_the_connected(registry, evicted, event);
        assert(said.contains(event));
    }
}

/// A listing names each member once, and nobody else.
pub proof fn listing_is_complete(ids: Seq<Seq<char>>, set: Set<Seq<char>>, id: Seq<char>)
    requires
        lists(ids, set),
    ensures
        set.contains(id) <==> exists|i: int| 0 <= i < ids.len() && #[trigger] ids[i] == id,
        forall|i: int, j: int|
            0 <= i < j < ids.len() ==> #[trigger] ids[i] != #[trigger] ids[j],
{
    assert(set.contains(id) <==> ids.contains(id));
}

/// What holds of every registry: a connected client was seen and nothing waits
/// for it, and where something waits it is at least one command.
pub proof fn registry_is_consistent(registry: RegistryView, id: Seq<char>)
    requires
        registry.well_formed(),
    ensures
        registry.clients.contains_key(id) ==> registry.last_seen.contains_key(id)
            && !registry.pending.contains_key(id),
        registry.pending.contains_key(id) ==> registry.pending[id].len() > 0,
{
}

/// Commands that were offered to a stream stand in its record behind what was
/// there, each one, in their order. A command was taken if there was room. As long
/// as nobody else used the stream, there was room for as many of the first ones as
/// places were free at the first, and a stream that was closed then took none.
pub proof fn offered_commands_are_recorded(
    before: CommandSender,
    commands: Seq<CloudCommand>,
    after: CommandSender,
)
    requires
        offered(before, commands, after),
        filled(before, after),
        same_stream(before, after),
    ensures
        ({
            let first = offers(before).len() as int;
            let record = offers(after);
            &&& record.len() == first + commands.len()
            &&& forall|i: int| 0 <= i < first ==> #[trigger] record[i] == offers(before)[i]
            &&& forall|i: int|
                0 <= i < commands.len() ==> (#[trigger] record[first + i]).command == commands[i]
            &&& (forall|i: int| first < i < record.len() ==> (#[trigger] record[i]).alone)
                ==> forall|i: int|
                first <= i < record.len() ==> ((#[trigger] record[i]).room > 0 <==> i - first
                    < record[first].room)
            &&& first < record.len() && !record[first].open ==> forall|i: int|
                first <= i < record.len() ==> (#[trigger] record[i]).room == 0
        }),
        command_capacity(after) == command_capacity(before),
        forall|receiver: CommandReceiver| #[trigger]
            feeds(after, receiver) == feeds(before, receiver),
{
    let first = offers(before).len() as int;
    let record = offers(after);
    assert forall|i: int| 0 <= i < first implies #[trigger] record[i] == offers(before)[i] by {
        assert(record.take(first)[i] == record[i]);
    }
    if first < record.len() && !record[first].open {
        assert forall|i: int| first <= i < record.len() implies (#[trigger] record[i]).room
            == 0 by {
            assert(!record[i].taken());
        }
    }
    if forall|i: int| first < i < record.len() ==> (#[trigger] record[i]).alone {
        assert forall|i: int| first <= i < record.len() implies ((#[trigger] record[i]).room > 0
            <==> i - first < record[first].room) by {
            assert(record[i].taken() <==> i - first < record[first].room);
        }
    }
}

/// An announced event says the same as the one that subscribers are handed.
pub proof fn events_say_what_they_are(id: String)
    ensures
        ConnectionEvent::Connected(id)@ == EventView::Connected(id@),
        ConnectionEvent::Disconnected(id)@ == EventView::Disconnected(id@),
{
}

/// Who listens to a channel is who was subscribed to it.
pub proof fn listeners_are_subscribed(sender: EventSender, receiver: EventReceiver)
    ensures
        listeners(sender).contains(receiver) <==> hears(sender, receiver),
{
}

/// The texts of a list, each in its place.
pub proof fn views_are_the_texts(texts: Seq<String>)
    ensures
        views(texts).len() == texts.len(),
        forall|i: int| 0 <= i < texts.len() ==> #[trigger] views(texts)[i] == texts[i]@,
{
}

/// A session that registers its own id, and was not refused before, connects its
/// client under that id, over the session's stream, as seen at `now`: it is not
/// stale before the limit has passed since then. All that waited for it is set
/// free, in its order, and then waits no more; the count is reported, with the
/// version that the client runs. Its coming is announced. Nobody else is touched.
pub proof fn registering_connects_the_client(
    session: SessionView,
    registry: RegistryView,
    registration: Registration,
    sender: CommandSender,
    now: u128,
    step: SessionStep,
    other: Seq<char>,
)
    requires
        !session.ended,
        registration.client_id@ == session.hardware_id,
        session.next_step(registry, Some(ClientMessage::Register(registration)), step),
    ensures
        ({
            let id = registration.client_id@;
            let message = Some(ClientMessage::Register(registration));
            let after = session.next_registry(registry, message, sender, now);
            let next = session.next(message);
            let freed = session.freed(registry, message);
            let count = registry.events.len() as int;
            &&& next.client_id == Some(id)
            &&& next.hardware_id == id
            &&& !next.ended
            &&& after.clients.contains_key(id) && after.clients[id] == sender
            &&& after.last_seen.contains_key(id) && after.last_seen[id] == now
            &&& !after.pending.contains_key(id)
            &&& registry.pending.contains_key(id) ==> freed == registry.pending[id]
            &&& !registry.pending.contains_key(id) ==> freed.len() == 0
            &&& step is Registered
            &&& step->version@ == registration.version@
            &&& step->flushed == freed.len()
            &&& after.events.len() == count + 1
            &&& after.events[count] == EventView::Connected(id)
            &&& forall|i: int| 0 <= i < count ==> #[trigger] after.events[i] == registry.events[i]
            &&& other != id ==> {
                &&& after.clients.contains_key(other) <==> registry.clients.contains_key(other)
                &&& after.clients.contains_key(other) ==> after.clients[other]
                    == registry.clients[other]
                &&& after.last_seen.contains_key(other) <==> registry.last_seen.contains_key(other)
                &&& after.last_seen.contains_key(other) ==> after.last_seen[other]
                    == registry.last_seen[other]
                &&& after.pending.contains_key(other) <==> registry.pending.contains_key(other)
                &&& after.pending.contains_key(other) ==> after.pending[other]
                    == registry.pending[other]
            }
            &&& after.waiters == registry.waiters
            &&& after.event_capacity == registry.event_capacity
            &&& after.listeners == registry.listeners
            &&& after.started == registry.started
            &&& forall|later: u128, timeout: u128|
                later <= now + timeout ==> !(#[trigger] after.stale(later, timeout)).contains(id)
        }),
{
}

/// A session that claims an id that is not its token's is told which id it
/// claimed and ends; it gets no new name, and nothing is set free.
pub proof fn foreign_claim_ends_the_session(
    session: SessionView,
    registry: RegistryView,
    registration: Registration,
    sender: CommandSender,
    now: u128,
    step: SessionStep,
)
    requires
        !session.ended,
        registration.client_id@ != session.hardware_id,
        session.next_step(registry, Some(ClientMessage::Register(registration)), step),
    ensures
        ({
            let message = Some(ClientMessage::Register(registration));
            let next = session.next(message);
            &&& next.ended
            &&& next.client_id == session.client_id
            &&& next.hardware_id == session.hardware_id
            &&& session.next_registry(registry, message, sender, now) == registry
            &&& session.freed(registry, message).len() == 0
            &&& step is Refuse
            &&& step->claimed@ == registration.client_id@
        }),
{
}

/// A ping counts as a sign of life of the session's client at `now`, so the client
/// is not stale before the limit has passed since then; before the client
/// registered it counts for the empty id. It does nothing else.
pub proof fn ping_keeps_the_client_alive(
    session: SessionView,
    registry: RegistryView,
    sender: CommandSender,
    now: u128,
    step: SessionStep,
    other: Seq<char>,
)
    requires
        !session.ended,
        session.next_step(registry, Some(ClientMessage::Ping), step),
    ensures
        ({
            let id = if session.client_id is Some {
                session.client_id->0
            } else {
                Seq::<char>::empty()
            };
            let message = Some(ClientMessage::Ping);
            let after = session.next_registry(registry, message, sender, now);
            &&& session.next(message) == session
            &&& session.freed(registry, message).len() == 0
            &&& step is Idle
            &&& after.last_seen.contains_key(id) && after.last_seen[id] == now
            &&& other != id ==> {
                &&& after.last_seen.contains_key(other) <==> registry.last_seen.contains_key(other)
                &&& after.last_seen.contains_key(other) ==> after.last_seen[other]
                    == registry.last_seen[other]
            }
            &&& after.clients == registry.clients
            &&& after.pending == registry.pending
            &&& after.waiters == registry.waiters
            &&& after.events == registry.events
            &&& after.event_capacity == registry.event_capacity
            &&& after.listeners == registry.listeners
            &&& after.started == registry.started
            &&& forall|later: u128, timeout: u128|
                later <= now + timeout ==> !(#[trigger] after.stale(later, timeout)).contains(id)
        }),
{
}

/// A response that a session brings, whether or not its client has registered, is
/// given to whoever waits under its command id, as it is, and to nobody if nobody
/// does. Then nobody waits under that id, every other caller waits as before, and
/// nothing else changes.
pub proof fn response_goes_to_its_caller(
    session: SessionView,
    registry: RegistryView,
    response: CommandResponse,
    sender: CommandSender,
    now: u128,
    step: SessionStep,
    other: Seq<char>,
)
    requires
        !session.ended,
        session.next_step(registry, Some(ClientMessage::Response(response)), step),
    ensures
        ({
            let id = response.command_id@;
            let message = Some(ClientMessage::Response(response));
            let after = session.next_registry(registry, message, sender, now);
            &&& session.next(message) == session
            &&& session.freed(registry, message).len() == 0
            &&& step is Answered
            &&& step->taken is Some <==> registry.waiters.contains_key(id)
            &&& registry.waiters.contains_key(id) ==> replied(
                registry.waiters[id],
                response,
                step->taken->0,
            )
            &&& !after.waiters.contains_key(id)
            &&& other != id ==> {
                &&& after.waiters.contains_key(other) <==> registry.waiters.contains_key(other)
                &&& after.waiters.contains_key(other) ==> after.waiters[other]
                    == registry.waiters[other]
            }
            &&& after.clients == registry.clients
            &&& after.pending == registry.pending
            &&& after.last_seen == registry.last_seen
            &&& after.events == registry.events
            &&& after.event_capacity == registry.event_capacity
            &&& after.listeners == registry.listeners
            &&& after.started == registry.started
        }),
{
}

/// A session that was opened and registered its own id, and then brings the
/// response to a command that was sent to its client and is awaited: the command
/// went into the session's stream, the response is given to the caller that began
/// to wait, and nobody waits for it any more.
pub proof fn registered_client_answers_its_caller(
    session: SessionView,
    registry: RegistryView,
    registration: Registration,
    sender: CommandSender,
    now: u128,
    command: CloudCommand,
    waiter: ReplySender,
    response: CommandResponse,
    later: u128,
    step: SessionStep,
)
    requires
        session.client_id is None,
        !session.ended,
        registration.client_id@ == session.hardware_id,
        response.command_id@ == command.command_id@,
        ({
            let hello = Some(ClientMessage::Register(registration));
            let begun = session.next_registry(registry, hello, sender, now).awaiting(
                command.command_id@,
                waiter,
            ).routed(registration.client_id@, command);
            session.next(hello).next_step(begun, Some(ClientMessage::Response(response)), step)
        }),
    ensures
        ({
            let hello = Some(ClientMessage::Register(registration));
            let answer = Some(ClientMessage::Response(response));
            let connected = session.next_registry(registry, hello, sender, now);
            let awaited = connected.awaiting(command.command_id@, waiter);
            let sent = awaited.route(registration.client_id@, command);
            let begun = awaited.routed(registration.client_id@, command);
            let done = session.next(hello).next_registry(begun, answer, sender, later);
            &&& sent is Deliver && sent->sender == sender && sent->command == command
            &&& step is Answered
            &&& step->taken is Some
            &&& replied(waiter, response, step->taken->0)
            &&& !done.waiters.contains_key(command.command_id@)
            &&& done.clients.contains_key(registration.client_id@)
            &&& done.clients[registration.client_id@] == sender
        }),
{
}

/// A new token is handed out for validation as it is, a log line is handed out as
/// it is, and a message without content asks for nothing. None of them changes
/// the session or the registry.
pub proof fn other_messages_change_nothing(
    session: SessionView,
    registry: RegistryView,
    message: Option<ClientMessage>,
    sender: CommandSender,
    now: u128,
    step: SessionStep,
)
    requires
        !session.ended,
        message is None || message->0 is Refresh || message->0 is Log,
        session.next_step(registry, message, step),
    ensures
        session.next(message) == session,
        session.next_registry(registry, message, sender, now) == registry,
        session.freed(registry, message).len() == 0,
        message is None ==> step is Idle,
        message is Some && message->0 is Refresh ==> step is Validate && step->token@
            == message->0->new_jwt@,
        message is Some && message->0 is Log ==> step is Report && step->level@
            == message->0->level@ && step->Report_message@ == message->0->Log_message@,
{
}

/// Nothing that comes after a refusal counts.
pub proof fn refused_session_stays_refused(
    session: SessionView,
    registry: RegistryView,
    message: Option<ClientMessage>,
    sender: CommandSender,
    now: u128,
    step: SessionStep,
)
    requires
        session.ended,
        session.next_step(registry, message, step),
    ensures
        session.next(message) == session,
        session.next_registry(registry, message, sender, now) == registry,
        session.freed(registry, message).len() == 0,
        step is Ended,
{
}

/// When the stream of a client that registered under an id that is not empty
/// ends, the client is not connected and has no last activity any more, and its
/// going is announced if it was still connected. If the client never registered,
/// or registered under the empty id, nothing changes.
pub proof fn end_of_a_session_drops_its_client(
    session: SessionView,
    registry: RegistryView,
    other: Seq<char>,
)
    ensures
        ({
            let id = session.client_id->0;
            let after = session.closed(registry);
            let count = registry.events.len() as int;
            &&& session.client_id is None ==> after == registry
            &&& session.client_id is Some && id.len() == 0 ==> after == registry
            &&& session.client_id is Some && id.len() > 0 ==> {
                &&& !after.clients.contains_key(id)
                &&& !after.last_seen.contains_key(id)
                &&& registry.clients.contains_key(id) ==> after.events.len() == count + 1
                    && after.events[count] == EventView::Disconnected(id)
                &&& !registry.clients.contains_key(id) ==> after.events.len() == count
                &&& forall|i: int|
                    0 <= i < count ==> #[trigger] after.events[i] == registry.events[i]
                &&& other != id ==> {
                    &&& after.clients.contains_key(other) <==> registry.clients.contains_key(other)
                    &&& after.clients.contains_key(other) ==> after.clients[other]
                        == registry.clients[other]
                    &&& after.last_seen.contains_key(other) <==> registry.last_seen.contains_key(
                        other,
                    )
                    &&& after.last_seen.contains_key(other) ==> after.last_seen[other]
                        == registry.last_seen[other]
                }
                &&& after.pending == registry.pending
                &&& after.waiters == registry.waiters
                &&& after.event_capacity == registry.event_capacity
                &&& after.listeners == registry.listeners
                &&& after.started == registry.started
            }
        }),
{
}

/// A client that comes, goes, and comes again over a new stream gets the command
/// that was sent to it while it was away, that one alone, and the command that is
/// sent to it then goes into the new stream.
pub proof fn returning_client_gets_what_it_missed(
    session: SessionView,
    registry: RegistryView,
    registration: Registration,
    first: CommandSender,
    first_now: u128,
    missed: CloudCommand,
    second: CommandSender,
    second_now: u128,
    next: CloudCommand,
)
    requires
        session.client_id is None,
        !session.ended,
        registration.client_id@ == session.hardware_id,
        session.hardware_id.len() > 0,
    ensures
        ({
            let id = registration.client_id@;
            let hello = Some(ClientMessage::Register(registration));
            let came = session.next_registry(registry, hello, first, first_now);
            let away = session.next(hello).closed(came);
            let waiting = away.routed(id, missed);
            let back = session.next_registry(waiting, hello, second, second_now);
            let sent = back.route(id, next);
            &&& away.route(id, missed) is Queued
            &&& session.freed(waiting, hello) == seq![missed]
            &&& !back.pending.contains_key(id)
            &&& sent is Deliver && sent->sender == second && sent->command == next
        }),
{
    let id = registration.client_id@;
    let hello = Some(ClientMessage::Register(registration));
    let came = session.next_registry(registry, hello, first, first_now);
    let waiting = session.next(hello).closed(came).routed(id, missed);
    assert(session.freed(waiting, hello) =~= seq![missed]);
}

/// A session goes by the id of its token or by none.
pub proof fn session_goes_by_its_token(session: SessionView)
    requires
        session.well_formed(),
    ensures
        session.client_id is Some ==> session.client_id->0 == session.hardware_id,
{
}

/// A header whose characters are `Bearer`, a space and a token gives exactly that
/// token, and carries it; no other header gives or carries it.
pub proof fn bearer_header_gives_its_token(bytes: Seq<u8>, token: Seq<char>)
    ensures
        visible(bytes) && characters(bytes) == "Bearer "@ + token <==> token_in(Some(bytes)) == Ok::<
            Seq<char>,
            AuthError,
        >(token),
        visible(bytes) && characters(bytes) == "Bearer "@ + token <==> carries(Some(bytes), token),
{
    reveal_strlit("Bearer ");
    let text = characters(bytes);
    if text == "Bearer "@ + token {
        assert(text.skip(7) =~= token);
        assert("Bearer "@.is_prefix_of(text));
    }
    if "Bearer "@.is_prefix_of(text) {
        assert(text =~= "Bearer "@ + text.skip(7));
    }
}

/// The bytes begin with `Bearer` and a space, in this spelling.
spec fn begins_with_bearer(bytes: Seq<u8>) -> bool {
    &&& bytes.len() >= 7
    &&& bytes[0] == 66 && bytes[1] == 101 && bytes[2] == 97 && bytes[3] == 114
    &&& bytes[4] == 101 && bytes[5] == 114 && bytes[6] == 32
}

/// What begins with `Bearer` and a space as characters does so as bytes.
proof fn lemma_begins_with_bearer(bytes: Seq<u8>)
    requires
        visible(bytes),
    ensures
        "Bearer "@.is_prefix_of(characters(bytes)) <==> begins_with_bearer(bytes),
{
    reveal_strlit("Bearer ");
    let prefix = "Bearer "@;
    let text = characters(bytes);
    assert(forall|i: int| 0 <= i < bytes.len() ==> (#[trigger] text[i]) as int == bytes[i]);
    assert(prefix[0] as int == 66 && prefix[1] as int == 101 && prefix[2] as int == 97
        && prefix[3] as int == 114 && prefix[4] as int == 101 && prefix[5] as int == 114
        && prefix[6] as int == 32);
    if prefix.is_prefix_of(text) {
        assert(text[0] == prefix[0] && text[1] == prefix[1] && text[2] == prefix[2] && text[3]
            == prefix[3] && text[4] == prefix[4] && text[5] == prefix[5] && text[6] == prefix[6]);
    }
    if begins_with_bearer(bytes) {
        assert(text[0] == prefix[0] && text[1] == prefix[1] && text[2] == prefix[2] && text[3]
            == prefix[3] && text[4] == prefix[4] && text[5] == prefix[5] && text[6] == prefix[6]);
        assert(prefix =~= text.take(7));
    }
}

/// What a request's authorization header gives, byte by byte. Without a header
/// the token is missing; with a byte that is neither printable ASCII nor a tab the
/// format is wrong; without `Bearer` and a space in front, in this spelling, a
/// bearer token is required; else each byte behind them is a character of the
/// token, as it stands.
pub proof fn header_is_read_byte_by_byte(
    value: Option<Vec<u8>>,
    result: Result<String, AuthError>,
)
    requires
        is_result(result, token_in(bytes_of(value))),
    ensures
        value is None ==> result is Err && result->Err_0 == AuthError::MissingToken,
        value is Some ==> {
            let bytes = value->0@;
            let is_text = forall|i: int|
                0 <= i < bytes.len() ==> 32 <= #[trigger] bytes[i] < 127 || bytes[i] == 9;
            let is_bearer = bytes.len() >= 7 && bytes[0] == 66 && bytes[1] == 101 && bytes[2] == 97
                && bytes[3] == 114 && bytes[4] == 101 && bytes[5] == 114 && bytes[6] == 32;
            &&& !is_text ==> result is Err && result->Err_0 == AuthError::InvalidFormat
            &&& is_text && !is_bearer ==> result is Err && result->Err_0
                == AuthError::BearerRequired
            &&& is_text && is_bearer ==> {
                &&& result is Ok
                &&& result->Ok_0@.len() == bytes.len() - 7
                &&& forall|i: int|
                    0 <= i < bytes.len() - 7 ==> (#[trigger] result->Ok_0@[i]) as int == bytes[i
                        + 7]
            }
        },
{
    if let Some(bytes) = value {
        if visible(bytes@) {
            lemma_begins_with_bearer(bytes@);
        }
    }
}

/// An interceptor lets in exactly the requests whose header is `Bearer`, a space
/// and its token, byte by byte.
pub proof fn interceptor_lets_in_its_token_only(value: Option<Vec<u8>>, token: Seq<char>)
    ensures
        carries(bytes_of(value), token) <==> value is Some && ({
            let bytes = value->0@;
            &&& forall|i: int|
                0 <= i < bytes.len() ==> 32 <= #[trigger] bytes[i] < 127 || bytes[i] == 9
            &&& bytes.len() == token.len() + 7
            &&& bytes[0] == 66 && bytes[1] == 101 && bytes[2] == 97 && bytes[3] == 114 && bytes[4]
                == 101 && bytes[5] == 114 && bytes[6] == 32
            &&& forall|i: int|
                0 <= i < token.len() ==> (#[trigger] token[i]) as int == bytes[i + 7]
        }),
{
    reveal_strlit("Bearer ");
    if let Some(bytes) = value {
        let bytes = bytes@;
        let text = characters(bytes);
        let prefix = "Bearer "@;
        if visible(bytes) {
            lemma_begins_with_bearer(bytes);
            assert(forall|i: int| 0 <= i < bytes.len() ==> (#[trigger] text[i]) as int == bytes[i]);
            if text == prefix + token {
                assert(prefix.is_prefix_of(text));
                assert forall|i: int| 0 <= i < token.len() implies (#[trigger] token[i]) as int
                    == bytes[i + 7] by {
                    assert((prefix + token)[i + 7] == token[i]);
                }
            }
            if begins_with_bearer(bytes) && bytes.len() == token.len() + 7 && (forall|i: int|
                0 <= i < token.len() ==> (#[trigger] token[i]) as int == bytes[i + 7]) {
                assert(text.take(7) =~= prefix);
                assert forall|i: int| 7 <= i < text.len() implies #[trigger] text[i]
                    == token[i - 7] by {
                    assert(token[i - 7] as int == bytes[i]);
                }
                assert(text =~= prefix + token);
            }
        }
    }
}

/// What a client is told for each reason of a refusal.
pub proof fn refusals_are_worded(error: AuthError)
    ensures
        error is MissingToken ==> error.text() == "Missing authorization token"@,
        error is InvalidFormat ==> error.text() == "Invalid token format"@,
        error is BearerRequired ==> error.text() == "Bearer token required"@,
        error is InvalidToken ==> error.text() == "Invalid token"@,
        error is NotAdmitted ==> error.text() == "Invalid or missing Bearer token"@,
{
}

/// The default validator's claims are those of the debug client, and end an hour
/// after they were made; the sum wraps where it does not fit.
pub proof fn default_claims_last_an_hour(claims: Claims, now: i64)
    requires
        default_claims(claims, now),
    ensures
        claims.sub@ == "debug-client"@,
        0 <= now && now + 3600 <= usize::MAX ==> claims.exp == now + 3600,
        now as usize + 3600 <= usize::MAX ==> claims.exp == now as usize + 3600,
        now as usize + 3600 > usize::MAX ==> claims.exp == now as usize + 3600 - usize::MAX - 1,
{
}

/// The start of an id that may stand in a log: the id itself up to eight bytes,
/// else its first eight.
pub proof fn log_shows_eight_bytes_at_most(id: Seq<u8>)
    ensures
        id.len() <= 8 ==> anonymized(id) == id,
        id.len() > 8 ==> anonymized(id).len() == 8,
        forall|i: int| 0 <= i < anonymized(id).len() ==> #[trigger] anonymized(id)[i] == id[i],
{
}

/// A number in decimal ends with the digit of its units; in front of it stands the
/// number without them, if there is one.
pub proof fn decimal_is_read_digit_by_digit(n: nat)
    ensures
        decimal(n).len() > 0,
        decimal(n).last() as int == '0' as int + n % 10,
        n < 10 ==> decimal(n).len() == 1,
        n >= 10 ==> decimal(n).drop_last() == decimal(n / 10),
        n > 0 ==> decimal(n)[0] != '0',
    decreases n,
{
    if n >= 10 {
        decimal_is_read_digit_by_digit(n / 10);
        assert(decimal(n).drop_last() =~= decimal(n / 10));
        assert(decimal(n)[0] == decimal(n / 10)[0]);
    }
}

/// Different numbers read differently in decimal.
pub proof fn decimal_tells_numbers_apart(a: nat, b: nat)
    ensures
        decimal(a) == decimal(b) ==> a == b,
    decreases a,
{
    decimal_is_read_digit_by_digit(a);
    decimal_is_read_digit_by_digit(b);
    if decimal(a) == decimal(b) {
        if a >= 10 && b >= 10 {
            decimal_tells_numbers_apart(a / 10, b / 10);
        } else if a >= 10 {
            decimal_is_read_digit_by_digit(a / 10);
            assert(decimal(a).drop_last().len() == decimal(a).len() - 1);
        } else if b >= 10 {
            decimal_is_read_digit_by_digit(b / 10);
            assert(decimal(b).drop_last().len() == decimal(b).len() - 1);
        }
    }
}

/// Where the certificate and its key are kept: in `certs` of the product's
/// directory in the application data on Windows, or in the working directory in
/// place of them where they are not known; elsewhere in `./certs`.
pub proof fn certificates_are_kept_here(windows: bool, appdata: Option<Seq<char>>)
    ensures
        !windows ==> directory(windows, appdata) == seq!["./certs"@],
        windows ==> {
            let parts = directory(windows, appdata);
            &&& parts.len() == 3
            &&& appdata is Some ==> parts[0] == appdata->0
            &&& appdata is None ==> parts[0] == "."@
            &&& parts[1] == "WasmBridgeCloud"@
            &&& parts[2] == "certs"@
        },
{
}

/// A path that was given is taken as it was given.
pub proof fn given_paths_are_kept(path: Option<String>)
    ensures
        path is Some ==> appdata_view(path) == Some(path->0@),
        path is None ==> appdata_view(path) is None,
        path is Some ==> path_view(path) == Some(path->0@),
        path is None ==> path_view(path) is None,
{
}

/// A certificate that a server makes for itself is for the local host, by name
/// and by address.
pub proof fn certificate_is_for_the_local_host()
    ensures
        host_names().len() == 2,
        host_names()[0] == "localhost"@,
        host_names()[1] == "127.0.0.1"@,
{
}

/// What was generated is taken up as it is: the certificate as the certificate,
/// the key as the key, and a failure with its cause.
pub proof fn generated_certificate_is_taken_up(
    certificates: Result<SelfSigned, CertError>,
    made: Result<(String, String), rcgen::Error>,
)
    requires
        follows(certificates, made),
    ensures
        certificates is Ok <==> made is Ok,
        made is Ok ==> certificates->Ok_0.cert_pem == made->Ok_0.0,
        made is Ok ==> certificates->Ok_0.key_pem == made->Ok_0.1,
        made is Err ==> certificates->Err_0.cause == made->Err_0,
{
}

} // verus!
