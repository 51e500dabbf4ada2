//! What holds of the library as a whole.
use crate::auth::{carries, characters, token_in, AuthError};
use crate::builder::EVICTION_INTERVAL_SECS;
use crate::channels::{
    command_capacity, continues, missed, offers, CommandSender, EventReceiver, ReplySender,
};
use crate::handle::stale_after;
use crate::messages::{ClientMessage, CloudCommand, EventView};
use crate::registry::{filled, lists, offered, unshared, RegistryView, SendStep};
use crate::session::{SessionStep, SessionView};
use vstd::prelude::*;

verus! {

/// The registry after all of `commands` were sent to `id`, the first one first.
pub open spec fn routed_all(
    registry: RegistryView,
    id: Seq<char>,
    commands: Seq<CloudCommand>,
) -> RegistryView
    decreases commands.len(),
{
    if commands.len() == 0 {
        registry
    } else {
        routed_all(registry, id, commands.drop_last()).routed(id, commands.last())
    }
}

/// Commands that are sent to a client while it is away change nothing but what
/// waits for it, and wait behind what waited before, in the order in which they
/// were sent.
pub proof fn commands_wait_in_order(
    registry: RegistryView,
    id: Seq<char>,
    commands: Seq<CloudCommand>,
)
    requires
        !registry.clients.contains_key(id),
    ensures
        routed_all(registry, id, commands).backlog(id) == registry.backlog(id) + commands,
        routed_all(registry, id, commands) == (RegistryView {
            pending: routed_all(registry, id, commands).pending,
            ..registry
        }),
        forall|other: Seq<char>|
            other != id ==> #[trigger] routed_all(registry, id, commands).backlog(other)
                == registry.backlog(other),
    decreases commands.len(),
{
    if commands.len() == 0 {
        assert(registry.backlog(id) + commands =~= registry.backlog(id));
    } else {
        commands_wait_in_order(registry, id, commands.drop_last());
        assert(registry.backlog(id) + commands =~= (registry.backlog(id)
            + commands.drop_last()).push(commands.last()));
        assert forall|other: Seq<char>| other != id implies #[trigger] routed_all(
            registry,
            id,
            commands,
        ).backlog(other) == registry.backlog(other) by {
            let earlier = routed_all(registry, id, commands.drop_last());
            assert(earlier.backlog(other) == registry.backlog(other));
        }
    }
}

/// What was sent to a client while it was away is offered to its stream when it
/// comes, all of it, in the order in which it was sent, behind what waited
/// before; then nothing waits for it any more.
pub proof fn waiting_commands_reach_the_client(
    registry: RegistryView,
    id: Seq<char>,
    commands: Seq<CloudCommand>,
    sender: CommandSender,
    now: u128,
    before: CommandSender,
    after: CommandSender,
)
    requires
        !registry.clients.contains_key(id),
        offered(before, routed_all(registry, id, commands).backlog(id), after),
    ensures
        offered(before, registry.backlog(id) + commands, after),
        routed_all(registry, id, commands).registered(id, sender, now).backlog(id).len() == 0,
{
    commands_wait_in_order(registry, id, commands);
}

/// Into a stream that nobody else uses meanwhile go the first commands that
/// waited for the client, as many as the stream has room for, in their order;
/// those beyond are lost. If others use it meanwhile, the commands are still
/// offered in their order, and a closed stream takes none.
pub proof fn first_waiting_commands_fit(
    registry: RegistryView,
    id: Seq<char>,
    sender: CommandSender,
    now: u128,
    before: CommandSender,
    after: CommandSender,
)
    requires
        offered(before, registry.backlog(id), after),
        filled(before, after),
    ensures
        ({
            let first = offers(before).len() as int;
            let commands = registry.backlog(id);
            let record = offers(after);
            &&& record.len() == first + commands.len()
            &&& forall|i: int|
                0 <= i < commands.len() ==> (#[trigger] record[first + i]).command == commands[i]
            &&& unshared(before, after) ==> forall|i: int|
                0 <= i < commands.len() ==> ((#[trigger] record[first + i]).taken() <==> i
                    < record[first].room)
            &&& commands.len() > 0 && !record[first].open ==> forall|i: int|
                0 <= i < commands.len() ==> !(#[trigger] record[first + i]).taken()
        }),
        registry.registered(id, sender, now).backlog(id).len() == 0,
{
}

/// Into a new stream that nobody else uses go as many of the first commands that
/// waited for the client as the stream holds.
pub proof fn new_stream_has_room_for_its_capacity(
    registry: RegistryView,
    id: Seq<char>,
    before: CommandSender,
    after: CommandSender,
)
    requires
        offers(before).len() == 0,
        offered(before, registry.backlog(id), after),
        filled(before, after),
        forall|i: int| 0 <= i < offers(after).len() ==> (#[trigger] offers(after)[i]).alone,
    ensures
        offers(after).len() == registry.backlog(id).len(),
        forall|i: int|
            0 <= i < offers(after).len() ==> {
                &&& (#[trigger] offers(after)[i]).command == registry.backlog(id)[i]
                &&& offers(after)[i].taken() <==> i < command_capacity(before)
            },
{
    let record = offers(after);
    assert forall|i: int| 0 <= i < record.len() implies {
        &&& (#[trigger] record[i]).command == registry.backlog(id)[i]
        &&& record[i].taken() <==> i < command_capacity(before)
    } by {
        assert(record[offers(before).len() + i].command == registry.backlog(id)[i]);
        assert(continues(record, 0, command_capacity(before)));
        assert(unshared(before, after));
    }
}

/// No waiting command is lost or overtaken: whatever happens but a registration
/// of the client itself, what waits for it stays, with new commands behind.
pub proof fn waiting_commands_stay(registry: RegistryView, id: Seq<char>)
    ensures
        forall|other: Seq<char>, sender: CommandSender, now: u128|
            other != id ==> #[trigger] registry.registered(other, sender, now).backlog(id)
                == registry.backlog(id),
        forall|other: Seq<char>| #[trigger]
            registry.unregistered(other).backlog(id) == registry.backlog(id),
        forall|other: Seq<char>, now: u128| #[trigger]
            registry.active(other, now).backlog(id) == registry.backlog(id),
        forall|other: Seq<char>, command: CloudCommand|
            registry.backlog(id).is_prefix_of(
                #[trigger] registry.routed(other, command).backlog(id),
            ),
        forall|command_id: Seq<char>, waiter: ReplySender| #[trigger]
            registry.awaiting(command_id, waiter).backlog(id) == registry.backlog(id),
        forall|command_id: Seq<char>| #[trigger]
            registry.forgotten(command_id).backlog(id) == registry.backlog(id),
{
}

/// Callers wait undisturbed by clients that come, go or give signs of life, and
/// by other commands.
pub proof fn callers_wait_undisturbed(registry: RegistryView)
    ensures
        forall|id: Seq<char>, sender: CommandSender, now: u128| #[trigger]
            registry.registered(id, sender, now).waiters == registry.waiters,
        forall|id: Seq<char>| #[trigger] registry.unregistered(id).waiters == registry.waiters,
        forall|id: Seq<char>, now: u128| #[trigger]
            registry.active(id, now).waiters == registry.waiters,
        forall|id: Seq<char>, command: CloudCommand| #[trigger]
            registry.routed(id, command).waiters == registry.waiters,
{
}

/// A command for a client that has registered goes into the stream that it
/// registered last, and does not wait.
pub proof fn registered_client_gets_commands(
    registry: RegistryView,
    id: Seq<char>,
    sender: CommandSender,
    now: u128,
    command: CloudCommand,
)
    ensures
        registry.registered(id, sender, now).route(id, command) == (SendStep::Deliver {
            sender,
            command,
        }),
        registry.registered(id, sender, now).routed(id, command) == registry.registered(
            id,
            sender,
            now,
        ),
{
}

/// A command for a client that was dropped waits for it.
pub proof fn dropped_client_keeps_commands(
    registry: RegistryView,
    id: Seq<char>,
    command: CloudCommand,
)
    ensures
        registry.unregistered(id).route(id, command) is Queued,
        registry.unregistered(id).routed(id, command).backlog(id) == registry.backlog(id).push(
            command,
        ),
{
}

/// Dropping a client twice is dropping it once.
pub proof fn dropping_is_idempotent(registry: RegistryView, id: Seq<char>)
    ensures
        registry.unregistered(id).unregistered(id) == registry.unregistered(id),
{
    assert(registry.unregistered(id).unregistered(id) =~= registry.unregistered(id));
}

/// Dropping a client that registered undoes the registration, but for the
/// announcements and for what was handed on from its waiting list.
pub proof fn dropping_undoes_registration(
    registry: RegistryView,
    id: Seq<char>,
    sender: CommandSender,
    now: u128,
)
    ensures
        registry.registered(id, sender, now).unregistered(id) == (RegistryView {
            clients: registry.clients.remove(id),
            last_seen: registry.last_seen.remove(id),
            pending: registry.pending.remove(id),
            events: registry.events.push(EventView::Connected(id)).push(
                EventView::Disconnected(id),
            ),
            ..registry
        }),
{
    assert(registry.registered(id, sender, now).unregistered(id).clients
        =~= registry.clients.remove(id));
    assert(registry.registered(id, sender, now).unregistered(id).last_seen
        =~= registry.last_seen.remove(id));
}

/// The response to an awaited command goes to whoever began to wait for it
/// last, and only once: when it came, when sending failed or when the time was
/// up, nobody waits for it any more.
pub proof fn response_is_claimed_once(
    registry: RegistryView,
    id: Seq<char>,
    command: CloudCommand,
    waiter: ReplySender,
)
    ensures
        ({
            let begun = registry.awaiting(command.command_id@, waiter).routed(id, command);
            &&& begun.waiters.contains_key(command.command_id@)
            &&& begun.waiters[command.command_id@] == waiter
            &&& !begun.forgotten(command.command_id@).waiters.contains_key(command.command_id@)
            &&& forall|other: Seq<char>|
                other != command.command_id@ ==> (#[trigger] begun.waiters.contains_key(other)
                    <==> registry.waiters.contains_key(other))
        }),
{
}

/// A caller that begins to wait for a response takes the place of the one that
/// waited for it before, of which nothing is left, wherever the commands went.
pub proof fn later_caller_replaces_the_earlier(
    registry: RegistryView,
    earlier: ReplySender,
    first_id: Seq<char>,
    first: CloudCommand,
    later: ReplySender,
    second_id: Seq<char>,
    second: CloudCommand,
)
    requires
        first.command_id@ == second.command_id@,
    ensures
        registry.awaiting(first.command_id@, earlier).routed(first_id, first).awaiting(
            second.command_id@,
            later,
        ).routed(second_id, second).waiters == registry.waiters.insert(second.command_id@, later),
{
    assert(registry.waiters.insert(first.command_id@, earlier).insert(second.command_id@, later)
        =~= registry.waiters.insert(second.command_id@, later));
}

/// The clients that are connected after `events`, if `connected` were before.
pub open spec fn connected_after(
    connected: Set<Seq<char>>,
    events: Seq<EventView>,
) -> Set<Seq<char>>
    decreases events.len(),
{
    if events.len() == 0 {
        connected
    } else {
        match events.last() {
            EventView::Connected(id) => connected_after(connected, events.drop_last()).insert(id),
            EventView::Disconnected(id) => connected_after(connected, events.drop_last()).remove(
                id,
            ),
        }
    }
}

/// Whoever knew the clients of `earlier` and heard what was announced since
/// knows the clients of `later`.
pub open spec fn events_tell(earlier: RegistryView, later: RegistryView) -> bool {
    &&& earlier.events.is_prefix_of(later.events)
    &&& later.clients.dom() =~= connected_after(
        earlier.clients.dom(),
        later.events.skip(earlier.events.len() as int),
    )
}

/// The announcements tell who is connected: it holds at the start, and every
/// change of the registry keeps it.
pub proof fn events_tell_who_is_connected(earlier: RegistryView, later: RegistryView)
    requires
        events_tell(earlier, later),
    ensures
        events_tell(earlier, earlier),
        forall|id: Seq<char>, sender: CommandSender, now: u128|
            events_tell(earlier, #[trigger] later.registered(id, sender, now)),
        forall|id: Seq<char>| events_tell(earlier, #[trigger] later.unregistered(id)),
        forall|id: Seq<char>, now: u128| events_tell(earlier, #[trigger] later.active(id, now)),
        forall|id: Seq<char>, command: CloudCommand|
            events_tell(earlier, #[trigger] later.routed(id, command)),
        forall|id: Seq<char>, waiter: ReplySender|
            events_tell(earlier, #[trigger] later.awaiting(id, waiter)),
        forall|id: Seq<char>| events_tell(earlier, #[trigger] later.forgotten(id)),
{
    let start = earlier.events.len() as int;
    assert(earlier.events.skip(start) =~= Seq::empty());
    assert forall|id: Seq<char>, sender: CommandSender, now: u128| events_tell(
        earlier,
        #[trigger] later.registered(id, sender, now),
    ) by {
        let next = later.registered(id, sender, now);
        assert(next.events.skip(start).drop_last() =~= later.events.skip(start));
    }
    assert forall|id: Seq<char>| events_tell(earlier, #[trigger] later.unregistered(id)) by {
        let next = later.unregistered(id);
        if later.clients.contains_key(id) {
            assert(next.events.skip(start).drop_last() =~= later.events.skip(start));
        } else {
            assert(next.clients.dom() =~= later.clients.dom());
        }
    }
}

/// The announcements tell who is connected also after several clients were
/// dropped, as an eviction does.
pub proof fn events_tell_of_evictions(
    earlier: RegistryView,
    later: RegistryView,
    evicted: Seq<Seq<char>>,
)
    requires
        events_tell(earlier, later),
    ensures
        events_tell(earlier, later.unregistered_all(evicted)),
    decreases evicted.len(),
{
    if evicted.len() > 0 {
        events_tell_of_evictions(earlier, later, evicted.drop_last());
        events_tell_who_is_connected(earlier, later.unregistered_all(evicted.drop_last()));
    }
}

/// `receiver` is subscribed to the announcements of `registry`, from some earlier
/// time on.
pub open spec fn subscribed(registry: RegistryView, receiver: EventReceiver) -> bool {
    &&& registry.listeners.contains(receiver)
    &&& missed(receiver).is_prefix_of(registry.events)
}

/// What was announced since `receiver` was subscribed.
pub open spec fn heard(registry: RegistryView, receiver: EventReceiver) -> Seq<EventView> {
    registry.events.skip(missed(receiver).len() as int)
}

/// Whoever subscribed earlier stays subscribed, and hears each announcement once,
/// behind those that it heard before: of a client that comes, and of one that
/// goes if it was connected. Nothing else is announced.
pub proof fn subscribers_hear_every_event(registry: RegistryView, receiver: EventReceiver)
    requires
        subscribed(registry, receiver),
    ensures
        forall|id: Seq<char>, sender: CommandSender, now: u128|
            {
                let next = #[trigger] registry.registered(id, sender, now);
                &&& subscribed(next, receiver)
                &&& heard(next, receiver) == heard(registry, receiver).push(
                    EventView::Connected(id),
                )
            },
        forall|id: Seq<char>|
            {
                let next = #[trigger] registry.unregistered(id);
                &&& subscribed(next, receiver)
                &&& heard(next, receiver) == if registry.clients.contains_key(id) {
                    heard(registry, receiver).push(EventView::Disconnected(id))
                } else {
                    heard(registry, receiver)
                }
            },
        forall|id: Seq<char>, now: u128|
            {
                let next = #[trigger] registry.active(id, now);
                subscribed(next, receiver) && heard(next, receiver) == heard(registry, receiver)
            },
        forall|id: Seq<char>, command: CloudCommand|
            {
                let next = #[trigger] registry.routed(id, command);
                subscribed(next, receiver) && heard(next, receiver) == heard(registry, receiver)
            },
        forall|command_id: Seq<char>, waiter: ReplySender|
            {
                let next = #[trigger] registry.awaiting(command_id, waiter);
                subscribed(next, receiver) && heard(next, receiver) == heard(registry, receiver)
            },
        forall|command_id: Seq<char>|
            {
                let next = #[trigger] registry.forgotten(command_id);
                subscribed(next, receiver) && heard(next, receiver) == heard(registry, receiver)
            },
{
    assert forall|id: Seq<char>, sender: CommandSender, now: u128|
        {
            let next = #[trigger] registry.registered(id, sender, now);
            &&& subscribed(next, receiver)
            &&& heard(next, receiver) == heard(registry, receiver).push(EventView::Connected(id))
        } by {
        assert(heard(registry.registered(id, sender, now), receiver) =~= heard(
            registry,
            receiver,
        ).push(EventView::Connected(id)));
    }
    assert forall|id: Seq<char>|
        {
            let next = #[trigger] registry.unregistered(id);
            &&& subscribed(next, receiver)
            &&& heard(next, receiver) == if registry.clients.contains_key(id) {
                heard(registry, receiver).push(EventView::Disconnected(id))
            } else {
                heard(registry, receiver)
            }
        } by {
        if registry.clients.contains_key(id) {
            assert(heard(registry.unregistered(id), receiver) =~= heard(registry, receiver).push(
                EventView::Disconnected(id),
            ));
        }
    }
}

/// Whoever subscribed earlier hears the going of each evicted client that was
/// connected.
pub proof fn subscribers_hear_of_evictions(
    registry: RegistryView,
    receiver: EventReceiver,
    evicted: Seq<Seq<char>>,
)
    requires
        subscribed(registry, receiver),
        evicted.no_duplicates(),
    ensures
        subscribed(registry.unregistered_all(evicted), receiver),
        heard(registry.unregistered_all(evicted), receiver) == heard(registry, receiver)
            + goodbyes(registry, evicted),
{
    lemma_unregistered_all(registry, evicted);
    assert(heard(registry.unregistered_all(evicted), receiver) =~= heard(registry, receiver)
        + goodbyes(registry, evicted));
}

/// A client that registered is listed, and its coming is the last thing that
/// whoever subscribed earlier hears.
pub proof fn registered_client_is_listed_and_heard_of(
    registry: RegistryView,
    receiver: EventReceiver,
    id: Seq<char>,
    sender: CommandSender,
    now: u128,
    listed: Seq<Seq<char>>,
)
    requires
        subscribed(registry, receiver),
        lists(listed, registry.registered(id, sender, now).clients.dom()),
    ensures
        listed.contains(id),
        heard(registry.registered(id, sender, now), receiver) == heard(registry, receiver).push(
            EventView::Connected(id),
        ),
{
    assert(registry.registered(id, sender, now).clients.dom().contains(id));
    subscribers_hear_every_event(registry, receiver);
}

/// A server without clients lists nobody. After the first client registered it
/// lists that one alone, and whoever subscribed at the start heard of it and of
/// nothing else.
pub proof fn first_client_is_listed_and_heard_of(
    registry: RegistryView,
    receiver: EventReceiver,
    id: Seq<char>,
    sender: CommandSender,
    now: u128,
    listed: Seq<Seq<char>>,
    listed_then: Seq<Seq<char>>,
)
    requires
        registry.clients == Map::<Seq<char>, CommandSender>::empty(),
        registry.listeners.contains(receiver),
        missed(receiver) == registry.events,
        lists(listed, registry.clients.dom()),
        lists(listed_then, registry.registered(id, sender, now).clients.dom()),
    ensures
        listed.len() == 0,
        listed_then == seq![id],
        heard(registry.registered(id, sender, now), receiver) == seq![EventView::Connected(id)],
{
    if listed.len() > 0 {
        assert(listed.contains(listed[0]));
    }
    registered_client_is_listed_and_heard_of(registry, receiver, id, sender, now, listed_then);
    let clients = registry.registered(id, sender, now).clients.dom();
    assert forall|i: int| 0 <= i < listed_then.len() implies listed_then[i] == id by {
        assert(listed_then.contains(listed_then[i]));
        assert(clients.contains(listed_then[i]));
    }
    assert(listed_then.len() <= 1) by {
        if listed_then.len() > 1 {
            assert(listed_then[0] == listed_then[1]);
        }
    }
    assert(listed_then =~= seq![id]);
    assert(heard(registry.registered(id, sender, now), receiver) =~= seq![
        EventView::Connected(id),
    ]);
}

/// Dropping several clients: who is left, and what was announced.
proof fn lemma_unregistered_all(registry: RegistryView, ids: Seq<Seq<char>>)
    requires
        ids.no_duplicates(),
    ensures
        ({
            let left = registry.unregistered_all(ids);
            &&& left.pending == registry.pending
            &&& left.waiters == registry.waiters
            &&& left.event_capacity == registry.event_capacity
            &&& left.listeners == registry.listeners
            &&& left.started == registry.started
            &&& forall|id: Seq<char>| #[trigger]
                left.clients.contains_key(id) <==> registry.clients.contains_key(id)
                    && !ids.contains(id)
            &&& forall|id: Seq<char>|
                left.clients.contains_key(id) ==> #[trigger] left.clients[id]
                    == registry.clients[id]
            &&& forall|id: Seq<char>| #[trigger]
                left.last_seen.contains_key(id) <==> registry.last_seen.contains_key(id)
                    && !ids.contains(id)
            &&& forall|id: Seq<char>|
                left.last_seen.contains_key(id) ==> #[trigger] left.last_seen[id]
                    == registry.last_seen[id]
            &&& left.events == registry.events + goodbyes(registry, ids)
        }),
    decreases ids.len(),
{
    if ids.len() == 0 {
        assert(registry.events + goodbyes(registry, ids) =~= registry.events);
    } else {
        let rest = ids.drop_last();
        let id = ids.last();
        lemma_unregistered_all(registry, rest);
        assert forall|other: Seq<char>| #[trigger] ids.contains(other) <==> rest.contains(other)
            || other == id by {
            if rest.contains(other) {
                let k = choose|k: int| 0 <= k < rest.len() && rest[k] == other;
                assert(ids[k] == other);
            }
            if ids.contains(other) && other != id {
                let k = choose|k: int| 0 <= k < ids.len() && ids[k] == other;
                assert(rest[k] == other);
            }
            assert(ids[ids.len() - 1] == id);
        }
        assert(!rest.contains(id));
        let middle = registry.unregistered_all(rest);
        let left = registry.unregistered_all(ids);
        assert forall|other: Seq<char>| #[trigger] left.clients.contains_key(other)
            <==> registry.clients.contains_key(other) && !ids.contains(other) by {
            assert(middle.clients.contains_key(other) <==> registry.clients.contains_key(other)
                && !rest.contains(other));
        }
        assert forall|other: Seq<char>| left.clients.contains_key(other) implies #[trigger]
            left.clients[other] == registry.clients[other] by {
            assert(middle.clients.contains_key(other));
            assert(middle.clients[other] == registry.clients[other]);
        }
        assert forall|other: Seq<char>| #[trigger] left.last_seen.contains_key(other)
            <==> registry.last_seen.contains_key(other) && !ids.contains(other) by {
            assert(middle.last_seen.contains_key(other) <==> registry.last_seen.contains_key(other)
                && !rest.contains(other));
        }
        assert forall|other: Seq<char>| left.last_seen.contains_key(other) implies #[trigger]
            left.last_seen[other] == registry.last_seen[other] by {
            assert(middle.last_seen.contains_key(other));
            assert(middle.last_seen[other] == registry.last_seen[other]);
        }
        assert(middle.clients.contains_key(id) <==> registry.clients.contains_key(id));
        assert(left.events =~= registry.events + goodbyes(registry, ids));
    }
}

/// What is announced when `ids` are dropped one by one.
pub open spec fn goodbyes(registry: RegistryView, ids: Seq<Seq<char>>) -> Seq<EventView>
    decreases ids.len(),
{
    if ids.len() == 0 {
        Seq::empty()
    } else if registry.clients.contains_key(ids.last()) {
        goodbyes(registry, ids.drop_last()).push(EventView::Disconnected(ids.last()))
    } else {
        goodbyes(registry, ids.drop_last())
    }
}

/// An eviction, in whatever order it goes: the clients that were seen in time
/// stay as they are, all others are gone, nothing that waits is lost, and the
/// going of each client that was connected is announced.
pub proof fn eviction_drops_the_stale(
    registry: RegistryView,
    now: u128,
    timeout: u128,
    evicted: Seq<Seq<char>>,
)
    requires
        lists(evicted, registry.stale(now, timeout)),
    ensures
        registry.unregistered_all(evicted) == (RegistryView {
            clients: registry.clients.remove_keys(registry.stale(now, timeout)),
            last_seen: registry.last_seen.remove_keys(registry.stale(now, timeout)),
            events: registry.events + goodbyes(registry, evicted),
            ..registry
        }),
        registry.unregistered_all(evicted).stale(now, timeout).is_empty(),
{
    lemma_unregistered_all(registry, evicted);
    let stale = registry.stale(now, timeout);
    let left = registry.unregistered_all(evicted);
    assert(forall|id: Seq<char>| stale.contains(id) <==> #[trigger] evicted.contains(id));
    assert(left.clients =~= registry.clients.remove_keys(stale));
    assert(left.last_seen =~= registry.last_seen.remove_keys(stale));
    assert forall|id: Seq<char>| !left.stale(now, timeout).contains(id) by {
        if left.last_seen.contains_key(id) {
            assert(left.last_seen[id] == registry.last_seen[id]);
            assert(!stale.contains(id));
        }
    }
    assert(left.stale(now, timeout) =~= Set::empty());
}

/// Evicting again at once drops nobody.
pub proof fn eviction_is_idempotent(
    registry: RegistryView,
    now: u128,
    timeout: u128,
    evicted: Seq<Seq<char>>,
    again: Seq<Seq<char>>,
)
    requires
        lists(evicted, registry.stale(now, timeout)),
        lists(again, registry.unregistered_all(evicted).stale(now, timeout)),
    ensures
        again.len() == 0,
        registry.unregistered_all(evicted).unregistered_all(again) == registry.unregistered_all(
            evicted,
        ),
{
    eviction_drops_the_stale(registry, now, timeout, evicted);
    if again.len() > 0 {
        assert(again.contains(again[0]));
    }
}

/// No connected client escapes eviction: whoever is still connected after one
/// gave a sign of life in time.
pub proof fn connected_clients_are_alive(
    registry: RegistryView,
    now: u128,
    timeout: u128,
    evicted: Seq<Seq<char>>,
    id: Seq<char>,
)
    requires
        registry.well_formed(),
        lists(evicted, registry.stale(now, timeout)),
        registry.unregistered_all(evicted).clients.contains_key(id),
    ensures
        registry.last_seen.contains_key(id),
        now - registry.last_seen[id] <= timeout,
{
    eviction_drops_the_stale(registry, now, timeout, evicted);
    assert(registry.clients.contains_key(id));
}

/// The clock reading at an eviction, if the first one comes at `first` and then
/// one every `EVICTION_INTERVAL_SECS`.
pub open spec fn tick(first: u128, k: nat) -> int {
    first + k * (EVICTION_INTERVAL_SECS * 1_000_000_000)
}

/// A client that stays silent from `registry` on is dropped by the first of the
/// regular evictions that comes more than `STALE_AFTER_SECS` after its last sign
/// of life, which is at most one interval later, and by none before.
pub proof fn silent_client_goes_at_the_next_tick(
    registry: RegistryView,
    id: Seq<char>,
    first: u128,
)
    requires
        registry.last_seen.contains_key(id),
        first <= registry.last_seen[id] + stale_after(),
        registry.last_seen[id] + stale_after() + EVICTION_INTERVAL_SECS * 1_000_000_000
            <= u128::MAX,
    ensures
        exists|k: nat|
            {
                &&& stale_after() < #[trigger] tick(first, k) - registry.last_seen[id]
                    <= stale_after() + EVICTION_INTERVAL_SECS * 1_000_000_000
                &&& registry.stale(tick(first, k) as u128, stale_after()).contains(id)
                &&& forall|j: nat|
                    j < k ==> !registry.stale(
                        #[trigger] tick(first, j) as u128,
                        stale_after(),
                    ).contains(id)
            },
{
    let seen = registry.last_seen[id] as int;
    let interval: int = EVICTION_INTERVAL_SECS * 1_000_000_000;
    let wait: int = seen + stale_after() - first;
    let k = (wait / interval + 1) as nat;
    assert(wait - interval < (k - 1) * interval <= wait) by (nonlinear_arith)
        requires
            interval == 60_000_000_000,
            wait >= 0,
            k == wait / interval + 1,
    ;
    assert(k * interval == (k - 1) * interval + interval) by (nonlinear_arith);
    assert(stale_after() < tick(first, k) - seen <= stale_after() + interval);
    assert forall|j: nat| j < k implies !registry.stale(
        #[trigger] tick(first, j) as u128,
        stale_after(),
    ).contains(id) by {
        assert(0 <= j * interval <= (k - 1) * interval) by (nonlinear_arith)
            requires
                j <= k - 1,
                interval == 60_000_000_000,
        ;
    }
}

/// An announced departure is that of an evicted client that was connected, and
/// each such client's is announced.
pub proof fn eviction_announces_the_connected(
    registry: RegistryView,
    evicted: Seq<Seq<char>>,
    event: EventView,
)
    ensures
        goodbyes(registry, evicted).contains(event) <==> exists|i: int|
            0 <= i < evicted.len() && registry.clients.contains_key(#[trigger] evicted[i])
                && event == EventView::Disconnected(evicted[i]),
    decreases evicted.len(),
{
    if evicted.len() > 0 {
        let rest = evicted.drop_last();
        let last = evicted.len() - 1;
        eviction_announces_the_connected(registry, rest, event);
        let said = goodbyes(registry, rest);
        let all = goodbyes(registry, evicted);
        if said.contains(event) {
            let k = choose|k: int| 0 <= k < said.len() && said[k] == event;
            assert(all[k] == event);
            let i = choose|i: int|
                0 <= i < rest.len() && registry.clients.contains_key(#[trigger] rest[i]) && event
                    == EventView::Disconnected(rest[i]);
            assert(evicted[i] == rest[i]);
        }
        if all.contains(event) && !said.contains(event) {
            let k = choose|k: int| 0 <= k < all.len() && all[k] == event;
            assert(k < said.len() ==> said[k] == event);
            assert(registry.clients.contains_key(evicted[last]));
        }
        if exists|i: int|
            0 <= i < evicted.len() && registry.clients.contains_key(#[trigger] evicted[i]) && event
                == EventView::Disconnected(evicted[i]) {
            let i = choose|i: int|
                0 <= i < evicted.len() && registry.clients.contains_key(#[trigger] evicted[i])
                    && event == EventView::Disconnected(evicted[i]);
            if i < last {
                assert(rest[i] == evicted[i]);
                let k = choose|k: int| 0 <= k < said.len() && said[k] == event;
                assert(all[k] == event);
            } else {
                assert(all[all.len() - 1] == event);
            }
        }
    }
}

/// A message, the stream of the client at the time and the clock reading.
pub struct Arrival {
    pub message: Option<ClientMessage>,
    pub sender: CommandSender,
    pub now: u128,
}

/// A session after several messages.
pub open spec fn session_after(session: SessionView, arrivals: Seq<Arrival>) -> SessionView
    decreases arrivals.len(),
{
    if arrivals.len() == 0 {
        session
    } else {
        session_after(session, arrivals.drop_last()).next(arrivals.last().message)
    }
}

/// The registry after several messages of one session.
pub open spec fn registry_after(
    session: SessionView,
    registry: RegistryView,
    arrivals: Seq<Arrival>,
) -> RegistryView
    decreases arrivals.len(),
{
    if arrivals.len() == 0 {
        registry
    } else {
        let last = arrivals.last();
        session_after(session, arrivals.drop_last()).next_registry(
            registry_after(session, registry, arrivals.drop_last()),
            last.message,
            last.sender,
            last.now,
        )
    }
}

/// What comes after a session ended changes neither it nor the registry.
proof fn lemma_ended_stays(session: SessionView, arrivals: Seq<Arrival>)
    requires
        session.ended,
    ensures
        session_after(session, arrivals) == session,
        forall|registry: RegistryView| #[trigger]
            registry_after(session, registry, arrivals) == registry,
    decreases arrivals.len(),
{
    if arrivals.len() > 0 {
        lemma_ended_stays(session, arrivals.drop_last());
        assert forall|registry: RegistryView| #[trigger]
            registry_after(session, registry, arrivals) == registry by {
            assert(registry_after(session, registry, arrivals.drop_last()) == registry);
        }
    }
}

/// Messages in two parts, one after the other.
proof fn lemma_arrivals_in_parts(
    session: SessionView,
    registry: RegistryView,
    first: Seq<Arrival>,
    then: Seq<Arrival>,
)
    ensures
        session_after(session, first + then) == session_after(
            session_after(session, first),
            then,
        ),
        registry_after(session, registry, first + then) == registry_after(
            session_after(session, first),
            registry_after(session, registry, first),
            then,
        ),
    decreases then.len(),
{
    if then.len() == 0 {
        assert(first + then =~= first);
    } else {
        lemma_arrivals_in_parts(session, registry, first, then.drop_last());
        assert((first + then).drop_last() =~= first + then.drop_last());
        assert((first + then).last() == then.last());
    }
}

/// A claim of a foreign id ends the stream: whatever the client sends behind it
/// is not acted on. The registry stays as it was before the claim, no token is
/// handed out for validation, no command is set free, and the client that
/// registered before is still dropped at the end.
pub proof fn nothing_counts_after_a_foreign_claim(
    session: SessionView,
    registry: RegistryView,
    before: Seq<Arrival>,
    claim: Arrival,
    behind: Seq<Arrival>,
)
    requires
        session.well_formed(),
        session.is_foreign(claim.message),
    ensures
        ({
            let all = before.push(claim) + behind;
            let end = session_after(session, all);
            &&& registry_after(session, registry, all) == registry_after(session, registry, before)
            &&& end == (SessionView { ended: true, ..session_after(session, before) })
            &&& end.closed(registry_after(session, registry, all)) == session_after(
                session,
                before,
            ).closed(registry_after(session, registry, before))
            &&& forall|present: RegistryView, message: Option<ClientMessage>, step: SessionStep|
                #[trigger] end.next_step(present, message, step) ==> step is Ended
            &&& forall|present: RegistryView, message: Option<ClientMessage>|
                (#[trigger] end.freed(present, message)).len() == 0
        }),
{
    let claimed = before.push(claim);
    session_keeps_its_identity(session, before);
    assert(claimed.drop_last() =~= before);
    lemma_arrivals_in_parts(session, registry, claimed, behind);
    lemma_ended_stays(session_after(session, claimed), behind);
}

/// Whatever a client sends, nothing is announced but its own coming, and at the
/// end of the session its own going, under the id of the token that it came
/// with.
pub proof fn session_announces_only_itself(
    session: SessionView,
    registry: RegistryView,
    arrivals: Seq<Arrival>,
)
    requires
        session.well_formed(),
    ensures
        ({
            let after = registry_after(session, registry, arrivals);
            let closed = session_after(session, arrivals).closed(after);
            &&& registry.events.is_prefix_of(after.events)
            &&& forall|i: int|
                registry.events.len() <= i < after.events.len() ==> #[trigger] after.events[i]
                    == EventView::Connected(session.hardware_id)
            &&& closed.events == after.events || closed.events == after.events.push(
                EventView::Disconnected(session.hardware_id),
            )
        }),
    decreases arrivals.len(),
{
    session_keeps_its_identity(session, arrivals);
    if arrivals.len() > 0 {
        session_announces_only_itself(session, registry, arrivals.drop_last());
        session_keeps_its_identity(session, arrivals.drop_last());
    }
}

/// Whatever a client sends, it goes by the id of the token that it came with,
/// or by none.
pub proof fn session_keeps_its_identity(session: SessionView, arrivals: Seq<Arrival>)
    requires
        session.well_formed(),
    ensures
        session_after(session, arrivals).well_formed(),
        session_after(session, arrivals).hardware_id == session.hardware_id,
    decreases arrivals.len(),
{
    if arrivals.len() > 0 {
        session_keeps_its_identity(session, arrivals.drop_last());
    }
}

/// `earlier` and `later` agree on whether a client is connected and over which
/// stream, on what waits for it and, unless its id is empty, on when it was seen.
pub open spec fn knows_alike(earlier: RegistryView, later: RegistryView, id: Seq<char>) -> bool {
    &&& later.clients.contains_key(id) <==> earlier.clients.contains_key(id)
    &&& later.clients.contains_key(id) ==> later.clients[id] == earlier.clients[id]
    &&& later.backlog(id) == earlier.backlog(id)
    &&& id.len() > 0 ==> {
        &&& later.last_seen.contains_key(id) <==> earlier.last_seen.contains_key(id)
        &&& later.last_seen.contains_key(id) ==> later.last_seen[id] == earlier.last_seen[id]
    }
}

/// Whatever a client sends, and when its session ends, the registry's knowledge
/// of other clients stays as it is: whether they are connected and over which
/// stream, what waits for them, and when they were seen. Only the empty id, under which pings before a
/// registration are noted, may be seen besides the token's.
pub proof fn session_leaves_others_alone(
    session: SessionView,
    registry: RegistryView,
    arrivals: Seq<Arrival>,
    other: Seq<char>,
)
    requires
        session.well_formed(),
        other != session.hardware_id,
    ensures
        ({
            let after = registry_after(session, registry, arrivals);
            &&& knows_alike(registry, after, other)
            &&& knows_alike(registry, session_after(session, arrivals).closed(after), other)
        }),
    decreases arrivals.len(),
{
    session_keeps_its_identity(session, arrivals);
    if arrivals.len() > 0 {
        session_leaves_others_alone(session, registry, arrivals.drop_last(), other);
        session_keeps_its_identity(session, arrivals.drop_last());
    }
}

/// A registration under an id that is not the token's changes nothing in the
/// registry, and ends the stream.
pub proof fn foreign_registration_is_refused(
    session: SessionView,
    registry: RegistryView,
    message: ClientMessage,
    sender: CommandSender,
    now: u128,
    step: SessionStep,
)
    requires
        session.is_foreign(Some(message)),
        session.next_step(registry, Some(message), step),
    ensures
        session.next(Some(message)) == (SessionView { ended: true, ..session }),
        session.next_registry(registry, Some(message), sender, now) == registry,
        session.freed(registry, Some(message)).len() == 0,
        step is Refuse || step is Ended,
        !session.ended ==> step is Refuse,
{
}

/// When a session that registered under an id that is not empty ends, its client
/// is not connected any more, and what waits for it stays.
pub proof fn closing_drops_the_client(session: SessionView, registry: RegistryView)
    requires
        session.well_formed(),
        session.client_id is Some,
        session.hardware_id.len() > 0,
    ensures
        !session.closed(registry).clients.contains_key(session.hardware_id),
        session.closed(registry).pending == registry.pending,
{
}

/// An interceptor for a token lets in exactly the requests in which that token
/// is found.
pub proof fn interceptor_agrees_with_token(header: Option<Seq<u8>>, token: Seq<char>)
    ensures
        carries(header, token) <==> token_in(header) == Ok::<Seq<char>, AuthError>(token),
{
    reveal_strlit("Bearer ");
    if let Some(bytes) = header {
        let text = characters(bytes);
        if carries(header, token) {
            assert(text.skip(7) =~= token);
            assert("Bearer "@.is_prefix_of(text));
        }
        if token_in(header) == Ok::<Seq<char>, AuthError>(token) {
            assert(text =~= "Bearer "@ + text.skip(7));
        }
    }
}

} // verus!
