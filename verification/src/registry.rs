//! Who is connected, what waits for whom, and who waits for an answer.
use crate::channels::{
    announce, announced, answers, command_capacity, continues, event_capacity, feeds, listeners,
    missed, offer, offers, replied, reply, reply_channel, send_error_text, subscribe,
    CommandReceiver, CommandSendError, CommandSender, EventReceiver, EventSender, ReplyReceiver,
    ReplySender,
};
use crate::clock::{nanos_since, present, read_since};
use crate::messages::{CloudCommand, CommandResponse, ConnectionEvent, EventView};
use crate::table::{
    keys, look_up, no_queues, no_readings, no_senders, no_waiters, put, queues_in, readings_in,
    senders_in, take, waiters_in, Stored,
};
use crate::text::views;
use dashmap::DashMap;
use std::collections::VecDeque;
use std::time::Instant;
use vstd::prelude::*;

verus! {

/// How long a caller waits for the response to its command, in seconds.
pub const RESPONSE_TIMEOUT_SECS: u64 = 10;

/// The registry as mathematics.
#[verifier::ext_equal]
pub struct RegistryView {
    /// Client id to the stream that its commands go into.
    pub clients: Map<Seq<char>, CommandSender>,
    /// Client id to the commands that wait for it, oldest first.
    pub pending: Map<Seq<char>, Seq<CloudCommand>>,
    /// Client id to the clock reading at its last activity.
    pub last_seen: Map<Seq<char>, u128>,
    /// Command id to the caller that waits for the response.
    pub waiters: Map<Seq<char>, ReplySender>,
    /// What was announced, oldest first.
    pub events: Seq<EventView>,
    /// How many events the announcements hold on to.
    pub event_capacity: usize,
    /// Who is subscribed to the announcements.
    pub listeners: Set<EventReceiver>,
    /// When the registry was made; clock readings count from there.
    pub started: Instant,
}

impl RegistryView {
    /// Every connected client has a last activity and nothing waiting for it,
    /// and no waiting list is empty.
    pub open spec fn well_formed(self) -> bool {
        &&& forall|id: Seq<char>| #[trigger]
            self.clients.contains_key(id) ==> self.last_seen.contains_key(id)
        &&& forall|id: Seq<char>| #[trigger]
            self.clients.contains_key(id) ==> !self.pending.contains_key(id)
        &&& forall|id: Seq<char>| #[trigger]
            self.pending.contains_key(id) ==> self.pending[id].len() > 0
    }

    /// The commands that wait for a client.
    pub open spec fn backlog(self, id: Seq<char>) -> Seq<CloudCommand> {
        if self.pending.contains_key(id) {
            self.pending[id]
        } else {
            Seq::empty()
        }
    }

    /// After `id` connected with `sender` when the clock stood at `now`.
    pub open spec fn registered(self, id: Seq<char>, sender: CommandSender, now: u128) -> Self {
        RegistryView {
            clients: self.clients.insert(id, sender),
            pending: self.pending.remove(id),
            last_seen: self.last_seen.insert(id, now),
            events: self.events.push(EventView::Connected(id)),
            ..self
        }
    }

    /// After `id` was dropped: its going is announced if it was connected.
    pub open spec fn unregistered(self, id: Seq<char>) -> Self {
        RegistryView {
            clients: self.clients.remove(id),
            last_seen: self.last_seen.remove(id),
            events: if self.clients.contains_key(id) {
                self.events.push(EventView::Disconnected(id))
            } else {
                self.events
            },
            ..self
        }
    }

    /// After each of `ids` was dropped, the first one first.
    pub open spec fn unregistered_all(self, ids: Seq<Seq<char>>) -> Self
        decreases ids.len(),
    {
        if ids.len() == 0 {
            self
        } else {
            self.unregistered_all(ids.drop_last()).unregistered(ids.last())
        }
    }

    /// After `id` gave a sign of life.
    pub open spec fn active(self, id: Seq<char>, now: u128) -> Self {
        RegistryView { last_seen: self.last_seen.insert(id, now), ..self }
    }

    /// The clients whose last activity lies more than `timeout` before `now`.
    pub open spec fn stale(self, now: u128, timeout: u128) -> Set<Seq<char>> {
        self.last_seen.dom().filter(|id: Seq<char>| now - self.last_seen[id] > timeout)
    }

    /// After a command was sent to `id`: it waits if `id` is not connected.
    pub open spec fn routed(self, id: Seq<char>, command: CloudCommand) -> Self {
        if self.clients.contains_key(id) {
            self
        } else {
            RegistryView {
                pending: self.pending.insert(id, self.backlog(id).push(command)),
                ..self
            }
        }
    }

    /// Where a command for `id` goes.
    pub open spec fn route(self, id: Seq<char>, command: CloudCommand) -> SendStep {
        if self.clients.contains_key(id) {
            SendStep::Deliver { sender: self.clients[id], command }
        } else {
            SendStep::Queued
        }
    }

    /// After `waiter` began to wait for the response to a command, in place of
    /// whoever waited for it before.
    pub open spec fn awaiting(self, command_id: Seq<char>, waiter: ReplySender) -> Self {
        RegistryView { waiters: self.waiters.insert(command_id, waiter), ..self }
    }

    /// After nobody waits for the response to a command any more.
    pub open spec fn forgotten(self, command_id: Seq<char>) -> Self {
        RegistryView { waiters: self.waiters.remove(command_id), ..self }
    }
}

/// What is left to do with a command.
pub enum SendStep {
    /// Send the command into the client's stream, waiting for room in it.
    Deliver { sender: CommandSender, command: CloudCommand },
    /// Nothing: the command waits for its client.
    Queued,
}

/// A command whose response is awaited.
pub struct AwaitedCommand {
    /// Names the call in what follows.
    pub command_id: String,
    /// What is left to do with the command.
    pub step: SendStep,
    /// Where the response will come.
    pub reply: ReplyReceiver,
}

/// What became of the wait for a response.
pub enum ReplyOutcome {
    Response(CommandResponse),
    /// The sending half went away.
    Closed,
    /// The time was up.
    TimedOut,
}

/// `ids` holds each element of `set` once, and nothing else.
pub open spec fn lists(ids: Seq<Seq<char>>, set: Set<Seq<char>>) -> bool {
    &&& ids.no_duplicates()
    &&& forall|id: Seq<char>| set.contains(id) <==> #[trigger] ids.contains(id)
}

/// `found` holds each element of `from` that is in `set` once, and nothing else.
spec fn picked(from: Seq<Seq<char>>, set: Set<Seq<char>>, found: Seq<Seq<char>>) -> bool {
    &&& found.no_duplicates()
    &&& forall|id: Seq<char>| #[trigger]
        found.contains(id) <==> from.contains(id) && set.contains(id)
}

/// What is picked from one element more.
proof fn lemma_picked_next(
    all: Seq<Seq<char>>,
    i: int,
    set: Set<Seq<char>>,
    found: Seq<Seq<char>>,
)
    requires
        all.no_duplicates(),
        0 <= i < all.len(),
        picked(all.take(i), set, found),
    ensures
        set.contains(all[i]) ==> picked(all.take(i + 1), set, found.push(all[i])),
        !set.contains(all[i]) ==> picked(all.take(i + 1), set, found),
{
    let before = all.take(i);
    let after = all.take(i + 1);
    assert(after =~= before.push(all[i]));
    assert forall|id: Seq<char>| #[trigger] after.contains(id) <==> before.contains(id) || id
        == all[i] by {
        if before.contains(id) {
            let k = choose|k: int| 0 <= k < before.len() && before[k] == id;
            assert(after[k] == id);
        }
        assert(after[i] == all[i]);
    }
    assert(!before.contains(all[i]));
    if set.contains(all[i]) {
        let longer = found.push(all[i]);
        assert forall|id: Seq<char>| #[trigger] longer.contains(id) <==> found.contains(id) || id
            == all[i] by {
            if found.contains(id) {
                let k = choose|k: int| 0 <= k < found.len() && found[k] == id;
                assert(longer[k] == id);
            }
            assert(longer[found.len() as int] == all[i]);
        }
        assert forall|id: Seq<char>| #[trigger] longer.contains(id) <==> after.contains(id)
            && set.contains(id) by {
            assert(found.contains(id) <==> before.contains(id) && set.contains(id));
            assert(after.contains(id) <==> before.contains(id) || id == all[i]);
        }
        assert(!found.contains(all[i]));
        assert(forall|k: int| 0 <= k < found.len() ==> #[trigger] found.contains(found[k]));
    } else {
        assert forall|id: Seq<char>| #[trigger] found.contains(id) <==> after.contains(id)
            && set.contains(id) by {
            assert(after.contains(id) <==> before.contains(id) || id == all[i]);
        }
    }
}

/// `after` is the handle `before` after `commands` were offered through it, in
/// their order.
pub open spec fn offered(
    before: CommandSender,
    commands: Seq<CloudCommand>,
    after: CommandSender,
) -> bool {
    let earlier = offers(before);
    let later = offers(after);
    &&& later.len() == earlier.len() + commands.len()
    &&& later.take(earlier.len() as int) =~= earlier
    &&& forall|i: int|
        0 <= i < commands.len() ==> (#[trigger] later[earlier.len() + i]).command == commands[i]
    &&& forall|i: int|
        earlier.len() <= i < later.len() ==> #[trigger] continues(
            later,
            i,
            command_capacity(before),
        )
}

/// From the first command that was offered between `before` and `after` to the
/// last, nobody else used the channel.
pub open spec fn unshared(before: CommandSender, after: CommandSender) -> bool {
    forall|i: int|
        offers(before).len() < i < offers(after).len() ==> (#[trigger] offers(after)[i]).alone
}

/// Of the commands that were offered between `before` and `after`, the channel
/// took the first ones, as many as had room when the first was offered, and no
/// more; and none if it was closed then, whoever else used it.
pub open spec fn filled(before: CommandSender, after: CommandSender) -> bool {
    let first = offers(before).len() as int;
    let record = offers(after);
    &&& unshared(before, after) ==> forall|i: int|
        first <= i < record.len() ==> ((#[trigger] record[i]).taken() <==> i - first
            < record[first].room)
    &&& first < record.len() && !record[first].open ==> forall|i: int|
        first <= i < record.len() ==> !(#[trigger] record[i]).taken()
}

/// What a later offer found, told from what the first one between `before` and
/// `after` found.
proof fn lemma_filled(
    before: CommandSender,
    commands: Seq<CloudCommand>,
    after: CommandSender,
    i: int,
)
    requires
        offered(before, commands, after),
        offers(before).len() <= i < offers(after).len(),
    ensures
        ({
            let first = offers(before).len() as int;
            let record = offers(after);
            &&& !record[first].open ==> !record[i].open && record[i].room == 0
            &&& unshared(before, after) ==> record[i].room == if i - first < record[first].room {
                record[first].room - (i - first)
            } else {
                0
            }
        }),
    decreases i,
{
    assert(continues(offers(after), i, command_capacity(before)));
    if i > offers(before).len() {
        lemma_filled(before, commands, after, i - 1);
    }
}

/// `after` is a handle of the channel that `before` is a handle of.
pub open spec fn same_stream(before: CommandSender, after: CommandSender) -> bool {
    &&& command_capacity(after) == command_capacity(before)
    &&& forall|receiver: CommandReceiver| #[trigger]
        feeds(after, receiver) == feeds(before, receiver)
}

/// Offers the commands to the stream, the first one first.
fn flush(sender: &mut CommandSender, queue: VecDeque<CloudCommand>)
    ensures
        offered(*old(sender), queue@, *final(sender)),
        filled(*old(sender), *final(sender)),
        same_stream(*old(sender), *final(sender)),
{
    let mut rest: VecDeque<CloudCommand> = queue;
    let ghost before = *sender;
    let ghost mut sent: int = 0;
    while rest.len() > 0
        invariant
            0 <= sent <= queue@.len(),
            rest@ == queue@.skip(sent),
            before == *old(sender),
            offered(before, queue@.take(sent), *sender),
            same_stream(before, *sender),
        decreases rest@.len(),
    {
        if let Some(command) = rest.pop_front() {
            let ghost start = offers(before).len() as int;
            let ghost earlier = offers(*sender);
            offer(sender, command);
            proof {
                let later = offers(*sender);
                assert(command == queue@[sent]);
                assert(queue@.skip(sent).subrange(1, queue@.skip(sent).len() as int)
                    =~= queue@.skip(sent + 1));
                assert(later.take(start) =~= earlier.take(start));
                assert forall|i: int| 0 <= i < queue@.take(sent + 1).len() implies (
                #[trigger] later[start + i]).command == queue@.take(sent + 1)[i] by {
                    if i < sent {
                        assert(later[start + i] == earlier[start + i]);
                        assert(queue@.take(sent)[i] == queue@[i]);
                    }
                }
                assert forall|i: int| start <= i < later.len() implies #[trigger] continues(
                    later,
                    i,
                    command_capacity(before),
                ) by {
                    if i < earlier.len() {
                        assert(continues(earlier, i, command_capacity(before)));
                        assert(later[i] == earlier[i]);
                        assert(i > 0 ==> later[i - 1] == earlier[i - 1]);
                    }
                }
                sent = sent + 1;
            }
        }
    }
    proof {
        assert(queue@.take(sent) =~= queue@);
        assert forall|i: int| offers(before).len() <= i < offers(*sender).len() implies {
            let first = offers(before).len() as int;
            &&& unshared(before, *sender) ==> ((#[trigger] offers(*sender)[i]).taken() <==> i
                - first < offers(*sender)[first].room)
            &&& !offers(*sender)[first].open ==> !offers(*sender)[i].taken()
        } by {
            lemma_filled(before, queue@, *sender, i);
        }
    }
}

/// Keeps track of clients, of the commands that wait for them and of the
/// callers that wait for their responses.
pub struct ClientRegistry {
    clients: DashMap<String, CommandSender>,
    pending_commands: DashMap<String, VecDeque<CloudCommand>>,
    last_seen: DashMap<String, u128>,
    pending_responses: DashMap<String, ReplySender>,
    event_tx: EventSender,
    started: Instant,
}

impl View for ClientRegistry {
    type V = RegistryView;

    closed spec fn view(&self) -> RegistryView {
        RegistryView {
            clients: senders_in(self.clients),
            pending: queues_in(self.pending_commands).map_values(
                |queue: VecDeque<CloudCommand>| queue@,
            ),
            last_seen: readings_in(self.last_seen),
            waiters: waiters_in(self.pending_responses),
            events: announced(self.event_tx),
            event_capacity: event_capacity(self.event_tx),
            listeners: listeners(self.event_tx),
            started: self.started,
        }
    }
}

impl ClientRegistry {
    /// A registry of no client, which announces on `event_tx`.
    pub fn new(event_tx: EventSender) -> (registry: Self)
        ensures
            registry@ == (RegistryView {
                clients: Map::empty(),
                pending: Map::empty(),
                last_seen: Map::empty(),
                waiters: Map::empty(),
                events: announced(event_tx),
                event_capacity: event_capacity(event_tx),
                listeners: listeners(event_tx),
                started: registry@.started,
            }),
            registry@.well_formed(),
    {
        let registry = ClientRegistry {
            clients: no_senders(),
            pending_commands: no_queues(),
            last_seen: no_readings(),
            pending_responses: no_waiters(),
            event_tx,
            started: present(),
        };
        assert(registry@.pending =~= Map::empty());
        registry
    }

    /// Nanoseconds since the registry was made, as the clock shows now.
    pub(crate) fn clock(&self) -> (nanos: u128)
        ensures
            read_since(self@.started, nanos),
    {
        nanos_since(&self.started)
    }

    /// Connects a client as `register` does, when the clock stands at `now`.
    pub fn register_at(
        &mut self,
        client_id: String,
        sender: &mut CommandSender,
        now: u128,
    ) -> (flushed: usize)
        ensures
            flushed == old(self)@.backlog(client_id@).len(),
            final(self)@ == old(self)@.registered(client_id@, *old(sender), now),
            offered(*old(sender), old(self)@.backlog(client_id@), *final(sender)),
            filled(*old(sender), *final(sender)),
            same_stream(*old(sender), *final(sender)),
            old(self)@.well_formed() ==> final(self)@.well_formed(),
    {
        put(&mut self.clients, client_id.clone(), sender.clone());
        put(&mut self.last_seen, client_id.clone(), now);
        let flushed = match take(&mut self.pending_commands, client_id.as_str()) {
            Some(queue) => {
                let waiting = queue.len();
                flush(sender, queue);
                waiting
            },
            None => 0,
        };
        announce(&mut self.event_tx, ConnectionEvent::Connected(client_id));
        assert(self@.listeners =~= old(self)@.listeners);
        assert(self@.pending =~= old(self)@.pending.remove(client_id@));
        flushed
    }

    /// Connects a client now: commands for it go into `sender`'s stream from now
    /// on, those that waited are offered to the stream in their order, and its
    /// coming is announced. Says how many waited; those that find no room in the
    /// stream are lost. `sender` itself may be used again.
    pub fn register(&mut self, client_id: String, sender: &mut CommandSender) -> (flushed: usize)
        ensures
            flushed == old(self)@.backlog(client_id@).len(),
            final(self)@ == old(self)@.registered(
                client_id@,
                *old(sender),
                final(self)@.last_seen[client_id@],
            ),
            read_since(old(self)@.started, final(self)@.last_seen[client_id@]),
            offered(*old(sender), old(self)@.backlog(client_id@), *final(sender)),
            filled(*old(sender), *final(sender)),
            same_stream(*old(sender), *final(sender)),
            old(self)@.well_formed() ==> final(self)@.well_formed(),
    {
        let now = self.clock();
        self.register_at(client_id, sender, now)
    }

    /// Drops a client; what waits for it stays.
    pub fn unregister(&mut self, client_id: &str)
        ensures
            final(self)@ == old(self)@.unregistered(client_id@),
            old(self)@.well_formed() ==> final(self)@.well_formed(),
    {
        let _ = take(&mut self.last_seen, client_id);
        if take(&mut self.clients, client_id).is_some() {
            announce(&mut self.event_tx, ConnectionEvent::Disconnected(client_id.to_owned()));
            assert(self@.listeners =~= old(self)@.listeners);
        }
    }

    /// Notes a sign of life when the clock stands at `now`.
    pub fn update_activity_at(&mut self, client_id: &str, now: u128)
        ensures
            final(self)@ == old(self)@.active(client_id@, now),
            old(self)@.well_formed() ==> final(self)@.well_formed(),
    {
        put(&mut self.last_seen, client_id.to_owned(), now);
        assert(self@ =~= old(self)@.active(client_id@, now));
    }

    /// Notes a sign of life now.
    pub fn update_activity(&mut self, client_id: &str)
        ensures
            final(self)@ == old(self)@.active(client_id@, final(self)@.last_seen[client_id@]),
            read_since(old(self)@.started, final(self)@.last_seen[client_id@]),
            old(self)@.well_formed() ==> final(self)@.well_formed(),
    {
        let now = self.clock();
        self.update_activity_at(client_id, now);
    }

    /// The ids in `last_seen` whose reading lies more than `timeout` before `now`.
    fn stale_ids(&self, now: u128, timeout: u128) -> (ids: Vec<String>)
        ensures
            lists(views(ids@), self@.stale(now, timeout)),
    {
        let all = keys(&self.last_seen);
        let mut ids: Vec<String> = Vec::new();
        let mut i: usize = 0;
        let ghost stale = self@.stale(now, timeout);
        let ghost all_ids = views(all@);
        assert(all_ids.take(0) =~= Seq::empty());
        while i < all.len()
            invariant
                i <= all@.len(),
                all_ids == views(all@),
                all_ids.no_duplicates(),
                forall|k: int|
                    0 <= k < all@.len() ==> self@.last_seen.contains_key(#[trigger] all@[k]@),
                stale == self@.stale(now, timeout),
                picked(all_ids.take(i as int), stale, views(ids@)),
            decreases all@.len() - i,
        {
            let id = all[i].clone();
            let ghost earlier = ids@;
            proof {
                lemma_picked_next(all_ids, i as int, stale, views(ids@));
            }
            if let Some(seen) = look_up(&self.last_seen, id.as_str()) {
                if now > seen && now - seen > timeout {
                    ids.push(id);
                    assert(views(ids@) =~= views(earlier).push(all_ids[i as int]));
                }
            }
            i = i + 1;
        }
        proof {
            assert(all_ids.take(i as int) =~= all_ids);
            assert forall|id: Seq<char>| stale.contains(id) implies #[trigger] views(
                ids@,
            ).contains(id) by {
                assert(<u128 as Stored>::entries(self.last_seen).contains_key(id));
                let k = choose|k: int| 0 <= k < all@.len() && #[trigger] all@[k]@ == id;
                assert(all_ids[k] == id);
            }
        }
        ids
    }

    /// Drops the clients that gave no sign of life for more than
    /// `timeout_nanos` when the clock stands at `now`, and says which.
    pub fn evict_stale_at(&mut self, now: u128, timeout_nanos: u128) -> (evicted: Vec<String>)
        ensures
            lists(views(evicted@), old(self)@.stale(now, timeout_nanos)),
            final(self)@ == old(self)@.unregistered_all(views(evicted@)),
            old(self)@.well_formed() ==> final(self)@.well_formed(),
    {
        let evicted = self.stale_ids(now, timeout_nanos);
        let ghost ids = views(evicted@);
        let mut i: usize = 0;
        assert(ids.take(0) =~= Seq::empty());
        while i < evicted.len()
            invariant
                i <= evicted@.len(),
                ids == views(evicted@),
                self@ == old(self)@.unregistered_all(ids.take(i as int)),
                old(self)@.well_formed() ==> self@.well_formed(),
            decreases evicted@.len() - i,
        {
            self.unregister(evicted[i].as_str());
            i = i + 1;
            assert(ids.take(i as int).drop_last() =~= ids.take(i - 1));
        }
        assert(ids.take(i as int) =~= ids);
        evicted
    }

    /// Drops the clients that gave no sign of life for more than
    /// `timeout_nanos`, and says which.
    pub fn evict_stale_clients(&mut self, timeout_nanos: u128) -> (evicted: Vec<String>)
        ensures
            exists|now: u128| #[trigger]
                read_since(old(self)@.started, now) && lists(
                    views(evicted@),
                    old(self)@.stale(now, timeout_nanos),
                ),
            final(self)@ == old(self)@.unregistered_all(views(evicted@)),
            old(self)@.well_formed() ==> final(self)@.well_formed(),
    {
        let now = self.clock();
        self.evict_stale_at(now, timeout_nanos)
    }

    /// Sends a command to a client: into its stream if it is connected, which
    /// is left to the caller; else the command waits for the client.
    pub fn send_command(&mut self, client_id: &str, command: CloudCommand) -> (step: SendStep)
        ensures
            final(self)@ == old(self)@.routed(client_id@, command),
            step == old(self)@.route(client_id@, command),
            old(self)@.well_formed() ==> final(self)@.well_formed(),
    {
        match look_up(&self.clients, client_id) {
            Some(sender) => {
                assert(self@ =~= old(self)@.routed(client_id@, command));
                SendStep::Deliver { sender, command }
            },
            None => {
                let mut queue = match take(&mut self.pending_commands, client_id) {
                    Some(queue) => queue,
                    None => VecDeque::new(),
                };
                queue.push_back(command);
                put(&mut self.pending_commands, client_id.to_owned(), queue);
                assert(self@.pending =~= old(self)@.routed(client_id@, command).pending);
                SendStep::Queued
            },
        }
    }

    /// Begins a command whose response is awaited. The steps that follow are
    /// `await_sent`, with what became of the sending, and, if that went well,
    /// `await_reply`, with what came within `RESPONSE_TIMEOUT_SECS`.
    pub fn send_command_await(&mut self, client_id: &str, command: CloudCommand) -> (call:
        AwaitedCommand)
        ensures
            call.command_id@ == command.command_id@,
            call.step == old(self)@.route(client_id@, command),
            answers(final(self)@.waiters[command.command_id@], call.reply),
            final(self)@ == old(self)@.awaiting(
                command.command_id@,
                final(self)@.waiters[command.command_id@],
            ).routed(client_id@, command),
            old(self)@.well_formed() ==> final(self)@.well_formed(),
    {
        let (waiter, reply) = reply_channel();
        let command_id = command.command_id.clone();
        put(&mut self.pending_responses, command_id.clone(), waiter);
        assert(self@ =~= old(self)@.awaiting(command.command_id@, waiter));
        let step = self.send_command(client_id, command);
        AwaitedCommand { command_id, step, reply }
    }

    /// What became of sending an awaited command. After a failure nobody waits
    /// for its response any more.
    pub fn await_sent(&mut self, command_id: &str, sent: Result<(), String>) -> (result: Result<
        (),
        String,
    >)
        ensures
            sent is Ok ==> final(self)@ == old(self)@,
            sent is Err ==> final(self)@ == old(self)@.forgotten(command_id@),
            result is Ok <==> sent is Ok,
            result is Err ==> result->Err_0 == sent->Err_0,
            old(self)@.well_formed() ==> final(self)@.well_formed(),
    {
        match sent {
            Ok(()) => Ok(()),
            Err(error) => {
                let _ = take(&mut self.pending_responses, command_id);
                assert(self@ =~= old(self)@.forgotten(command_id@));
                Err(error)
            },
        }
    }

    /// What became of the wait for a response. When the time was up, nobody
    /// waits for the response any more.
    pub fn await_reply(&mut self, command_id: &str, outcome: ReplyOutcome) -> (result: Result<
        CommandResponse,
        String,
    >)
        ensures
            final(self)@ == (if outcome is TimedOut {
                old(self)@.forgotten(command_id@)
            } else {
                old(self)@
            }),
            match outcome {
                ReplyOutcome::Response(response) => result == Ok::<CommandResponse, String>(
                    response,
                ),
                ReplyOutcome::Closed => result is Err && result->Err_0@
                    == "Response channel closed"@,
                ReplyOutcome::TimedOut => result is Err && result->Err_0@ == "Response timeout"@,
            },
            old(self)@.well_formed() ==> final(self)@.well_formed(),
    {
        match outcome {
            ReplyOutcome::Response(response) => Ok(response),
            ReplyOutcome::Closed => Err("Response channel closed".to_owned()),
            ReplyOutcome::TimedOut => {
                let _ = take(&mut self.pending_responses, command_id);
                assert(self@ =~= old(self)@.forgotten(command_id@));
                Err("Response timeout".to_owned())
            },
        }
    }

    /// Gives a response to whoever waits for it, and says whether it was
    /// taken; `None` if nobody waits.
    pub fn complete_command(&mut self, response: CommandResponse) -> (taken: Option<bool>)
        ensures
            final(self)@ == old(self)@.forgotten(response.command_id@),
            taken is Some <==> old(self)@.waiters.contains_key(response.command_id@),
            taken is Some ==> replied(
                old(self)@.waiters[response.command_id@],
                response,
                taken->0,
            ),
            old(self)@.well_formed() ==> final(self)@.well_formed(),
    {
        let waiter = take(&mut self.pending_responses, response.command_id.as_str());
        assert(self@ =~= old(self)@.forgotten(response.command_id@));
        match waiter {
            Some(sender) => Some(reply(sender, response)),
            None => None,
        }
    }

    /// The ids of the connected clients, in no particular order.
    pub fn list_clients(&self) -> (ids: Vec<String>)
        ensures
            lists(views(ids@), self@.clients.dom()),
    {
        let ids = keys(&self.clients);
        proof {
            let found = views(ids@);
            assert forall|id: Seq<char>| self@.clients.dom().contains(id) <==> #[trigger]
                found.contains(id) by {
                if self@.clients.dom().contains(id) {
                    assert(<CommandSender as Stored>::entries(self.clients).contains_key(id));
                    let k = choose|k: int| 0 <= k < ids@.len() && #[trigger] ids@[k]@ == id;
                    assert(found[k] == id);
                }
                if found.contains(id) {
                    let k = choose|k: int| 0 <= k < found.len() && found[k] == id;
                    assert(ids@[k]@ == id);
                }
            }
        }
        ids
    }

    /// A receiver of the events that come after this call.
    pub fn subscribe_events(&self) -> (receiver: EventReceiver)
        ensures
            self@.listeners.contains(receiver),
            missed(receiver) == self@.events,
    {
        subscribe(&self.event_tx)
    }
}

/// What a caller is told of sending a command into a stream.
pub fn send_outcome(sent: Result<(), CommandSendError>) -> (result: Result<(), String>)
    ensures
        result is Ok <==> sent is Ok,
        result is Err ==> result->Err_0@ == "Failed to send: "@ + "channel closed"@,
{
    match sent {
        Ok(()) => Ok(()),
        Err(error) => Err("Failed to send: ".to_owned().concat(send_error_text(&error).as_str())),
    }
}

} // verus!
