//! The channels of tokio that the registry fills.
//!
//! A channel hands on what it is given at once, to tasks that this crate does
//! not see. What can be told of a sending half is what went into it: a half is
//! only filled through `&mut` here, and each call adds to its record.
//!
//! Everything marked `external_body` here, and the specification of `clone`, is
//! believed and not proved.
use crate::messages::{CloudCommand, CommandResponse, ConnectionEvent, EventView};
use tokio::sync::{broadcast, mpsc, oneshot};
use vstd::prelude::*;

verus! {

#[verifier::external_type_specification]
#[verifier::external_body]
#[verifier::reject_recursive_types(T)]
pub struct ExCommandSender<T>(mpsc::Sender<T>);

#[verifier::external_type_specification]
#[verifier::external_body]
#[verifier::reject_recursive_types(T)]
pub struct ExCommandReceiver<T>(mpsc::Receiver<T>);

#[verifier::external_type_specification]
#[verifier::external_body]
#[verifier::reject_recursive_types(T)]
pub struct ExReplySender<T>(oneshot::Sender<T>);

#[verifier::external_type_specification]
#[verifier::external_body]
#[verifier::reject_recursive_types(T)]
pub struct ExReplyReceiver<T>(oneshot::Receiver<T>);

#[verifier::external_type_specification]
#[verifier::external_body]
pub struct ExReplyError(oneshot::error::RecvError);

#[verifier::external_type_specification]
#[verifier::external_body]
#[verifier::reject_recursive_types(T)]
pub struct ExEventSender<T>(broadcast::Sender<T>);

#[verifier::external_type_specification]
#[verifier::external_body]
#[verifier::reject_recursive_types(T)]
pub struct ExEventReceiver<T>(broadcast::Receiver<T>);

#[verifier::external_type_specification]
#[verifier::external_body]
pub struct ExStatus(tonic::Status);

#[verifier::external_type_specification]
#[verifier::external_body]
#[verifier::reject_recursive_types(T)]
pub struct ExSendError<T>(mpsc::error::SendError<T>);

/// Sending half of a client's command stream.
pub type CommandSender = mpsc::Sender<Result<CloudCommand, tonic::Status>>;

/// Receiving half of a client's command stream.
pub type CommandReceiver = mpsc::Receiver<Result<CloudCommand, tonic::Status>>;

/// Gives back what could not be sent into a client's command stream.
pub type CommandSendError = mpsc::error::SendError<Result<CloudCommand, tonic::Status>>;

/// Takes the one response that a caller waits for.
pub type ReplySender = oneshot::Sender<CommandResponse>;

/// Gives the one response that a caller waits for.
pub type ReplyReceiver = oneshot::Receiver<CommandResponse>;

/// Where connection events are announced.
pub type EventSender = broadcast::Sender<ConnectionEvent>;

/// Where connection events are heard.
pub type EventReceiver = broadcast::Receiver<ConnectionEvent>;

/// A command that was given to `try_send`, and what the call found.
pub struct Offer {
    pub command: CloudCommand,
    /// How many places of the channel were free; none if it was closed.
    pub room: nat,
    /// Whether the receiver was there and had not closed the channel.
    pub open: bool,
    /// Whether nobody else used the channel since the offer before this one in
    /// the record, or, if there is none, since the channel was made. To use it
    /// is to send into it, to reserve room in it, to take out of it or to close
    /// it, through this or any other handle.
    pub alone: bool,
}

impl Offer {
    /// Whether the channel took the command.
    pub open spec fn taken(self) -> bool {
        self.room > 0
    }
}

/// What the `i`th offer of a record found, as far as the one before it tells: a
/// closed channel has no room and stays closed, and where nobody else used the
/// channel, only the command that was taken before needed a place.
pub open spec fn continues(record: Seq<Offer>, i: int, capacity: usize) -> bool {
    let offer = record[i];
    &&& offer.room <= capacity
    &&& !offer.open ==> offer.room == 0
    &&& if i == 0 {
        offer.alone ==> offer.open && offer.room == capacity
    } else {
        let last = record[i - 1];
        &&& !last.open ==> !offer.open
        &&& offer.alone ==> offer.open == last.open && offer.room == if last.taken() {
            last.room - 1
        } else {
            0
        }
    }
}

/// The commands that were given to `try_send` through this handle, in order,
/// each with what the call found. A clone starts with the record of the handle
/// that it was cloned from.
pub uninterp spec fn offers(sender: CommandSender) -> Seq<Offer>;

/// The buffer size that the handle's channel was made with.
pub uninterp spec fn command_capacity(sender: CommandSender) -> usize;

/// Whether `receiver` was made as the other half of the handle's channel.
pub uninterp spec fn feeds(sender: CommandSender, receiver: CommandReceiver) -> bool;

/// The events that were given to `send` through this handle, in order. A clone
/// starts with the record of the handle that it was cloned from.
pub uninterp spec fn announced(sender: EventSender) -> Seq<EventView>;

/// The capacity that the handle's channel was made with.
pub uninterp spec fn event_capacity(sender: EventSender) -> usize;

/// The record of the handle that the receiver was subscribed with, at that time.
pub uninterp spec fn missed(receiver: EventReceiver) -> Seq<EventView>;

/// Whether `receiver` was subscribed to the handle's channel: it is given what is
/// sent into the channel after that, but may lose the oldest events where it is
/// more than the channel's capacity behind.
pub uninterp spec fn hears(sender: EventSender, receiver: EventReceiver) -> bool;

/// The receivers that were subscribed to the handle's channel.
pub open spec fn listeners(sender: EventSender) -> Set<EventReceiver> {
    Set::new(|receiver: EventReceiver| hears(sender, receiver))
}

/// Whether `receiver` was made as the other half of the sender's channel.
pub uninterp spec fn answers(sender: ReplySender, receiver: ReplyReceiver) -> bool;

/// Whether a call that gave `response` to `sender` was made and returned
/// whether the response was `taken`.
pub uninterp spec fn replied(sender: ReplySender, response: CommandResponse, taken: bool) -> bool;

/// `<tokio::sync::mpsc::Sender<T> as Clone>::clone`: a second handle of the
/// same channel, not told apart from the first.
pub assume_specification<T>[ <mpsc::Sender<T> as Clone>::clone ](sender: &mpsc::Sender<T>) -> (twin:
    mpsc::Sender<T>)
    ensures
        twin == *sender,
;

/// `tokio::sync::mpsc::channel`: two halves of one new channel that holds
/// `capacity` messages. It panics on 0 and on more than an eighth of `usize`.
#[verifier::external_body]
pub(crate) fn command_channel(capacity: usize) -> (halves: (CommandSender, CommandReceiver))
    requires
        0 < capacity <= usize::MAX / 8,
    ensures
        feeds(halves.0, halves.1),
        command_capacity(halves.0) == capacity,
        offers(halves.0).len() == 0,
{
    mpsc::channel(capacity)
}

/// `tokio::sync::mpsc::Sender::try_send`: hands the command to the channel
/// without waiting. The channel takes it if it is open and has a free place, and
/// the call adds to the record what it found of that. What it finds depends on
/// who else uses the channel.
#[verifier::external_body]
pub(crate) fn offer(sender: &mut CommandSender, command: CloudCommand) -> (taken: bool)
    ensures
        offers(*final(sender)) == offers(*old(sender)).push(offers(*final(sender)).last()),
        offers(*final(sender)).last().command == command,
        taken == offers(*final(sender)).last().taken(),
        continues(
            offers(*final(sender)),
            offers(*old(sender)).len() as int,
            command_capacity(*old(sender)),
        ),
        command_capacity(*final(sender)) == command_capacity(*old(sender)),
        forall|receiver: CommandReceiver|
            #[trigger] feeds(*final(sender), receiver) == feeds(*old(sender), receiver),
{
    sender.try_send(Ok(command)).is_ok()
}

/// `tokio::sync::mpsc::error::SendError`, displayed: the same text for every
/// error.
#[verifier::external_body]
pub(crate) fn send_error_text(error: &CommandSendError) -> (text: String)
    ensures
        text@ == "channel closed"@,
{
    error.to_string()
}

/// `tokio::sync::broadcast::channel`: the sending half of a new channel for
/// `capacity` events; the first receiver is dropped. It panics on 0 and on more
/// than half of `usize`.
#[verifier::external_body]
pub(crate) fn event_channel(capacity: usize) -> (sender: EventSender)
    requires
        0 < capacity <= usize::MAX / 2,
    ensures
        event_capacity(sender) == capacity,
        announced(sender).len() == 0,
{
    broadcast::channel(capacity).0
}

/// `tokio::sync::broadcast::Sender::send`: hands the event to whoever is
/// subscribed, and subscribes nobody. How many are there depends on others and
/// is not reported.
#[verifier::external_body]
pub(crate) fn announce(sender: &mut EventSender, event: ConnectionEvent)
    ensures
        announced(*final(sender)) == announced(*old(sender)).push(event@),
        event_capacity(*final(sender)) == event_capacity(*old(sender)),
        forall|receiver: EventReceiver|
            #[trigger] hears(*final(sender), receiver) == hears(*old(sender), receiver),
{
    let _ = sender.send(event);
}

/// `tokio::sync::broadcast::Sender::subscribe`: a receiver of what is sent
/// after this call. It panics when a quarter of `usize` receivers are there.
#[verifier::external_body]
pub(crate) fn subscribe(sender: &EventSender) -> (receiver: EventReceiver)
    ensures
        hears(*sender, receiver),
        missed(receiver) == announced(*sender),
{
    sender.subscribe()
}

/// `tokio::sync::oneshot::channel`: two halves of one new channel.
#[verifier::external_body]
pub(crate) fn reply_channel() -> (halves: (ReplySender, ReplyReceiver))
    ensures
        answers(halves.0, halves.1),
{
    oneshot::channel()
}

/// `tokio::sync::oneshot::Sender::send`: gives the response to the waiting
/// half. It is not taken when that half is gone, which depends on others.
#[verifier::external_body]
pub(crate) fn reply(sender: ReplySender, response: CommandResponse) -> (taken: bool)
    ensures
        replied(sender, response, taken),
{
    sender.send(response).is_ok()
}

} // verus!
