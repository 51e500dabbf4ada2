//! One client's connection, from the token to the end of its stream.
use crate::auth::AuthError;
use crate::channels::{
    command_capacity, command_channel, feeds, offers, replied, CommandReceiver, CommandSender,
};
use crate::clock::read_since;
use crate::messages::{Claims, ClientMessage, CloudCommand};
use crate::registry::{filled, offered, same_stream, ClientRegistry, RegistryView};
use vstd::prelude::*;

verus! {

/// How many commands a client's stream holds.
pub const COMMAND_CAPACITY: usize = 100;

/// A connection that a token was accepted for.
pub struct Session {
    /// The client's id, once it registered.
    client_id: Option<String>,
    /// The subject of the token.
    hardware_id: String,
    /// The client's command stream.
    sender: CommandSender,
    /// Whether the client was refused.
    ended: bool,
}

/// A session as mathematics, but for its stream.
#[verifier::ext_equal]
pub struct SessionView {
    pub client_id: Option<Seq<char>>,
    pub hardware_id: Seq<char>,
    /// The client was refused: nothing that it sends counts any more.
    pub ended: bool,
}

impl View for Session {
    type V = SessionView;

    closed spec fn view(&self) -> SessionView {
        SessionView {
            client_id: match self.client_id {
                Some(id) => Some(id@),
                None => None,
            },
            hardware_id: self.hardware_id@,
            ended: self.ended,
        }
    }
}

impl SessionView {
    /// The client goes by no id but the token's.
    pub open spec fn well_formed(self) -> bool {
        self.client_id is Some ==> self.client_id->0 == self.hardware_id
    }

    /// The id that signs of life are noted under: empty before the client
    /// registered.
    pub open spec fn name(self) -> Seq<char> {
        match self.client_id {
            Some(id) => id,
            None => Seq::empty(),
        }
    }

    /// Whether a message registers the client under the token's id.
    pub open spec fn registers(self, message: Option<ClientMessage>) -> bool {
        !self.ended && message is Some && message->0 is Register
            && message->0->Register_0.client_id@ == self.hardware_id
    }

    /// Whether a message claims an id that is not the token's.
    pub open spec fn is_foreign(self, message: Option<ClientMessage>) -> bool {
        message is Some && message->0 is Register && message->0->Register_0.client_id@
            != self.hardware_id
    }

    /// After a message of the client.
    pub open spec fn next(self, message: Option<ClientMessage>) -> SessionView {
        if self.registers(message) {
            SessionView { client_id: Some(self.hardware_id), ..self }
        } else if self.is_foreign(message) {
            SessionView { ended: true, ..self }
        } else {
            self
        }
    }

    /// The registry after a message of the client that came when the clock
    /// stood at `now`, if the client's stream is `sender`.
    pub open spec fn next_registry(
        self,
        registry: RegistryView,
        message: Option<ClientMessage>,
        sender: CommandSender,
        now: u128,
    ) -> RegistryView {
        if self.ended {
            registry
        } else {
            match message {
                Some(ClientMessage::Register(_)) => if self.registers(message) {
                    registry.registered(self.hardware_id, sender, now)
                } else {
                    registry
                },
                Some(ClientMessage::Ping) => registry.active(self.name(), now),
                Some(ClientMessage::Response(response)) => registry.forgotten(
                    response.command_id@,
                ),
                _ => registry,
            }
        }
    }

    /// The commands that a message of the client sets free.
    pub open spec fn freed(
        self,
        registry: RegistryView,
        message: Option<ClientMessage>,
    ) -> Seq<CloudCommand> {
        if self.registers(message) {
            registry.backlog(self.hardware_id)
        } else {
            Seq::empty()
        }
    }

    /// `step` is what is left to do after a message of the client.
    pub open spec fn next_step(
        self,
        registry: RegistryView,
        message: Option<ClientMessage>,
        step: SessionStep,
    ) -> bool {
        if self.ended {
            step is Ended
        } else {
            match message {
                None => step is Idle,
                Some(ClientMessage::Register(registration)) => if self.registers(message) {
                    &&& step is Registered
                    &&& step->version == registration.version
                    &&& step->flushed == registry.backlog(self.hardware_id).len()
                } else {
                    step == (SessionStep::Refuse { claimed: registration.client_id })
                },
                Some(ClientMessage::Ping) => step is Idle,
                Some(ClientMessage::Refresh { new_jwt }) => step == (SessionStep::Validate {
                    token: new_jwt,
                }),
                Some(ClientMessage::Response(response)) => {
                    &&& step is Answered
                    &&& step->taken is Some <==> registry.waiters.contains_key(
                        response.command_id@,
                    )
                    &&& step->taken is Some ==> replied(
                        registry.waiters[response.command_id@],
                        response,
                        step->taken->0,
                    )
                },
                Some(ClientMessage::Log { level, message }) => step == (SessionStep::Report {
                    level,
                    message,
                }),
            }
        }
    }

    /// The registry after the stream ended: the client is dropped if it goes by
    /// an id that is not empty.
    pub open spec fn closed(self, registry: RegistryView) -> RegistryView {
        match self.client_id {
            Some(id) => if id.len() > 0 {
                registry.unregistered(id)
            } else {
                registry
            },
            None => registry,
        }
    }
}

/// What is left to do after a message.
pub enum SessionStep {
    /// Nothing: wait for the next message.
    Idle,
    /// The client is connected; it runs this version, and so many commands
    /// waited for it.
    Registered { version: String, flushed: usize },
    /// The client claims an id that its token does not give it: end the stream.
    Refuse { claimed: String },
    /// The client was refused before: end the stream.
    Ended,
    /// Validate the token, and come back with its claims to `Session::refresh`.
    Validate { token: String },
    /// A response went to its caller, which took it or not; `None` if nobody
    /// waited for it.
    Answered { taken: Option<bool> },
    /// Show what the client has to say.
    Report { level: String, message: String },
}

/// What became of a new token.
#[derive(Clone, Copy, Debug, PartialEq, Eq, Structural)]
pub enum Refresh {
    /// It is for the same client.
    Accepted,
    /// It is for another client, and changes nothing.
    Mismatch,
    /// It is not valid, and changes nothing.
    Invalid,
}

impl Session {
    /// The session's half of its command stream.
    pub closed spec fn stream(&self) -> CommandSender {
        self.sender
    }

    /// Begins a session for a token's claims, if the token is valid. The second
    /// part is where the client's commands come out.
    pub fn open(claims: Option<Claims>) -> (session: Result<(Session, CommandReceiver), AuthError>)
        ensures
            session is Ok <==> claims is Some,
            session is Err ==> session->Err_0 == AuthError::InvalidToken,
            session matches Ok((session, receiver)) ==> {
                &&& session@ == (SessionView {
                    client_id: None,
                    hardware_id: claims->0.sub@,
                    ended: false,
                })
                &&& session@.well_formed()
                &&& feeds(session.stream(), receiver)
                &&& command_capacity(session.stream()) == COMMAND_CAPACITY
                &&& offers(session.stream()).len() == 0
            },
    {
        match claims {
            Some(claims) => {
                let (sender, receiver) = command_channel(COMMAND_CAPACITY);
                let session = Session {
                    client_id: None,
                    hardware_id: claims.sub,
                    sender,
                    ended: false,
                };
                Ok((session, receiver))
            },
            None => Err(AuthError::InvalidToken),
        }
    }

    /// The client's id, once it registered.
    pub fn client_id(&self) -> (id: Option<&str>)
        ensures
            id is Some <==> self@.client_id is Some,
            id is Some ==> id->0@ == self@.client_id->0,
    {
        match &self.client_id {
            Some(id) => Some(id.as_str()),
            None => None,
        }
    }

    /// The only id that the client may register.
    pub fn hardware_id(&self) -> (id: &str)
        ensures
            id@ == self@.hardware_id,
    {
        self.hardware_id.as_str()
    }

    /// Takes a message of the client when the clock stands at `now`.
    pub fn receive_at(
        &mut self,
        registry: &mut ClientRegistry,
        message: Option<ClientMessage>,
        now: u128,
    ) -> (step: SessionStep)
        ensures
            final(self)@ == old(self)@.next(message),
            final(registry)@ == old(self)@.next_registry(
                old(registry)@,
                message,
                old(self).stream(),
                now,
            ),
            old(self)@.next_step(old(registry)@, message, step),
            offered(
                old(self).stream(),
                old(self)@.freed(old(registry)@, message),
                final(self).stream(),
            ),
            filled(old(self).stream(), final(self).stream()),
            same_stream(old(self).stream(), final(self).stream()),
            old(self)@.well_formed() ==> final(self)@.well_formed(),
            old(registry)@.well_formed() ==> final(registry)@.well_formed(),
    {
        if self.ended {
            return SessionStep::Ended;
        }
        match message {
            None => SessionStep::Idle,
            Some(ClientMessage::Register(registration)) => {
                if registration.client_id != self.hardware_id {
                    self.ended = true;
                    return SessionStep::Refuse { claimed: registration.client_id };
                }
                self.client_id = Some(registration.client_id.clone());
                let flushed: usize = registry.register_at(
                    registration.client_id,
                    &mut self.sender,
                    now,
                );
                SessionStep::Registered { version: registration.version, flushed }
            },
            Some(ClientMessage::Ping) => {
                match &self.client_id {
                    Some(id) => registry.update_activity_at(id.as_str(), now),
                    None => registry.update_activity_at(String::new().as_str(), now),
                }
                SessionStep::Idle
            },
            Some(ClientMessage::Refresh { new_jwt }) => SessionStep::Validate { token: new_jwt },
            Some(ClientMessage::Response(response)) => {
                let taken = registry.complete_command(response);
                SessionStep::Answered { taken }
            },
            Some(ClientMessage::Log { level, message }) => SessionStep::Report { level, message },
        }
    }

    /// Takes a message of the client now.
    pub fn receive(
        &mut self,
        registry: &mut ClientRegistry,
        message: Option<ClientMessage>,
    ) -> (step: SessionStep)
        ensures
            final(self)@ == old(self)@.next(message),
            exists|now: u128| #[trigger]
                read_since(old(registry)@.started, now) && final(registry)@
                    == old(self)@.next_registry(
                    old(registry)@,
                    message,
                    old(self).stream(),
                    now,
                ),
            old(self)@.next_step(old(registry)@, message, step),
            offered(
                old(self).stream(),
                old(self)@.freed(old(registry)@, message),
                final(self).stream(),
            ),
            filled(old(self).stream(), final(self).stream()),
            same_stream(old(self).stream(), final(self).stream()),
            old(self)@.well_formed() ==> final(self)@.well_formed(),
            old(registry)@.well_formed() ==> final(registry)@.well_formed(),
    {
        let now = registry.clock();
        self.receive_at(registry, message, now)
    }

    /// Takes the claims of a new token, if it is valid.
    pub fn refresh(&mut self, claims: Option<Claims>) -> (outcome: Refresh)
        ensures
            final(self)@ == old(self)@,
            final(self).stream() == old(self).stream(),
            outcome == match claims {
                None => Refresh::Invalid,
                Some(claims) => if claims.sub@ == old(self)@.hardware_id {
                    Refresh::Accepted
                } else {
                    Refresh::Mismatch
                },
            },
    {
        match claims {
            Some(claims) => {
                if claims.sub == self.hardware_id {
                    self.hardware_id = claims.sub;
                    Refresh::Accepted
                } else {
                    Refresh::Mismatch
                }
            },
            None => Refresh::Invalid,
        }
    }

    /// Ends the session: the client, if it registered under an id that is not
    /// empty, is dropped.
    pub fn close(self, registry: &mut ClientRegistry)
        ensures
            final(registry)@ == self@.closed(old(registry)@),
            old(registry)@.well_formed() ==> final(registry)@.well_formed(),
    {
        match self.client_id {
            Some(id) => {
                if !id.as_str().is_empty() {
                    registry.unregister(id.as_str());
                }
            },
            None => {},
        }
    }
}

} // verus!
