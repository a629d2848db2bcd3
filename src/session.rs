use vstd::prelude::*;

use crate::registry::remove_tagged;
use crate::relay::RelayHub;
use crate::wire::{decode_message, envelope_of, MessageView, WakeMessage};

verus! {

/// A frame read from an agent's transport.
#[derive(Clone, Debug, PartialEq, Eq)]
pub enum Frame {
    Text(String),
    Binary(Vec<u8>),
    Ping(Vec<u8>),
    Pong(Vec<u8>),
    Close,
}

/// What the inbound pump does after a frame.
#[derive(Debug)]
pub enum Inbound<A> {
    /// Keep reading.
    Continue,
    /// Hand this result to this acknowledgement channel, then keep reading.
    Deliver(A, bool),
    /// The peer closed the connection: stop reading.
    Break,
}

/// The acknowledgement that the bytes of a binary frame carry, if they are a
/// wake response.
pub open spec fn response_in(b: Seq<u8>) -> Option<bool> {
    match envelope_of(b) {
        Some(MessageView::WakeUpResponse(ok)) => Some(ok),
        _ => None,
    }
}

/// Handles one frame from the agent of `user_id`. A wake response takes the
/// acknowledgement channel of the call in flight for that identity and hands
/// it the result; a close frame stops the pump; anything else, including
/// bytes that are no envelope, is passed over.
pub fn process_message<S, A>(hub: &mut RelayHub<S, A>, user_id: i32, frame: &Frame) -> (r:
    Inbound<A>)
    ensures
        final(hub).sessions() == old(hub).sessions(),
        final(hub).deadline() == old(hub).deadline(),
        match *frame {
            Frame::Close => r is Break && final(hub).pending() == old(hub).pending(),
            Frame::Binary(b) => match response_in(b@) {
                Some(ok) => final(hub).pending() == old(hub).pending().remove(user_id) && if old(
                    hub,
                ).pending().contains_key(user_id) {
                    r matches Inbound::Deliver(a, v) && a == old(hub).pending()[user_id].1 && v
                        == ok
                } else {
                    r is Continue
                },
                None => r is Continue && final(hub).pending() == old(hub).pending(),
            },
            _ => r is Continue && final(hub).pending() == old(hub).pending(),
        },
{
    match frame {
        Frame::Close => Inbound::Break,
        Frame::Binary(b) => {
            let decoded = decode_message(b.as_slice());
            match decoded {
                Some(WakeMessage::WakeUpResponse(ok)) => match hub.deliver_ack(user_id) {
                    Some(ack) => Inbound::Deliver(ack, ok),
                    None => Inbound::Continue,
                },
                _ => Inbound::Continue,
            }
        },
        _ => Inbound::Continue,
    }
}

/// Where a session is in its life.
#[derive(Clone, Copy, Debug, PartialEq, Eq, Structural)]
pub enum SessionState {
    Handshaking,
    Active,
    Draining,
    Closed,
}

/// One agent connection of an authenticated identity.
pub struct Session {
    user_id: i32,
    session_id: u64,
    state: SessionState,
}

impl Session {
    pub closed spec fn user(&self) -> i32 {
        self.user_id
    }

    pub closed spec fn id(&self) -> u64 {
        self.session_id
    }

    pub closed spec fn state(&self) -> SessionState {
        self.state
    }

    /// A connection of `user_id`, under the id `session_id`, before its
    /// transport upgrade completes.
    pub fn new(user_id: i32, session_id: u64) -> (r: Session)
        ensures
            r.user() == user_id,
            r.id() == session_id,
            r.state() == SessionState::Handshaking,
    {
        Session { user_id, session_id, state: SessionState::Handshaking }
    }

    pub fn state_now(&self) -> (r: SessionState)
        ensures
            r == self.state(),
    {
        self.state
    }

    /// The transport upgrade completed: the session registers `outbound` as
    /// the channel of its identity and becomes active. Only a handshaking
    /// session does so; tells whether it did.
    pub fn activate<S, A>(&mut self, hub: &mut RelayHub<S, A>, outbound: S) -> (r: bool)
        ensures
            r == (old(self).state() == SessionState::Handshaking),
            final(self).user() == old(self).user(),
            final(self).id() == old(self).id(),
            final(hub).pending() == old(hub).pending(),
            final(hub).deadline() == old(hub).deadline(),
            r ==> final(self).state() == SessionState::Active && final(hub).sessions() == old(
                hub,
            ).sessions().insert(old(self).user(), (old(self).id(), outbound)),
            !r ==> final(self).state() == old(self).state() && final(hub).sessions() == old(
                hub,
            ).sessions(),
    {
        if self.state != SessionState::Handshaking {
            return false;
        }
        hub.open_session(self.user_id, self.session_id, outbound);
        self.state = SessionState::Active;
        true
    }

    /// A frame arrived. An active session handles it, and starts draining on
    /// a close frame; a session that is not active reads no more.
    pub fn receive<S, A>(&mut self, hub: &mut RelayHub<S, A>, frame: &Frame) -> (r: Inbound<A>)
        ensures
            final(self).user() == old(self).user(),
            final(self).id() == old(self).id(),
            final(hub).sessions() == old(hub).sessions(),
            final(hub).deadline() == old(hub).deadline(),
            old(self).state() != SessionState::Active ==> r is Break && final(self).state() == old(
                self,
            ).state() && final(hub).pending() == old(hub).pending(),
            old(self).state() == SessionState::Active ==> {
                &&& frame is Close ==> r is Break && final(self).state() == SessionState::Draining
                &&& !(frame is Close) ==> !(r is Break) && final(self).state()
                    == SessionState::Active
            },
            old(self).state() == SessionState::Active ==> match *frame {
                Frame::Binary(b) => match response_in(b@) {
                    Some(ok) => final(hub).pending() == old(hub).pending().remove(old(self).user())
                        && if old(hub).pending().contains_key(old(self).user()) {
                        r matches Inbound::Deliver(a, v) && a == old(hub).pending()[old(
                            self,
                        ).user()].1 && v == ok
                    } else {
                        r is Continue
                    },
                    None => r is Continue && final(hub).pending() == old(hub).pending(),
                },
                _ => final(hub).pending() == old(hub).pending(),
            },
    {
        if self.state != SessionState::Active {
            return Inbound::Break;
        }
        let r = process_message(hub, self.user_id, frame);
        if let Inbound::Break = r {
            self.state = SessionState::Draining;
        }
        r
    }

    /// Either pump ended: the session closes and removes its registration,
    /// unless a newer session of the same identity has replaced it. Tells
    /// whether it removed one.
    pub fn close<S, A>(&mut self, hub: &mut RelayHub<S, A>) -> (r: bool)
        ensures
            final(self).user() == old(self).user(),
            final(self).id() == old(self).id(),
            final(self).state() == SessionState::Closed,
            final(hub).pending() == old(hub).pending(),
            final(hub).deadline() == old(hub).deadline(),
            old(self).state() == SessionState::Closed ==> !r && final(hub).sessions() == old(
                hub,
            ).sessions(),
            old(self).state() != SessionState::Closed ==> final(hub).sessions() == remove_tagged(
                old(hub).sessions(),
                old(self).user(),
                old(self).id(),
            ),
            old(self).state() != SessionState::Closed ==> r == (old(hub).sessions().contains_key(
                old(self).user(),
            ) && old(hub).sessions()[old(self).user()].0 == old(self).id()),
    {
        if self.state == SessionState::Closed {
            return false;
        }
        self.state = SessionState::Closed;
        hub.close_session(self.user_id, self.session_id)
    }
}

} // verus!
