use vstd::prelude::*;

use crate::error::MyError;
use crate::registry::{remove_tagged, Registry};

verus! {

/// Seconds a wake call waits for its acknowledgement unless the hub is built
/// with another deadline.
pub const WAKE_DEADLINE_SECS: u64 = 5;

/// How the wait for an acknowledgement ended.
#[derive(Clone, Copy, Debug, PartialEq, Eq, Structural)]
pub enum AckEvent {
    /// The agent answered with this result.
    Acked(bool),
    /// The acknowledgement channel closed without an answer.
    Dropped,
    /// The deadline passed first.
    DeadlineElapsed,
}

/// The result a wake call reports for the way its wait ended: the agent's
/// answer, or `false`.
pub open spec fn wake_result(event: AckEvent) -> bool {
    match event {
        AckEvent::Acked(ok) => ok,
        _ => false,
    }
}

/// The long-lived state of the relay: the outbound channel `S` of each
/// connected agent, by identity, and the acknowledgement channel `A` of each
/// wake call in flight, by identity.
pub struct RelayHub<S, A> {
    sessions: Registry<S>,
    pending: Registry<A>,
    deadline_secs: u64,
}

impl<S, A> RelayHub<S, A> {
    /// Open sessions: identity to (session id, outbound channel).
    pub closed spec fn sessions(&self) -> Map<i32, (u64, S)> {
        self.sessions@
    }

    /// Wake calls in flight: identity to (ticket, acknowledgement channel).
    pub closed spec fn pending(&self) -> Map<i32, (u64, A)> {
        self.pending@
    }

    pub closed spec fn deadline(&self) -> u64 {
        self.deadline_secs
    }

    pub fn new() -> (r: RelayHub<S, A>)
        ensures
            r.sessions() == Map::<i32, (u64, S)>::empty(),
            r.pending() == Map::<i32, (u64, A)>::empty(),
            r.deadline() == WAKE_DEADLINE_SECS,
    {
        RelayHub::with_deadline(WAKE_DEADLINE_SECS)
    }

    /// A hub whose wake calls wait `deadline_secs` seconds.
    pub fn with_deadline(deadline_secs: u64) -> (r: RelayHub<S, A>)
        ensures
            r.sessions() == Map::<i32, (u64, S)>::empty(),
            r.pending() == Map::<i32, (u64, A)>::empty(),
            r.deadline() == deadline_secs,
    {
        RelayHub { sessions: Registry::new(), pending: Registry::new(), deadline_secs }
    }

    pub fn deadline_secs(&self) -> (r: u64)
        ensures
            r == self.deadline(),
    {
        self.deadline_secs
    }

    /// Registers the session `session_id` of `user_id`; a session already
    /// registered for that identity is replaced.
    pub fn open_session(&mut self, user_id: i32, session_id: u64, outbound: S)
        ensures
            final(self).sessions() == old(self).sessions().insert(user_id, (session_id, outbound)),
            final(self).pending() == old(self).pending(),
            final(self).deadline() == old(self).deadline(),
    {
        self.sessions.insert(user_id, session_id, outbound);
    }

    /// Removes the session of `user_id` if it is still `session_id`; a newer
    /// session of the same identity stays. Tells whether it removed one.
    pub fn close_session(&mut self, user_id: i32, session_id: u64) -> (r: bool)
        ensures
            final(self).sessions() == remove_tagged(old(self).sessions(), user_id, session_id),
            r == (old(self).sessions().contains_key(user_id) && old(self).sessions()[user_id].0
                == session_id),
            final(self).pending() == old(self).pending(),
            final(self).deadline() == old(self).deadline(),
    {
        self.sessions.remove_tagged(user_id, session_id)
    }

    pub fn is_connected(&self, user_id: i32) -> (r: bool)
        ensures
            r == self.sessions().contains_key(user_id),
    {
        self.sessions.contains(user_id)
    }

    /// The outbound channel of the session of `user_id`.
    pub fn session(&self, user_id: i32) -> (r: Option<&S>)
        ensures
            match r {
                Some(s) => self.sessions().contains_key(user_id) && *s
                    == self.sessions()[user_id].1,
                None => !self.sessions().contains_key(user_id),
            },
    {
        self.sessions.get(user_id)
    }

    /// The id of the session of `user_id`.
    pub fn session_id(&self, user_id: i32) -> (r: Option<u64>)
        ensures
            match r {
                Some(t) => self.sessions().contains_key(user_id) && t
                    == self.sessions()[user_id].0,
                None => !self.sessions().contains_key(user_id),
            },
    {
        self.sessions.tag(user_id)
    }

    /// Starts a wake call of `user_id` under `ticket`: fails when the
    /// identity has no session, and otherwise registers `ack` as the place
    /// its acknowledgement goes, replacing that of an earlier call.
    pub fn begin_wake(&mut self, user_id: i32, ticket: u64, ack: A) -> (r: Result<(), MyError>)
        ensures
            final(self).sessions() == old(self).sessions(),
            final(self).deadline() == old(self).deadline(),
            old(self).sessions().contains_key(user_id) ==> r is Ok && final(self).pending()
                == old(self).pending().insert(user_id, (ticket, ack)),
            !old(self).sessions().contains_key(user_id) ==> r == Err::<(), MyError>(
                MyError::NoSenderFoundForUser { user_id },
            ) && final(self).pending() == old(self).pending(),
    {
        if !self.sessions.contains(user_id) {
            return Err(MyError::NoSenderFoundForUser { user_id });
        }
        self.pending.insert(user_id, ticket, ack);
        Ok(())
    }

    /// Takes the acknowledgement channel of the wake call in flight for
    /// `user_id`, so that a second acknowledgement finds nothing.
    pub fn deliver_ack(&mut self, user_id: i32) -> (r: Option<A>)
        ensures
            final(self).pending() == old(self).pending().remove(user_id),
            final(self).sessions() == old(self).sessions(),
            final(self).deadline() == old(self).deadline(),
            match r {
                Some(a) => old(self).pending().contains_key(user_id) && a == old(
                    self,
                ).pending()[user_id].1,
                None => !old(self).pending().contains_key(user_id),
            },
    {
        self.pending.take(user_id)
    }

    /// Ends the wake call `ticket` of `user_id`: its entry, if still there,
    /// is removed, and the call reports the agent's answer, or `false` when
    /// the deadline passed or the channel closed. Neither is an error.
    pub fn settle_wake(&mut self, user_id: i32, ticket: u64, event: AckEvent) -> (r: bool)
        ensures
            r == wake_result(event),
            final(self).pending() == remove_tagged(old(self).pending(), user_id, ticket),
            final(self).sessions() == old(self).sessions(),
            final(self).deadline() == old(self).deadline(),
    {
        self.pending.remove_tagged(user_id, ticket);
        match event {
            AckEvent::Acked(ok) => ok,
            AckEvent::Dropped => false,
            AckEvent::DeadlineElapsed => false,
        }
    }

    /// Ends the wake call `ticket` of `user_id` whose request could not be
    /// handed to the session: its entry, if still there, is removed.
    pub fn fail_wake(&mut self, user_id: i32, ticket: u64, error: String) -> (r: MyError)
        ensures
            r == (MyError::FailedToSendWakeUpProto { error }),
            final(self).pending() == remove_tagged(old(self).pending(), user_id, ticket),
            final(self).sessions() == old(self).sessions(),
            final(self).deadline() == old(self).deadline(),
    {
        self.pending.remove_tagged(user_id, ticket);
        MyError::FailedToSendWakeUpProto { error }
    }
}

/// Last connect wins: after a second session of `user_id` is registered while
/// the first is open, the identity's entry is the second session, and it stays
/// so when the first session later closes.
pub proof fn lemma_second_session_wins<S>(
    sessions: Map<i32, (u64, S)>,
    user_id: i32,
    first: u64,
    first_channel: S,
    second: u64,
    second_channel: S,
)
    requires
        first != second,
    ensures
        ({
            let both = sessions.insert(user_id, (first, first_channel)).insert(
                user_id,
                (second, second_channel),
            );
            &&& both.contains_key(user_id)
            &&& both[user_id] == (second, second_channel)
            &&& remove_tagged(both, user_id, first).contains_key(user_id)
            &&& remove_tagged(both, user_id, first)[user_id] == (second, second_channel)
        }),
{
}

/// Work on the entry of one identity leaves the entry of every other identity
/// as it was: registering, taking and removing under `user_id` do not touch
/// `other`.
pub proof fn lemma_identities_independent<T>(
    entries: Map<i32, (u64, T)>,
    user_id: i32,
    other: i32,
    tag: u64,
    entry: (u64, T),
)
    requires
        user_id != other,
    ensures
        entries.insert(user_id, entry).contains_key(other) == entries.contains_key(other),
        entries.remove(user_id).contains_key(other) == entries.contains_key(other),
        remove_tagged(entries, user_id, tag).contains_key(other) == entries.contains_key(other),
        entries.contains_key(other) ==> {
            &&& entries.insert(user_id, entry)[other] == entries[other]
            &&& entries.remove(user_id)[other] == entries[other]
            &&& remove_tagged(entries, user_id, tag)[other] == entries[other]
        },
{
}

} // verus!
