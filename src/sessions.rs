//! The session registry: at most one live delivery channel per user, where
//! the last connection to attach wins.
use std::collections::HashMap;
use vstd::prelude::*;

use crate::codec::{frame_of, ChangeEvent};

verus! {

broadcast use vstd::std_specs::hash::group_hash_axioms;

/// A frame ready to be pushed on one live channel.
pub struct Delivery {
    pub channel: u64,
    pub frame: Vec<u8>,
}

/// Why an event could not be handed to a user's own session.
#[derive(Clone, Copy, Debug, PartialEq, Eq, Structural)]
pub enum DeliveryError {
    /// The user has no live session.
    NoSession,
}

/// The channel that a delivery to `user` goes to, if any.
pub open spec fn session_target(m: Map<u128, u64>, user: u128) -> Option<u64> {
    if m.contains_key(user) {
        Some(m[user])
    } else {
        None
    }
}

/// Maps each user to the channel of their current live connection.
pub struct SessionRegistry {
    sessions: HashMap<u128, u64>,
}

impl View for SessionRegistry {
    type V = Map<u128, u64>;

    closed spec fn view(&self) -> Map<u128, u64> {
        self.sessions@
    }
}

/// Once `c2` is attached after `c1` for the same user, deliveries to that
/// user go to `c2`, and never to `c1` unless it is the same channel.
pub proof fn lemma_last_attach_wins(m: Map<u128, u64>, user: u128, c1: u64, c2: u64)
    ensures
        session_target(m.insert(user, c1).insert(user, c2), user) == Some(c2),
        c1 != c2 ==> session_target(m.insert(user, c1).insert(user, c2), user) != Some(c1),
{
}

/// Attaching or detaching another user's session leaves `user`'s target as
/// it was.
pub proof fn lemma_sessions_independent(m: Map<u128, u64>, user: u128, other: u128, c: u64)
    requires
        user != other,
    ensures
        session_target(m.insert(other, c), user) == session_target(m, user),
        session_target(m.remove(other), user) == session_target(m, user),
{
}

impl SessionRegistry {
    /// A registry with no session.
    pub fn new() -> (r: SessionRegistry)
        ensures
            r@ == Map::<u128, u64>::empty(),
    {
        SessionRegistry { sessions: HashMap::new() }
    }

    /// Binds `channel` as `user`'s live session, superseding any earlier one.
    /// Returns whether an earlier session was replaced.
    pub fn attach(&mut self, user: u128, channel: u64) -> (replaced: bool)
        ensures
            replaced == old(self)@.contains_key(user),
            final(self)@ == old(self)@.insert(user, channel),
    {
        let prev = self.sessions.insert(user, channel);
        prev.is_some()
    }

    /// Removes `user`'s session, whichever channel it is; returns that
    /// channel.
    pub fn detach(&mut self, user: u128) -> (r: Option<u64>)
        ensures
            r == session_target(old(self)@, user),
            final(self)@ == old(self)@.remove(user),
    {
        self.sessions.remove(&user)
    }

    /// Removes `user`'s session only while it is still bound to `channel`:
    /// the teardown of a superseded connection leaves its successor alone.
    pub fn detach_channel(&mut self, user: u128, channel: u64) -> (removed: bool)
        ensures
            removed == (session_target(old(self)@, user) == Some(channel)),
            final(self)@ == if removed {
                old(self)@.remove(user)
            } else {
                old(self)@
            },
    {
        match self.sessions.get(&user) {
            Some(c) => {
                if *c == channel {
                    self.sessions.remove(&user);
                    true
                } else {
                    false
                }
            },
            None => false,
        }
    }

    /// The channel of `user`'s live session.
    pub fn current(&self, user: u128) -> (r: Option<u64>)
        ensures
            r == session_target(self@, user),
    {
        match self.sessions.get(&user) {
            Some(c) => Some(*c),
            None => None,
        }
    }

    /// The number of users with a live session.
    pub fn len(&self) -> (r: usize)
        ensures
            r == self@.len(),
    {
        self.sessions.len()
    }

    /// Frames `event` for `user`'s live session; fails fast when there is
    /// none.
    pub fn deliver(&self, user: u128, event: &ChangeEvent) -> (r: Result<Delivery, DeliveryError>)
        ensures
            match r {
                Ok(d) => session_target(self@, user) == Some(d.channel) && d.frame@ == frame_of(*event),
                Err(e) => session_target(self@, user) is None && e == DeliveryError::NoSession,
            },
    {
        match self.current(user) {
            Some(channel) => Ok(Delivery { channel, frame: event.encode() }),
            None => Err(DeliveryError::NoSession),
        }
    }
}

} // verus!
