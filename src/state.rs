//! The shared service state, the change notification that follows each
//! avatar change, and the teardown of a closed connection.
use vstd::prelude::*;

use crate::codec::{frame_of, ChangeEvent};
use crate::directory::IdentityDirectory;
use crate::sessions::{session_target, Delivery, SessionRegistry};
use crate::store::AvatarStore;
use crate::subscriptions::{
    members, without_subscriber, Publication, SubscriptionHandle, SubscriptionRegistry,
};

verus! {

/// Failures reported to the caller of a request.
#[derive(Clone, Copy, Debug, PartialEq, Eq, Structural)]
pub enum ApiError {
    BadRequest,
    Unauthorized,
    NotFound,
    Internal,
}

/// A change event and where it is to be delivered: the subject's own
/// session, if any, and every subscriber of the subject.
pub struct Notification {
    pub event: ChangeEvent,
    pub session: Option<Delivery>,
    pub subscribers: Publication,
}

/// Whether `n` is the notification of a change to `subject`'s avatar, given
/// the sessions `s` and the subscriptions `g` at the time.
pub open spec fn notifies(
    n: Notification,
    subject: u128,
    s: Map<u128, u64>,
    g: Set<SubscriptionHandle>,
) -> bool {
    &&& n.event == (ChangeEvent::AvatarChanged { subject })
    &&& match n.session {
        Some(d) => session_target(s, subject) == Some(d.channel) && d.frame@ == frame_of(n.event),
        None => session_target(s, subject) is None,
    }
    &&& n.subscribers.targets@.to_set() == members(g, subject)
    &&& n.subscribers.targets@.no_duplicates()
    &&& n.subscribers.frame@ == frame_of(n.event)
}

/// Builds the notification that `subject`'s avatar changed.
pub fn send_event(sessions: &SessionRegistry, broadcasts: &SubscriptionRegistry, subject: u128) -> (r: Notification)
    requires
        broadcasts.wf(),
    ensures
        notifies(r, subject, sessions@, broadcasts@),
{
    let event = ChangeEvent::AvatarChanged { subject };
    let subscribers = broadcasts.publish(subject, &event);
    let session = match sessions.deliver(subject, &event) {
        Ok(d) => Some(d),
        Err(_) => None,
    };
    Notification { event, session, subscribers }
}

/// Everything the service shares between requests.
pub struct AppState {
    pub users: IdentityDirectory,
    pub avatars: AvatarStore,
    pub sessions: SessionRegistry,
    pub broadcasts: SubscriptionRegistry,
}

impl AppState {
    /// The invariants of the directory and of the subscription registry.
    pub open spec fn wf(&self) -> bool {
        self.users.wf() && self.broadcasts.wf()
    }

    /// A state with no user, blob, session or subscription.
    pub fn new() -> (r: AppState)
        ensures
            r.wf(),
            r.users@.len() == 0,
            r.avatars@ == Map::<u128, Seq<u8>>::empty(),
            r.sessions@ == Map::<u128, u64>::empty(),
            r.broadcasts@ == Set::<SubscriptionHandle>::empty(),
    {
        AppState {
            users: IdentityDirectory::new(),
            avatars: AvatarStore::new(),
            sessions: SessionRegistry::new(),
            broadcasts: SubscriptionRegistry::new(),
        }
    }

    /// Tears down connection `channel` of `user`: its session, while it is
    /// still the current one, and all its subscriptions.
    pub fn close_connection(&mut self, user: u128, channel: u64)
        requires
            old(self).wf(),
        ensures
            final(self).wf(),
            final(self).users@ == old(self).users@,
            final(self).avatars@ == old(self).avatars@,
            final(self).sessions@ == if session_target(old(self).sessions@, user) == Some(channel) {
                old(self).sessions@.remove(user)
            } else {
                old(self).sessions@
            },
            final(self).broadcasts@ == without_subscriber(old(self).broadcasts@, channel),
    {
        self.sessions.detach_channel(user, channel);
        self.broadcasts.disconnect(channel);
    }
}

} // verus!
