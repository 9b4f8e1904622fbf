//! The subscription registry: for each subject user, the set of subscriber
//! channels (other users' sessions) that want to hear of changes to the
//! subject's avatar. Fan-out is best effort; membership is a set.
use vstd::prelude::*;

use crate::codec::{frame_of, ChangeEvent};

verus! {

/// One subscriber channel's membership in one subject's group.
#[derive(Clone, Copy, Debug, PartialEq, Eq, Structural)]
pub struct SubscriptionHandle {
    pub subject: u128,
    pub subscriber: u64,
}

/// The channels that watch `subject`, given all memberships `s`.
pub open spec fn members(s: Set<SubscriptionHandle>, subject: u128) -> Set<u64> {
    Set::new(|c: u64| s.contains(SubscriptionHandle { subject, subscriber: c }))
}

/// All memberships of `s` but those of channel `subscriber`.
pub open spec fn without_subscriber(s: Set<SubscriptionHandle>, subscriber: u64) -> Set<
    SubscriptionHandle,
> {
    s.filter(|h: SubscriptionHandle| h.subscriber != subscriber)
}

/// What a publish hands to the transport: the frame and every channel that
/// is to get it, each once.
pub struct Publication {
    pub targets: Vec<u64>,
    pub frame: Vec<u8>,
}

impl Publication {
    /// How many subscribers the event was fanned out to.
    pub fn delivered_count(&self) -> (r: usize)
        ensures
            r == self.targets@.len(),
    {
        self.targets.len()
    }
}

/// Memberships of all subscription groups.
pub struct SubscriptionRegistry {
    entries: Vec<SubscriptionHandle>,
}

impl View for SubscriptionRegistry {
    type V = Set<SubscriptionHandle>;

    closed spec fn view(&self) -> Set<SubscriptionHandle> {
        self.entries@.to_set()
    }
}

pub proof fn lemma_members_finite(s: Set<SubscriptionHandle>, subject: u128)
    requires
        s.finite(),
    ensures
        members(s, subject).finite(),
{
    let f = |h: SubscriptionHandle| h.subscriber;
    s.lemma_map_finite(f);
    assert forall|c: u64| members(s, subject).contains(c) implies s.map(f).contains(c) by {
        assert(f(SubscriptionHandle { subject, subscriber: c }) == c);
    }
    vstd::set_lib::lemma_len_subset(members(s, subject), s.map(f));
}

/// After `subscribe(subject, c)`, a publish for `subject` reaches `c`, and
/// other subjects' groups are unchanged.
pub proof fn lemma_subscribe_reaches(s: Set<SubscriptionHandle>, subject: u128, c: u64, other: u128)
    requires
        other != subject,
    ensures
        members(s.insert(SubscriptionHandle { subject, subscriber: c }), subject).contains(c),
        members(s.insert(SubscriptionHandle { subject, subscriber: c }), other) == members(s, other),
{
    assert(members(s.insert(SubscriptionHandle { subject, subscriber: c }), other) =~= members(s, other));
}

/// Unsubscribing a current member `c` of `subject`'s group takes exactly `c`
/// out of it: a later publish no longer reaches `c`, and reaches one channel
/// fewer.
pub proof fn lemma_unsubscribe_drops_one(s: Set<SubscriptionHandle>, subject: u128, c: u64)
    requires
        s.finite(),
        s.contains(SubscriptionHandle { subject, subscriber: c }),
    ensures
        members(s.remove(SubscriptionHandle { subject, subscriber: c }), subject) == members(s, subject).remove(c),
        !members(s.remove(SubscriptionHandle { subject, subscriber: c }), subject).contains(c),
        members(s.remove(SubscriptionHandle { subject, subscriber: c }), subject).len() + 1 == members(s, subject).len(),
{
    let h = SubscriptionHandle { subject, subscriber: c };
    assert(members(s.remove(h), subject) =~= members(s, subject).remove(c));
    lemma_members_finite(s, subject);
}

/// Disconnecting channel `c`, a member of `subject`'s group, takes it out of
/// that group: a later publish for `subject` reaches one channel fewer.
pub proof fn lemma_disconnect_drops_one(s: Set<SubscriptionHandle>, subject: u128, c: u64)
    requires
        s.finite(),
        s.contains(SubscriptionHandle { subject, subscriber: c }),
    ensures
        members(without_subscriber(s, c), subject) == members(s, subject).remove(c),
        members(without_subscriber(s, c), subject).len() + 1 == members(s, subject).len(),
{
    assert(members(without_subscriber(s, c), subject) =~= members(s, subject).remove(c));
    lemma_members_finite(s, subject);
}

/// Growing a prefix of a sequence without repeats by one element adds that
/// element, which the shorter prefix does not hold.
proof fn lemma_prefix_step<A>(s: Seq<A>, i: int)
    requires
        0 <= i < s.len(),
        s.no_duplicates(),
    ensures
        !s.subrange(0, i).contains(s[i]),
        forall|x: A| #[trigger]
            s.subrange(0, i + 1).contains(x) <==> (s.subrange(0, i).contains(x) || x == s[i]),
{
    if s.subrange(0, i).contains(s[i]) {
        let k = s.subrange(0, i).index_of(s[i]);
        assert(s[k] == s[i]);
    }
    assert forall|x: A| #[trigger]
        s.subrange(0, i + 1).contains(x) <==> (s.subrange(0, i).contains(x) || x == s[i]) by {
        if s.subrange(0, i + 1).contains(x) {
            let k = s.subrange(0, i + 1).index_of(x);
            if k < i {
                assert(s.subrange(0, i)[k] == x);
            }
        }
        if s.subrange(0, i).contains(x) {
            let k = s.subrange(0, i).index_of(x);
            assert(s.subrange(0, i + 1)[k] == x);
        }
        if x == s[i] {
            assert(s.subrange(0, i + 1)[i] == x);
        }
    }
}

/// Pushing an element that is not there keeps a sequence free of repeats.
proof fn lemma_push_fresh<A>(s: Seq<A>, x: A)
    requires
        s.no_duplicates(),
        !s.contains(x),
    ensures
        s.push(x).no_duplicates(),
        forall|y: A| #[trigger] s.push(x).contains(y) <==> (s.contains(y) || y == x),
{
    let t = s.push(x);
    assert forall|a: int, b: int| 0 <= a < b < t.len() implies t[a] != t[b] by {
        if b == s.len() {
            assert(s.contains(t[a]));
        } else {
            assert(t[a] == s[a] && t[b] == s[b]);
        }
    }
    assert forall|y: A| #[trigger] t.contains(y) <==> (s.contains(y) || y == x) by {
        if t.contains(y) {
            let k = t.index_of(y);
            if k < s.len() {
                assert(s[k] == y);
            }
        }
        if s.contains(y) {
            let k = s.index_of(y);
            assert(t[k] == y);
        }
        if y == x {
            assert(t[s.len() as int] == y);
        }
    }
}

impl SubscriptionRegistry {
    /// The registry's own invariant: each membership is held once.
    pub closed spec fn wf(&self) -> bool {
        self.entries@.no_duplicates()
    }

    /// A registry with no subscription.
    pub fn new() -> (r: SubscriptionRegistry)
        ensures
            r.wf(),
            r@ == Set::<SubscriptionHandle>::empty(),
    {
        let r = SubscriptionRegistry { entries: Vec::new() };
        assert(r@ =~= Set::<SubscriptionHandle>::empty());
        r
    }

    fn position(&self, h: SubscriptionHandle) -> (r: Option<usize>)
        ensures
            match r {
                Some(i) => i < self.entries@.len() && self.entries@[i as int] == h,
                None => !self.entries@.contains(h),
            },
    {
        let mut i: usize = 0;
        while i < self.entries.len()
            invariant
                i <= self.entries@.len(),
                forall|j: int| 0 <= j < i ==> self.entries@[j] != h,
            decreases self.entries@.len() - i,
        {
            if self.entries[i] == h {
                return Some(i);
            }
            i = i + 1;
        }
        None
    }

    /// Whether channel `subscriber` is in `subject`'s group.
    pub fn is_member(&self, subject: u128, subscriber: u64) -> (r: bool)
        ensures
            r == members(self@, subject).contains(subscriber),
    {
        self.position(SubscriptionHandle { subject, subscriber }).is_some()
    }

    /// Adds channel `subscriber` to `subject`'s group; a second subscription
    /// of the same pair changes nothing.
    pub fn subscribe(&mut self, subject: u128, subscriber: u64) -> (h: SubscriptionHandle)
        requires
            old(self).wf(),
        ensures
            final(self).wf(),
            h == (SubscriptionHandle { subject, subscriber }),
            final(self)@ == old(self)@.insert(h),
    {
        let h = SubscriptionHandle { subject, subscriber };
        if self.position(h).is_none() {
            proof {
                lemma_push_fresh(self.entries@, h);
            }
            self.entries.push(h);
        }
        assert(self@ =~= old(self)@.insert(h));
        h
    }

    /// Ends the membership `h`. Returns whether it was there.
    pub fn unsubscribe(&mut self, h: SubscriptionHandle) -> (removed: bool)
        requires
            old(self).wf(),
        ensures
            final(self).wf(),
            removed == old(self)@.contains(h),
            final(self)@ == old(self)@.remove(h),
    {
        match self.position(h) {
            Some(i) => {
                let ghost pre = self.entries@;
                self.entries.remove(i);
                proof {
                    assert forall|x: SubscriptionHandle| #[trigger] self.entries@.contains(x) <==> (
                    pre.contains(x) && x != h) by {
                        if self.entries@.contains(x) {
                            let k = self.entries@.index_of(x);
                            if k < i {
                                assert(pre[k] == x);
                            } else {
                                assert(pre[k + 1] == x);
                            }
                        }
                        if pre.contains(x) && x != h {
                            let k = pre.index_of(x);
                            if k < i {
                                assert(self.entries@[k] == x);
                            } else {
                                assert(self.entries@[k - 1] == x);
                            }
                        }
                    }
                    assert(self.entries@.no_duplicates()) by {
                        assert forall|a: int, b: int|
                            0 <= a < b < self.entries@.len() implies self.entries@[a]
                            != self.entries@[b] by {
                            let a2 = if a < i { a } else { a + 1 };
                            let b2 = if b < i { b } else { b + 1 };
                            assert(pre[a2] == self.entries@[a]);
                            assert(pre[b2] == self.entries@[b]);
                        }
                    }
                }
                assert(self@ =~= old(self)@.remove(h));
                true
            },
            None => {
                assert(self@ =~= old(self)@.remove(h));
                false
            },
        }
    }

    /// Removes every membership of channel `subscriber`, as when its
    /// connection closes. Returns how many groups it left.
    pub fn disconnect(&mut self, subscriber: u64) -> (n: usize)
        requires
            old(self).wf(),
        ensures
            final(self).wf(),
            final(self)@ == without_subscriber(old(self)@, subscriber),
            n == old(self)@.len() - final(self)@.len(),
    {
        let ghost pre = self.entries@;
        let mut kept: Vec<SubscriptionHandle> = Vec::new();
        let mut i: usize = 0;
        while i < self.entries.len()
            invariant
                pre == self.entries@,
                pre.no_duplicates(),
                i <= pre.len(),
                kept@.no_duplicates(),
                kept@.len() <= i,
                forall|x: SubscriptionHandle| #[trigger]
                    kept@.contains(x) <==> (pre.subrange(0, i as int).contains(x) && x.subscriber
                        != subscriber),
            decreases pre.len() - i,
        {
            let h = self.entries[i];
            proof {
                lemma_prefix_step(pre, i as int);
            }
            if h.subscriber != subscriber {
                proof {
                    lemma_push_fresh(kept@, h);
                }
                kept.push(h);
            }
            i = i + 1;
        }
        let removed = self.entries.len() - kept.len();
        self.entries = kept;
        proof {
            assert(pre.subrange(0, pre.len() as int) =~= pre);
            assert(self@ =~= without_subscriber(old(self)@, subscriber));
            pre.unique_seq_to_set();
            self.entries@.unique_seq_to_set();
        }
        removed
    }

    /// Fans `event` out to `subject`'s group: every member channel, each
    /// once, with the event's frame.
    pub fn publish(&self, subject: u128, event: &ChangeEvent) -> (r: Publication)
        requires
            self.wf(),
        ensures
            r.targets@.to_set() == members(self@, subject),
            r.targets@.no_duplicates(),
            r.targets@.len() == members(self@, subject).len(),
            r.frame@ == frame_of(*event),
    {
        let ghost es = self.entries@;
        let mut targets: Vec<u64> = Vec::new();
        let mut i: usize = 0;
        while i < self.entries.len()
            invariant
                es == self.entries@,
                es.no_duplicates(),
                i <= es.len(),
                targets@.no_duplicates(),
                forall|c: u64| #[trigger]
                    targets@.contains(c) <==> es.subrange(0, i as int).contains(
                        SubscriptionHandle { subject, subscriber: c },
                    ),
            decreases es.len() - i,
        {
            let h = self.entries[i];
            proof {
                lemma_prefix_step(es, i as int);
            }
            if h.subject == subject {
                proof {
                    assert(h == SubscriptionHandle { subject, subscriber: h.subscriber });
                    lemma_push_fresh(targets@, h.subscriber);
                }
                targets.push(h.subscriber);
            }
            i = i + 1;
        }
        proof {
            assert(es.subrange(0, es.len() as int) =~= es);
            assert(targets@.to_set() =~= members(self@, subject));
            targets@.unique_seq_to_set();
        }
        Publication { targets, frame: event.encode() }
    }
}

} // verus!
