//! The broadcaster: one producer, any number of subscribers, and a bounded
//! inbox for each of them.
//!
//! Every published event is copied into the inbox of every subscriber that is
//! registered at that moment. A subscriber that does not keep up loses its
//! oldest events and is told how many it lost; the producer never waits.

use crate::events::{Change, ChangeEvent};
use vstd::prelude::*;

verus! {

/// The inbox of one subscriber, as a mathematical value.
pub struct Inbox {
    /// The events not yet taken, oldest first.
    pub pending: Seq<Change>,
    /// How many events were lost since the subscriber was last told; it
    /// stops counting at `u64::MAX`.
    pub missed: u64,
}

/// What a subscriber gets when it asks for its next event, as a
/// mathematical value.
pub enum Received {
    /// The asker is not subscribed.
    Unsubscribed,
    /// Nothing is pending.
    Nothing,
    /// So many events were lost; the events that are left come next.
    Missed(u64),
    /// The oldest pending event.
    Event(Change),
}

/// The broadcaster as a mathematical value: its capacity and one inbox per
/// subscriber.
pub struct Channel {
    pub capacity: nat,
    pub inboxes: Map<usize, Inbox>,
}

impl Inbox {
    /// The inbox of a new subscriber.
    pub open spec fn empty() -> Inbox {
        Inbox { pending: Seq::empty(), missed: 0 }
    }

    /// One more lost event, counted up to `u64::MAX`.
    pub open spec fn one_more(missed: u64) -> u64 {
        if missed < u64::MAX {
            (missed + 1) as u64
        } else {
            missed
        }
    }

    /// The inbox after `event` came in: it is appended, and where that
    /// exceeds the capacity the oldest event is dropped and counted as lost.
    pub open spec fn accept(self, event: Change, capacity: nat) -> Inbox {
        let longer = self.pending.push(event);
        if longer.len() > capacity {
            Inbox { pending: longer.drop_first(), missed: Self::one_more(self.missed) }
        } else {
            Inbox { pending: longer, missed: self.missed }
        }
    }

    /// What the subscriber gets next: first the count of lost events, if
    /// there are any, then the pending events, oldest first.
    pub open spec fn next(self) -> Received {
        if self.missed > 0 {
            Received::Missed(self.missed)
        } else if self.pending.len() > 0 {
            Received::Event(self.pending[0])
        } else {
            Received::Nothing
        }
    }

    /// The inbox after the subscriber took what `next` gives.
    pub open spec fn after_next(self) -> Inbox {
        if self.missed > 0 {
            Inbox { pending: self.pending, missed: 0 }
        } else if self.pending.len() > 0 {
            Inbox { pending: self.pending.drop_first(), missed: 0 }
        } else {
            self
        }
    }
}

impl Channel {
    /// Whether anyone is subscribed.
    pub open spec fn has_subscribers(self) -> bool {
        exists|id: usize| self.inboxes.contains_key(id)
    }

    /// No inbox holds more than the capacity. A new broadcaster is bounded,
    /// and every operation on a bounded one leaves it bounded.
    pub open spec fn is_bounded(self) -> bool {
        forall|id: usize| #[trigger]
            self.inboxes.contains_key(id) ==> self.inboxes[id].pending.len() <= self.capacity
    }

    /// The channel after `event` was published: every inbox accepted it.
    pub open spec fn publish(self, event: Change) -> Channel {
        Channel {
            capacity: self.capacity,
            inboxes: self.inboxes.map_values(|inbox: Inbox| inbox.accept(event, self.capacity)),
        }
    }

    /// The channel after a subscriber registered under `id`, with an empty
    /// inbox.
    pub open spec fn subscribe(self, id: usize) -> Channel {
        Channel { capacity: self.capacity, inboxes: self.inboxes.insert(id, Inbox::empty()) }
    }

    /// The channel after the subscriber `id` left.
    pub open spec fn unsubscribe(self, id: usize) -> Channel {
        Channel { capacity: self.capacity, inboxes: self.inboxes.remove(id) }
    }

    /// What the subscriber `id` gets next.
    pub open spec fn next(self, id: usize) -> Received {
        if self.inboxes.contains_key(id) {
            self.inboxes[id].next()
        } else {
            Received::Unsubscribed
        }
    }

    /// The channel after the subscriber `id` took what `next` gives.
    pub open spec fn after_next(self, id: usize) -> Channel {
        if self.inboxes.contains_key(id) {
            Channel {
                capacity: self.capacity,
                inboxes: self.inboxes.insert(id, self.inboxes[id].after_next()),
            }
        } else {
            self
        }
    }
}

/// What a subscriber gets when it asks for its next event.
#[derive(Debug, Clone, PartialEq, Eq)]
pub enum Delivery {
    /// The asker is not subscribed.
    Unsubscribed,
    /// Nothing is pending.
    Nothing,
    /// So many events were lost; the events that are left come next.
    Missed(u64),
    /// The oldest pending event.
    Event(ChangeEvent),
}

impl View for Delivery {
    type V = Received;

    open spec fn view(&self) -> Received {
        match *self {
            Delivery::Unsubscribed => Received::Unsubscribed,
            Delivery::Nothing => Received::Nothing,
            Delivery::Missed(n) => Received::Missed(n),
            Delivery::Event(event) => Received::Event(event@),
        }
    }
}

/// Why publishing reached nobody.
#[derive(Debug, Clone, Copy, PartialEq, Eq, Structural)]
pub enum WatcherChannelError {
    /// Nobody is subscribed.
    NoSubscribers,
}

impl WatcherChannelError {
    /// The text for the log.
    pub fn message(&self) -> (text: String)
        ensures
            text@ == "Failed to notify watcher: no subscribers"@,
    {
        String::from_str("Failed to notify watcher: no subscribers")
    }
}

struct Mailbox {
    pending: Vec<ChangeEvent>,
    missed: u64,
}

impl View for Mailbox {
    type V = Inbox;

    closed spec fn view(&self) -> Inbox {
        Inbox { pending: self.pending@.map_values(|e: ChangeEvent| e@), missed: self.missed }
    }
}

impl Mailbox {
    fn accept(&mut self, event: ChangeEvent, capacity: usize)
        ensures
            final(self)@ == old(self)@.accept(event@, capacity as nat),
    {
        let ghost before = self@.pending;
        self.pending.push(event);
        assert(self@.pending =~= before.push(event@));
        if self.pending.len() > capacity {
            let _ = self.pending.remove(0);
            assert(self@.pending =~= before.push(event@).drop_first());
            if self.missed < u64::MAX {
                self.missed = self.missed + 1;
            }
        }
    }

    fn take_next(&mut self) -> (delivery: Delivery)
        ensures
            delivery@ == old(self)@.next(),
            final(self)@ == old(self)@.after_next(),
    {
        let ghost before = self@.pending;
        if self.missed > 0 {
            let missed = self.missed;
            self.missed = 0;
            Delivery::Missed(missed)
        } else if self.pending.len() > 0 {
            let event = self.pending.remove(0);
            assert(self@.pending =~= before.drop_first());
            Delivery::Event(event)
        } else {
            Delivery::Nothing
        }
    }
}

/// The event broadcaster. Subscribers are known by the number that `subscribe`
/// gave them.
pub struct Hub {
    capacity: usize,
    slots: Vec<Option<Mailbox>>,
}

impl View for Hub {
    type V = Channel;

    closed spec fn view(&self) -> Channel {
        Channel {
            capacity: self.capacity as nat,
            inboxes: Map::new(
                |id: usize| id < self.slots@.len() && self.slots@[id as int] is Some,
                |id: usize| self.slots@[id as int]->0@,
            ),
        }
    }
}

impl Hub {
    /// A broadcaster without subscribers whose inboxes will hold at most
    /// `capacity` events each.
    pub fn new(capacity: usize) -> (hub: Hub)
        ensures
            hub@.capacity == capacity,
            hub@.inboxes == Map::<usize, Inbox>::empty(),
            hub@.is_bounded(),
    {
        let hub = Hub { capacity, slots: Vec::new() };
        assert(hub@.inboxes =~= Map::<usize, Inbox>::empty());
        hub
    }

    /// The most events that an inbox holds.
    pub fn capacity(&self) -> (capacity: usize)
        ensures
            capacity == self@.capacity,
    {
        self.capacity
    }

    /// Whether `id` is subscribed.
    pub fn is_subscribed(&self, id: usize) -> (yes: bool)
        ensures
            yes == self@.inboxes.contains_key(id),
    {
        id < self.slots.len() && self.slots[id].is_some()
    }

    /// Registers a subscriber and returns its number: the smallest one that
    /// is not in use. Its inbox starts empty, so it gets nothing that was
    /// published before.
    pub fn subscribe(&mut self) -> (id: usize)
        ensures
            !old(self)@.inboxes.contains_key(id),
            forall|lower: usize| lower < id ==> old(self)@.inboxes.contains_key(lower),
            final(self)@ == old(self)@.subscribe(id),
            final(self)@.next(id) == Received::Nothing,
            old(self)@.is_bounded() ==> final(self)@.is_bounded(),
    {
        let fresh = Mailbox { pending: Vec::new(), missed: 0 };
        assert(fresh@ == Inbox::empty()) by {
            assert(fresh@.pending =~= Seq::<Change>::empty());
        }
        let mut i: usize = 0;
        while i < self.slots.len()
            invariant
                i <= self.slots.len(),
                *self == *old(self),
                fresh@ == Inbox::empty(),
                forall|j: int| 0 <= j < i ==> self.slots@[j] is Some,
            decreases self.slots.len() - i,
        {
            if self.slots[i].is_none() {
                self.slots.set(i, Some(fresh));
                assert(self@.inboxes =~= old(self)@.inboxes.insert(i, Inbox::empty()));
                return i;
            }
            i += 1;
        }
        self.slots.push(Some(fresh));
        assert(self@.inboxes =~= old(self)@.inboxes.insert(i, Inbox::empty()));
        i
    }

    /// Removes the subscriber `id` and what is left in its inbox. Says
    /// whether it was subscribed.
    pub fn unsubscribe(&mut self, id: usize) -> (was_subscribed: bool)
        ensures
            was_subscribed == old(self)@.inboxes.contains_key(id),
            final(self)@ == old(self)@.unsubscribe(id),
            old(self)@.is_bounded() ==> final(self)@.is_bounded(),
    {
        if id < self.slots.len() && self.slots[id].is_some() {
            self.slots.set(id, None);
            assert(self@.inboxes =~= old(self)@.inboxes.remove(id));
            true
        } else {
            assert(self@.inboxes =~= old(self)@.inboxes.remove(id));
            false
        }
    }

    /// Publishes `event` to every subscriber. It never waits: an inbox that
    /// is full drops its oldest event. With no subscriber the event goes to
    /// nobody, which is reported and changes nothing.
    pub fn publish(&mut self, event: &ChangeEvent) -> (sent: Result<(), WatcherChannelError>)
        ensures
            final(self)@ == old(self)@.publish(event@),
            sent is Ok <==> old(self)@.has_subscribers(),
            sent is Err ==> final(self)@ == old(self)@,
            old(self)@.is_bounded() ==> final(self)@.is_bounded(),
    {
        let capacity = self.capacity;
        let mut any = false;
        let mut i: usize = 0;
        while i < self.slots.len()
            invariant
                i <= self.slots.len(),
                self.capacity == capacity,
                capacity == old(self).capacity,
                self.slots.len() == old(self).slots.len(),
                any <==> exists|j: int| 0 <= j < i && old(self).slots@[j] is Some,
                forall|j: int|
                    0 <= j < i ==> match old(self).slots@[j] {
                        Some(mailbox) => (#[trigger] self.slots@[j]) matches Some(now) && now@
                            == mailbox@.accept(event@, capacity as nat),
                        None => self.slots@[j] is None,
                    },
                forall|j: int|
                    i <= j < self.slots.len() ==> #[trigger] self.slots@[j] == old(self).slots@[j],
            decreases self.slots.len() - i,
        {
            match &mut self.slots[i] {
                Some(mailbox) => {
                    mailbox.accept(event.duplicate(), capacity);
                    any = true;
                },
                None => {},
            }
            i += 1;
        }
        proof {
            let before = old(self)@;
            let after = self@;
            assert(after.inboxes =~= before.publish(event@).inboxes);
            if any {
                let j = choose|j: int| 0 <= j < i && old(self).slots@[j] is Some;
                assert(before.inboxes.contains_key(j as usize));
            } else {
                assert(after.inboxes =~= before.inboxes);
            }
            if before.is_bounded() {
                lemma_publish_keeps_bound(before, event@);
            }
        }
        if any {
            Ok(())
        } else {
            Err(WatcherChannelError::NoSubscribers)
        }
    }

    /// Hands the subscriber `id` what comes next for it: the count of events
    /// it lost, if any, else its oldest pending event, else nothing. No other
    /// subscriber's inbox changes.
    pub fn poll(&mut self, id: usize) -> (delivery: Delivery)
        ensures
            delivery@ == old(self)@.next(id),
            final(self)@ == old(self)@.after_next(id),
            old(self)@.is_bounded() ==> final(self)@.is_bounded(),
    {
        if id >= self.slots.len() {
            return Delivery::Unsubscribed;
        }
        let delivery = match &mut self.slots[id] {
            Some(mailbox) => mailbox.take_next(),
            None => Delivery::Unsubscribed,
        };
        assert(self@.inboxes =~= old(self)@.after_next(id).inboxes);
        delivery
    }
}

/// Publishing keeps every inbox within the capacity.
pub proof fn lemma_publish_keeps_bound(channel: Channel, event: Change)
    requires
        channel.is_bounded(),
    ensures
        channel.publish(event).is_bounded(),
{
    let after = channel.publish(event);
    assert forall|id: usize| #[trigger] after.inboxes.contains_key(id) implies after.inboxes[id]
        .pending.len() <= after.capacity by {
        assert(channel.inboxes.contains_key(id));
    }
}

} // verus!
