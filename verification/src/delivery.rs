//! What the broadcaster guarantees over whole runs: who gets which events,
//! and in what order.

use crate::hub::{Channel, Inbox, Received};
use crate::events::Change;
use vstd::prelude::*;

verus! {

/// One thing that happens to the channel.
pub enum Action {
    /// An event is published.
    Publish(Change),
    /// A subscriber registers under this number.
    Subscribe(usize),
    /// The subscriber of this number leaves.
    Unsubscribe(usize),
    /// The subscriber of this number takes what comes next for it.
    Poll(usize),
}

/// The channel after one action. Registering under a number that is in use
/// changes nothing.
pub open spec fn apply(channel: Channel, action: Action) -> Channel {
    match action {
        Action::Publish(event) => channel.publish(event),
        Action::Subscribe(id) => if channel.inboxes.contains_key(id) {
            channel
        } else {
            channel.subscribe(id)
        },
        Action::Unsubscribe(id) => channel.unsubscribe(id),
        Action::Poll(id) => channel.after_next(id),
    }
}

/// The channel after a run of actions.
pub open spec fn run(channel: Channel, actions: Seq<Action>) -> Channel
    decreases actions.len(),
{
    if actions.len() == 0 {
        channel
    } else {
        apply(run(channel, actions.drop_last()), actions.last())
    }
}

/// The events published in a run, in order.
pub open spec fn published(actions: Seq<Action>) -> Seq<Change>
    decreases actions.len(),
{
    if actions.len() == 0 {
        Seq::empty()
    } else {
        match actions.last() {
            Action::Publish(event) => published(actions.drop_last()).push(event),
            _ => published(actions.drop_last()),
        }
    }
}

/// The events that the subscriber `id` was handed in a run, in order.
pub open spec fn delivered(channel: Channel, actions: Seq<Action>, id: usize) -> Seq<Change>
    decreases actions.len(),
{
    if actions.len() == 0 {
        Seq::empty()
    } else {
        let earlier = delivered(channel, actions.drop_last(), id);
        match actions.last() {
            Action::Poll(who) => if who == id {
                match run(channel, actions.drop_last()).next(id) {
                    Received::Event(event) => earlier.push(event),
                    _ => earlier,
                }
            } else {
                earlier
            },
            _ => earlier,
        }
    }
}

/// The channel after all of `events` were published, in order.
pub open spec fn publish_all(channel: Channel, events: Seq<Change>) -> Channel
    decreases events.len(),
{
    if events.len() == 0 {
        channel
    } else {
        publish_all(channel, events.drop_last()).publish(events.last())
    }
}

/// Every event of `part` occurs in `whole`.
pub open spec fn all_from(part: Seq<Change>, whole: Seq<Change>) -> bool {
    forall|i: int| 0 <= i < part.len() ==> whole.contains(#[trigger] part[i])
}

/// Nothing is pending for `id`: it is not subscribed, or its inbox holds no
/// event. This is so right after it subscribed.
pub open spec fn nothing_pending(channel: Channel, id: usize) -> bool {
    channel.inboxes.contains_key(id) ==> channel.inboxes[id].pending.len() == 0
}

/// How many events an inbox has lost after `count` events came in without
/// any being taken.
pub open spec fn lost(count: nat, capacity: nat) -> u64 {
    if count <= capacity {
        0
    } else if count - capacity >= u64::MAX {
        u64::MAX
    } else {
        (count - capacity) as u64
    }
}

/// The events that are left of `events` in an inbox of the given capacity:
/// the newest ones.
pub open spec fn kept(events: Seq<Change>, capacity: nat) -> Seq<Change> {
    if events.len() <= capacity {
        events
    } else {
        events.skip(events.len() - capacity)
    }
}

/// A new subscriber starts with an empty inbox, whatever was published
/// before it registered: its first poll yields nothing.
pub proof fn lemma_subscriber_starts_empty(channel: Channel, earlier: Seq<Change>, id: usize)
    requires
        !publish_all(channel, earlier).inboxes.contains_key(id),
    ensures
        publish_all(channel, earlier).subscribe(id).next(id) == Received::Nothing,
        nothing_pending(publish_all(channel, earlier).subscribe(id), id),
{
}

/// No replay: from a moment at which nothing is pending for a subscriber, as
/// right after it registered, every event it is ever handed was published
/// after that moment, and so was every event that waits in its inbox.
pub proof fn lemma_only_later_events_arrive(channel: Channel, id: usize, actions: Seq<Action>)
    requires
        nothing_pending(channel, id),
    ensures
        all_from(delivered(channel, actions, id), published(actions)),
        run(channel, actions).inboxes.contains_key(id) ==> all_from(
            run(channel, actions).inboxes[id].pending,
            published(actions),
        ),
    decreases actions.len(),
{
    if actions.len() > 0 {
        let earlier = actions.drop_last();
        let before = run(channel, earlier);
        let after = run(channel, actions);
        let got = delivered(channel, earlier, id);
        let out = published(earlier);
        let now = published(actions);
        lemma_only_later_events_arrive(channel, id, earlier);
        assert forall|e: Change| out.contains(e) implies now.contains(e) by {
            let i = choose|i: int| 0 <= i < out.len() && out[i] == e;
            assert(now[i] == e);
        }
        match actions.last() {
            Action::Publish(event) => {
                assert(now[now.len() - 1] == event);
                if after.inboxes.contains_key(id) {
                    assert(before.inboxes.contains_key(id));
                    let old_pending = before.inboxes[id].pending;
                    let new_pending = after.inboxes[id].pending;
                    assert forall|i: int| 0 <= i < new_pending.len() implies now.contains(
                        #[trigger] new_pending[i],
                    ) by {
                        let longer = old_pending.push(event);
                        let k = if longer.len() > before.capacity {
                            i + 1
                        } else {
                            i
                        };
                        assert(new_pending[i] == longer[k]);
                        if k < old_pending.len() {
                            assert(out.contains(old_pending[k]));
                        }
                    }
                }
            },
            Action::Subscribe(who) => {},
            Action::Unsubscribe(who) => {},
            Action::Poll(who) => {
                if who == id && before.inboxes.contains_key(id) {
                    let old_pending = before.inboxes[id].pending;
                    let new_pending = after.inboxes[id].pending;
                    assert forall|i: int| 0 <= i < new_pending.len() implies now.contains(
                        #[trigger] new_pending[i],
                    ) by {
                        if new_pending.len() == old_pending.len() {
                            assert(new_pending[i] == old_pending[i]);
                        } else {
                            assert(new_pending[i] == old_pending[i + 1]);
                        }
                        assert(out.contains(new_pending[i]));
                    }
                    if old_pending.len() > 0 {
                        assert(out.contains(old_pending[0]));
                    }
                }
            },
        }
        let received = delivered(channel, actions, id);
        assert forall|i: int| 0 <= i < received.len() implies now.contains(
            #[trigger] received[i],
        ) by {
            if i < got.len() {
                assert(received[i] == got[i]);
                assert(out.contains(got[i]));
            }
        }
    }
}

/// A subscriber that registers after an event was published is never handed
/// that event, whatever happens afterwards, unless it is published again.
pub proof fn lemma_no_replay(channel: Channel, early: Change, id: usize, actions: Seq<Action>)
    requires
        !channel.inboxes.contains_key(id),
        !published(actions).contains(early),
    ensures
        !delivered(channel.publish(early).subscribe(id), actions, id).contains(early),
{
    let start = channel.publish(early).subscribe(id);
    lemma_only_later_events_arrive(start, id, actions);
    let got = delivered(start, actions, id);
    if got.contains(early) {
        let i = choose|i: int| 0 <= i < got.len() && got[i] == early;
        assert(published(actions).contains(got[i]));
    }
}

/// Every subscriber gets every event, in the order of publication, as long
/// as it keeps up; one that does not keeps the newest events and is told how
/// many it lost. Here the inbox of `id` is empty to begin with and `events`
/// are published without `id` taking any.
pub proof fn lemma_inbox_after_publications(channel: Channel, id: usize, events: Seq<Change>)
    requires
        channel.inboxes.contains_key(id),
        channel.inboxes[id] == Inbox::empty(),
    ensures
        publish_all(channel, events).capacity == channel.capacity,
        publish_all(channel, events).inboxes.contains_key(id),
        publish_all(channel, events).inboxes[id].pending == kept(events, channel.capacity),
        publish_all(channel, events).inboxes[id].missed == lost(events.len(), channel.capacity),
    decreases events.len(),
{
    let after = publish_all(channel, events);
    if events.len() == 0 {
        assert(after.inboxes[id].pending =~= kept(events, channel.capacity));
    } else {
        let earlier = events.drop_last();
        let before = publish_all(channel, earlier);
        lemma_inbox_after_publications(channel, id, earlier);
        let longer = before.inboxes[id].pending.push(events.last());
        if earlier.len() < channel.capacity {
            assert(longer =~= events);
        } else {
            assert(longer.drop_first() =~= kept(events, channel.capacity));
        }
    }
}

/// Subscribers are independent: what one of them takes, no other one loses.
pub proof fn lemma_poll_leaves_others(channel: Channel, id: usize, other: usize)
    requires
        id != other,
    ensures
        channel.after_next(id).inboxes.contains_key(other) == channel.inboxes.contains_key(other),
        channel.inboxes.contains_key(other) ==> channel.after_next(id).inboxes[other]
            == channel.inboxes[other],
        channel.after_next(id).next(other) == channel.next(other),
{
}

/// Events are taken in the order in which they came in: after one is taken,
/// the one behind it is next.
pub proof fn lemma_events_are_taken_in_order(channel: Channel, id: usize)
    requires
        channel.inboxes.contains_key(id),
        channel.inboxes[id].missed == 0,
        channel.inboxes[id].pending.len() >= 2,
    ensures
        channel.next(id) == Received::Event(channel.inboxes[id].pending[0]),
        channel.after_next(id).next(id) == Received::Event(channel.inboxes[id].pending[1]),
{
}

/// No run of actions makes an inbox hold more than the capacity.
pub proof fn lemma_run_keeps_bound(channel: Channel, actions: Seq<Action>)
    requires
        channel.is_bounded(),
    ensures
        run(channel, actions).is_bounded(),
        run(channel, actions).capacity == channel.capacity,
    decreases actions.len(),
{
    if actions.len() > 0 {
        let before = run(channel, actions.drop_last());
        let after = run(channel, actions);
        lemma_run_keeps_bound(channel, actions.drop_last());
        match actions.last() {
            Action::Publish(event) => {
                crate::hub::lemma_publish_keeps_bound(before, event);
            },
            Action::Subscribe(who) => {
                assert forall|id: usize| #[trigger]
                    after.inboxes.contains_key(id) implies after.inboxes[id].pending.len()
                    <= after.capacity by {
                    if id != who {
                        assert(before.inboxes.contains_key(id));
                    }
                }
            },
            Action::Unsubscribe(who) => {
                assert forall|id: usize| #[trigger]
                    after.inboxes.contains_key(id) implies after.inboxes[id].pending.len()
                    <= after.capacity by {
                    assert(before.inboxes.contains_key(id));
                }
            },
            Action::Poll(who) => {
                assert forall|id: usize| #[trigger]
                    after.inboxes.contains_key(id) implies after.inboxes[id].pending.len()
                    <= after.capacity by {
                    assert(before.inboxes.contains_key(id));
                }
            },
        }
    }
}

} // verus!
