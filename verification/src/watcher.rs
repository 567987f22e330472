//! The watcher's side of the pipeline: every raw event of the file-system
//! watch passes the change filter before it reaches the broadcaster.

use crate::hub::{Hub, Channel};
use crate::events::{is_noteworthy, is_temp_path, Change, ChangeEvent};
use vstd::prelude::*;

verus! {

/// The interval, in seconds, at which a polling watch looks again.
pub const POLL_INTERVAL_SECS: u64 = 2;

/// The number of events that the inbox of a subscriber holds.
pub const CHANNEL_CAPACITY: usize = 5;

/// What became of a raw event.
#[derive(Debug, Clone, Copy, PartialEq, Eq, Structural)]
pub enum WatchOutcome {
    /// The filter dropped it.
    Dropped,
    /// It went to every subscriber.
    Published,
    /// It passed the filter, and nobody is subscribed.
    NoSubscribers,
}

/// The channel after the watch reported `change`: a noteworthy change is
/// published, any other leaves the channel as it was.
pub open spec fn after_change(channel: Channel, change: Change) -> Channel {
    if is_noteworthy(change) {
        channel.publish(change)
    } else {
        channel
    }
}

/// Handles one raw event of the watch: drops it silently where the filter
/// does not admit it, and publishes it otherwise. It never waits for a
/// subscriber.
pub fn on_change(hub: &mut Hub, event: &ChangeEvent) -> (outcome: WatchOutcome)
    ensures
        final(hub)@ == after_change(old(hub)@, event@),
        outcome == (if !is_noteworthy(event@) {
            WatchOutcome::Dropped
        } else if old(hub)@.has_subscribers() {
            WatchOutcome::Published
        } else {
            WatchOutcome::NoSubscribers
        }),
        outcome != WatchOutcome::Published ==> final(hub)@ == old(hub)@,
        old(hub)@.is_bounded() ==> final(hub)@.is_bounded(),
{
    if !event.admits() {
        return WatchOutcome::Dropped;
    }
    match hub.publish(event) {
        Ok(()) => WatchOutcome::Published,
        Err(_) => WatchOutcome::NoSubscribers,
    }
}

/// A change all of whose paths are those of temporary files reaches nobody:
/// the channel stays as it was, so no subscriber gets anything it would not
/// have got without the change.
pub proof fn lemma_temp_change_reaches_nobody(channel: Channel, change: Change)
    requires
        forall|i: int| 0 <= i < change.paths.len() ==> is_temp_path(#[trigger] change.paths[i]),
    ensures
        after_change(channel, change) == channel,
        forall|id: usize| after_change(channel, change).next(id) == channel.next(id),
{
}

/// Neither does a change that only reports an access.
pub proof fn lemma_access_reaches_nobody(channel: Channel, change: Change)
    requires
        change.is_access_only,
    ensures
        after_change(channel, change) == channel,
{
}

} // verus!
