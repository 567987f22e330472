//! The per-client live update stream: what a subscriber's deliveries become
//! on the wire.

use crate::delivery::{lemma_only_later_events_arrive, nothing_pending, published, run, Action};
use crate::events::Change;
use crate::hub::{Channel, Delivery, Hub, Received};
use crate::paths::{opt_text, strip_prefix, stripped};
use crate::text::{decimal, decimal_text};
use vstd::prelude::*;

verus! {

/// One message of the stream.
#[derive(Debug, Clone, PartialEq, Eq)]
pub enum Notification {
    /// A file changed; the payload is its path relative to the base
    /// directory.
    FileUpdated(String),
    /// The subscriber fell behind; the payload says by how much.
    WatcherError(String),
}

/// One message of the stream, as a mathematical value.
pub enum Message {
    FileUpdated(Seq<char>),
    WatcherError(Seq<char>),
}

impl View for Notification {
    type V = Message;

    open spec fn view(&self) -> Message {
        match *self {
            Notification::FileUpdated(path) => Message::FileUpdated(path@),
            Notification::WatcherError(text) => Message::WatcherError(text@),
        }
    }
}

impl Notification {
    /// The name under which the message is sent.
    pub fn event_name(&self) -> (name: &'static str)
        ensures
            name@ == match *self {
                Notification::FileUpdated(_) => "fileUpdated"@,
                Notification::WatcherError(_) => "watcher_error"@,
            },
    {
        match self {
            Notification::FileUpdated(_) => "fileUpdated",
            Notification::WatcherError(_) => "watcher_error",
        }
    }

    /// The payload of the message.
    pub fn data(&self) -> (payload: &str)
        ensures
            payload@ == match *self {
                Notification::FileUpdated(path) => path@,
                Notification::WatcherError(text) => text@,
            },
    {
        match self {
            Notification::FileUpdated(path) => path.as_str(),
            Notification::WatcherError(text) => text.as_str(),
        }
    }
}

/// What the stream does next.
#[derive(Debug, Clone, PartialEq, Eq)]
pub enum StreamStep {
    /// Send this message, then ask again.
    Send(Notification),
    /// An event was taken that names no path within the base directory:
    /// send nothing, and ask again.
    Skipped,
    /// Nothing is pending: wait for the next publication, or send a
    /// keep-alive when the timer runs out first.
    Idle,
    /// The subscriber is not registered: end the stream.
    Closed,
}

/// What the stream does next, as a mathematical value.
pub enum Step {
    Send(Message),
    Skipped,
    Idle,
    Closed,
}

impl View for StreamStep {
    type V = Step;

    open spec fn view(&self) -> Step {
        match *self {
            StreamStep::Send(notification) => Step::Send(notification@),
            StreamStep::Skipped => Step::Skipped,
            StreamStep::Idle => Step::Idle,
            StreamStep::Closed => Step::Closed,
        }
    }
}

/// The text that tells a subscriber how many events it lost.
pub open spec fn lag_text(missed: u64) -> Seq<char> {
    seq!['L', 'a', 'g', 'g', 'e', 'd', '('] + decimal(missed as nat) + seq![')']
}

/// The step that follows from a delivery, given the first path of its
/// event relative to the base directory: none where the event names no path
/// or its first path lies outside the base directory.
pub open spec fn step_from(received: Received, relative: Option<Seq<char>>) -> Step {
    match received {
        Received::Event(_) => match relative {
            Some(path) => Step::Send(Message::FileUpdated(path)),
            None => Step::Skipped,
        },
        Received::Missed(missed) => Step::Send(Message::WatcherError(lag_text(missed))),
        Received::Nothing => Step::Idle,
        Received::Unsubscribed => Step::Closed,
    }
}

/// The first path of a delivered event, relative to the base directory.
pub open spec fn first_relative(base: Seq<char>, received: Received) -> Option<Seq<char>> {
    match received {
        Received::Event(change) => if change.paths.len() > 0 {
            stripped(change.paths[0], base)
        } else {
            None
        },
        _ => None,
    }
}

/// The step that follows from a delivery. An event becomes a `fileUpdated`
/// message that carries its first path, relative to the base directory; a
/// count of lost events becomes a `watcher_error` message.
pub open spec fn step_of(base: Seq<char>, received: Received) -> Step {
    step_from(received, first_relative(base, received))
}

/// Maps one delivery to the step of the stream, once the first path of its
/// event was taken relative to the base directory.
pub fn step_given(delivery: &Delivery, relative: Option<String>) -> (step: StreamStep)
    ensures
        step@ == step_from(delivery@, opt_text(relative)),
{
    match delivery {
        Delivery::Event(_) => {
            match relative {
                Some(path) => StreamStep::Send(Notification::FileUpdated(path)),
                None => StreamStep::Skipped,
            }
        },
        Delivery::Missed(missed) => {
            proof {
                reveal_strlit("Lagged(");
                reveal_strlit(")");
                assert("Lagged("@ =~= seq!['L', 'a', 'g', 'g', 'e', 'd', '(']);
                assert(")"@ =~= seq![')']);
            }
            let mut text = String::from_str("Lagged(");
            text.append(decimal_text(*missed).as_str());
            text.append(")");
            StreamStep::Send(Notification::WatcherError(text))
        },
        Delivery::Nothing => StreamStep::Idle,
        Delivery::Unsubscribed => StreamStep::Closed,
    }
}

/// Maps one delivery to the step of the stream.
pub fn step_for(base: &str, delivery: &Delivery) -> (step: StreamStep)
    ensures
        step@ == step_of(base@, delivery@),
{
    let relative = match delivery {
        Delivery::Event(event) => {
            if event.paths.len() > 0 {
                strip_prefix(event.paths[0].as_str(), base)
            } else {
                None
            }
        },
        _ => None,
    };
    step_given(delivery, relative)
}

/// Takes the next delivery of the subscriber `id` and says what the stream
/// does with it. Messages come in the order in which their events were
/// published.
pub fn next_step(hub: &mut Hub, id: usize, base: &str) -> (step: StreamStep)
    ensures
        step@ == step_of(base@, old(hub)@.next(id)),
        final(hub)@ == old(hub)@.after_next(id),
        old(hub)@.is_bounded() ==> final(hub)@.is_bounded(),
{
    let delivery = hub.poll(id);
    step_for(base, &delivery)
}

/// No replay on the wire. From a moment at which nothing is pending for a
/// subscriber, as right after it registered, every `fileUpdated` message that
/// its stream sends carries the first path of an event that was published
/// after that moment. Here the stream takes its next step after the run
/// `actions`.
pub proof fn lemma_stream_sends_only_later_events(
    base: Seq<char>,
    channel: Channel,
    id: usize,
    actions: Seq<Action>,
    path: Seq<char>,
)
    requires
        nothing_pending(channel, id),
        step_of(base, run(channel, actions).next(id)) == Step::Send(Message::FileUpdated(path)),
    ensures
        exists|event: Change|
            published(actions).contains(event) && event.paths.len() > 0 && #[trigger] stripped(
                event.paths[0],
                base,
            ) == Some(path),
{
    lemma_only_later_events_arrive(channel, id, actions);
    let now = run(channel, actions);
    let pending = now.inboxes[id].pending;
    assert(published(actions).contains(pending[0]));
    assert(stripped(pending[0].paths[0], base) == Some(path));
}

} // verus!
