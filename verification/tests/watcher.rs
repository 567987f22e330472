use heard_browser::hub::{Hub, Delivery};
use heard_browser::events::{ChangeEvent, ChangeKind};
use heard_browser::watcher::{on_change, WatchOutcome, CHANNEL_CAPACITY, POLL_INTERVAL_SECS};

fn raw_event(paths: &[&str], is_access_only: bool) -> ChangeEvent {
    ChangeEvent {
        paths: paths.iter().map(|p| p.to_string()).collect(),
        kind: ChangeKind::Modified,
        is_access_only,
    }
}

#[test]
fn settings_of_the_watch() {
    assert_eq!(POLL_INTERVAL_SECS, 2);
    assert_eq!(CHANNEL_CAPACITY, 5);
}

#[test]
fn noteworthy_event_is_published() {
    let mut hub = Hub::new(CHANNEL_CAPACITY);
    let id = hub.subscribe();
    let event = raw_event(&["/media/podcast/ep1.mp3"], false);
    assert_eq!(on_change(&mut hub, &event), WatchOutcome::Published);
    assert_eq!(hub.poll(id), Delivery::Event(event));
}

#[test]
fn temp_file_event_reaches_no_subscriber() {
    let mut hub = Hub::new(CHANNEL_CAPACITY);
    let first = hub.subscribe();
    let second = hub.subscribe();
    assert_eq!(on_change(&mut hub, &raw_event(&["/media/ep1.tmp"], false)), WatchOutcome::Dropped);
    assert_eq!(
        on_change(&mut hub, &raw_event(&["/media/a.tmp", "/media/b.tmp"], false)),
        WatchOutcome::Dropped
    );
    assert_eq!(hub.poll(first), Delivery::Nothing);
    assert_eq!(hub.poll(second), Delivery::Nothing);
}

#[test]
fn access_event_reaches_no_subscriber() {
    let mut hub = Hub::new(CHANNEL_CAPACITY);
    let id = hub.subscribe();
    assert_eq!(on_change(&mut hub, &raw_event(&["/media/ep1.mp3"], true)), WatchOutcome::Dropped);
    assert_eq!(hub.poll(id), Delivery::Nothing);
}

#[test]
fn dropped_event_is_dropped_with_or_without_subscribers() {
    let mut hub = Hub::new(CHANNEL_CAPACITY);
    assert_eq!(on_change(&mut hub, &raw_event(&["/media/ep1.tmp"], false)), WatchOutcome::Dropped);
    assert_eq!(on_change(&mut hub, &raw_event(&[], false)), WatchOutcome::Dropped);
}

#[test]
fn noteworthy_event_without_subscribers_is_reported() {
    let mut hub = Hub::new(CHANNEL_CAPACITY);
    assert_eq!(
        on_change(&mut hub, &raw_event(&["/media/ep1.mp3"], false)),
        WatchOutcome::NoSubscribers
    );
    let id = hub.subscribe();
    assert_eq!(hub.poll(id), Delivery::Nothing);
}

#[test]
fn watcher_never_waits_for_a_slow_subscriber() {
    let mut hub = Hub::new(CHANNEL_CAPACITY);
    let id = hub.subscribe();
    for n in 0..20 {
        let path = format!("/media/{}.mp3", n);
        assert_eq!(on_change(&mut hub, &raw_event(&[path.as_str()], false)), WatchOutcome::Published);
    }
    assert_eq!(hub.poll(id), Delivery::Missed(15));
    assert_eq!(hub.poll(id), Delivery::Event(raw_event(&["/media/15.mp3"], false)));
}

#[test]
fn event_with_one_other_path_is_published_whole() {
    let mut hub = Hub::new(CHANNEL_CAPACITY);
    let id = hub.subscribe();
    let event = raw_event(&["/media/ep1.tmp", "/media/ep1.mp3"], false);
    assert_eq!(on_change(&mut hub, &event), WatchOutcome::Published);
    assert_eq!(hub.poll(id), Delivery::Event(event));
}
