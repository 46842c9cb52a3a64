use roobot::icon_updater::intake::{submit, Rejection, Submission};
use roobot::icon_updater::message::Lookup;
use roobot::icon_updater::state::{
    ScheduleSerde, ServerSettings, ServerState, State, Timestamp, Update,
};
use roobot::icon_updater::task::{scan, tick, TickReport};
use roobot::icon_updater::IconUpdater;
use std::cell::Cell;
use std::collections::{HashMap, VecDeque};
use std::io::Cursor;

const T0: i64 = 1_704_067_200;

fn at(secs: i64) -> Timestamp {
    Timestamp { secs, nanos: 0 }
}

fn hourly() -> ScheduleSerde {
    ScheduleSerde::from_str("0 0 * * * *").unwrap()
}

fn server(next_update: i64, entries: &[(u64, u64)]) -> ServerState {
    let queue: VecDeque<Update> =
        entries.iter().map(|&(message, user)| Update { message, user }).collect();
    ServerState { next_update: at(next_update), queue }
}

fn picture() -> Vec<u8> {
    let img = image::GrayImage::from_pixel(5, 4, image::Luma([99]));
    let mut out = Cursor::new(Vec::new());
    image::DynamicImage::ImageLuma8(img).write_to(&mut out, image::ImageFormat::Png).unwrap();
    out.into_inner()
}

fn one_image(user: u64, message: u64, secs: i64) -> Submission {
    Submission { user, message, sent_at: at(secs), images: 1 }
}

// messages 1..=9 are gone, messages from 1000 on have no image, the others are live;
// the author of a message is its number modulo 10, and it was sent at T0
fn service(message: u64) -> Lookup {
    if message < 10 {
        Lookup::NotFound
    } else {
        Lookup::Found { author: message % 10, sent_at: at(T0), has_image: message < 1000 }
    }
}

#[test]
fn whole_intake_accepts_and_queues_last() {
    let mut state = server(0, &[(21, 1), (32, 2)]);
    let r = submit(&mut state, &hourly(), &one_image(5, 45, T0 + 10), at(T0 + 10), service, || {
        Some(picture())
    });
    assert_eq!(r, Ok(at(T0 + 3 * 3600)));
    assert_eq!(state, server(0, &[(21, 1), (32, 2), (45, 5)]));
}

#[test]
fn whole_intake_refuses_a_duplicate_without_downloading() {
    let mut state = server(0, &[(21, 1), (32, 2)]);
    let downloads = Cell::new(0);
    let r = submit(&mut state, &hourly(), &one_image(2, 42, T0 + 10), at(T0 + 10), service, || {
        downloads.set(downloads.get() + 1);
        Some(picture())
    });
    assert_eq!(r, Err(Rejection::DuplicateWithinCooldown));
    assert_eq!(downloads.get(), 0);
    assert_eq!(state, server(0, &[(21, 1), (32, 2)]));
}

#[test]
fn whole_intake_trims_gone_entries_from_the_back() {
    let mut state = server(0, &[(21, 1), (3, 5), (4, 5)]);
    let lookups = Cell::new(0);
    let r = submit(
        &mut state,
        &hourly(),
        &one_image(5, 45, T0 + 10),
        at(T0 + 10),
        |message| {
            lookups.set(lookups.get() + 1);
            service(message)
        },
        || Some(picture()),
    );
    assert_eq!(r, Ok(at(T0 + 2 * 3600)));
    assert_eq!(lookups.get(), 3);
    assert_eq!(state, server(0, &[(21, 1), (45, 5)]));
}

#[test]
fn whole_intake_with_only_gone_entries_empties_the_queue() {
    let mut state = server(0, &[(3, 5), (4, 5)]);
    let r = submit(&mut state, &hourly(), &one_image(5, 45, T0 + 10), at(T0 + 10), service, || None);
    assert_eq!(r, Err(Rejection::DownloadFailed));
    assert_eq!(state, server(0, &[]));
}

#[test]
fn whole_intake_counts_images_before_anything_else() {
    let mut state = server(0, &[(3, 5)]);
    let lookups = Cell::new(0);
    let sub = Submission { images: 0, ..one_image(5, 45, T0) };
    let r = submit(
        &mut state,
        &hourly(),
        &sub,
        at(T0),
        |message| {
            lookups.set(lookups.get() + 1);
            service(message)
        },
        || Some(picture()),
    );
    assert_eq!(r, Err(Rejection::NoImage));
    assert_eq!(lookups.get(), 0);
    assert_eq!(state, server(0, &[(3, 5)]));
}

#[test]
fn scan_stops_at_the_oldest_live_entry() {
    let mut state = server(0, &[(3, 5), (1004, 6), (21, 1), (4, 5)]);
    assert_eq!(scan(&mut state, at(T0), service), Some(Update { message: 21, user: 1 }));
    assert_eq!(state, server(0, &[(21, 1), (4, 5)]));
}

#[test]
fn scan_that_is_too_early_looks_nothing_up() {
    let mut state = server(T0, &[(3, 5), (21, 1)]);
    let lookups = Cell::new(0);
    let found = scan(&mut state, at(T0), |message| {
        lookups.set(lookups.get() + 1);
        service(message)
    });
    assert_eq!(found, None);
    assert_eq!(lookups.get(), 0);
    assert_eq!(state, server(T0, &[(3, 5), (21, 1)]));
}

#[test]
fn scan_stops_when_the_service_fails() {
    let mut state = server(0, &[(3, 5), (21, 1)]);
    let found = scan(&mut state, at(T0), |message| {
        if message == 21 {
            Lookup::Failed
        } else {
            service(message)
        }
    });
    assert_eq!(found, None);
    assert_eq!(state, server(0, &[(21, 1)]));
}

#[test]
fn whole_tick_sets_the_icon_and_pops_the_entry() {
    let mut state = server(5, &[(3, 5), (21, 1), (32, 2)]);
    let sent = Cell::new(false);
    let report = tick(
        &mut state,
        at(T0),
        service,
        |update| {
            assert_eq!(update, Update { message: 21, user: 1 });
            Some(picture())
        },
        |update, icon| {
            assert_eq!(update, Update { message: 21, user: 1 });
            sent.set(icon.starts_with("data:image/png;base64,"));
            Some(at(T0 + 7))
        },
    );
    assert_eq!(report, TickReport::Applied { update: Update { message: 21, user: 1 } });
    assert!(sent.get());
    assert_eq!(state, server(T0 + 7, &[(32, 2)]));
}

#[test]
fn whole_tick_with_unusable_image_pops_only_that_entry() {
    let mut state = server(5, &[(21, 1), (32, 2)]);
    let report = tick(
        &mut state,
        at(T0),
        service,
        |_| Some(b"garbage".to_vec()),
        |_, _| panic!("nothing to apply"),
    );
    assert_eq!(report, TickReport::Unusable { update: Update { message: 21, user: 1 } });
    assert_eq!(state, server(5, &[(32, 2)]));
}

#[test]
fn whole_tick_keeps_the_entry_when_download_or_update_fails() {
    let mut state = server(5, &[(21, 1), (32, 2)]);
    let report = tick(&mut state, at(T0), service, |_| None, |_, _| panic!("nothing to apply"));
    assert_eq!(report, TickReport::DownloadFailed { update: Update { message: 21, user: 1 } });
    assert_eq!(state, server(5, &[(21, 1), (32, 2)]));

    let report = tick(&mut state, at(T0), service, |_| Some(picture()), |_, _| None);
    assert_eq!(report, TickReport::ApplyFailed { update: Update { message: 21, user: 1 } });
    assert_eq!(state, server(5, &[(21, 1), (32, 2)]));
}

#[test]
fn whole_tick_on_empty_queue_is_idle() {
    let mut state = server(5, &[]);
    let report = tick(
        &mut state,
        at(T0),
        |_| panic!("nothing to look up"),
        |_| panic!("nothing to download"),
        |_, _| panic!("nothing to apply"),
    );
    assert_eq!(report, TickReport::Idle);
    assert_eq!(state, server(5, &[]));
}

fn two_servers() -> State {
    let mut settings = HashMap::new();
    settings.insert(1, ServerSettings { channel: 10, schedule: hourly() });
    settings.insert(2, ServerSettings { channel: 20, schedule: hourly() });
    let mut state = HashMap::new();
    state.insert(1, server(5, &[(21, 1)]));
    state.insert(9, server(6, &[(32, 2)]));
    State { settings, state }
}

#[test]
fn submission_outside_a_configured_channel_is_ignored() {
    let mut updater = IconUpdater::load(Some(two_servers()));
    let sub = one_image(5, 45, T0 + 10);
    let ignored = |_: u64| -> Lookup { panic!("nothing to look up") };
    assert_eq!(updater.submit(None, 10, &sub, at(T0), ignored, || None), None);
    assert_eq!(updater.submit(Some(1), 20, &sub, at(T0), ignored, || None), None);
    assert_eq!(updater.submit(Some(9), 10, &sub, at(T0), ignored, || None), None);
    assert_eq!(updater.save(), two_servers());
}

#[test]
fn submission_changes_only_its_own_server() {
    let mut updater = IconUpdater::load(Some(two_servers()));
    let sub = one_image(5, 45, T0 + 10);
    let r = updater.submit(Some(2), 20, &sub, at(T0 + 10), service, || Some(picture()));
    assert_eq!(r, Some(Ok(at(T0 + 3600))));
    let mut expected = two_servers();
    expected.state.insert(2, server(0, &[(45, 5)]));
    assert_eq!(updater.save(), expected);

    let r = updater.submit(Some(1), 10, &sub, at(T0 + 10), service, || Some(picture()));
    assert_eq!(r, Some(Ok(at(T0 + 2 * 3600))));
    expected.state.insert(1, server(5, &[(21, 1), (45, 5)]));
    assert_eq!(updater.save(), expected);
}

#[test]
fn tick_changes_only_its_own_server() {
    let mut updater = IconUpdater::load(Some(two_servers()));
    let report = updater.tick(1, at(T0), service, |_| Some(picture()), |_, _| Some(at(T0 + 1)));
    assert_eq!(report, TickReport::Applied { update: Update { message: 21, user: 1 } });
    let mut expected = two_servers();
    expected.state.insert(1, server(T0 + 1, &[]));
    assert_eq!(updater.save(), expected);

    // a server that was never touched gets its state on the first pass
    let report = updater.tick(2, at(T0), service, |_| None, |_, _| None);
    assert_eq!(report, TickReport::Idle);
    expected.state.insert(2, ServerState::default());
    assert_eq!(updater.save(), expected);
}
