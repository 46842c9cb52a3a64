//! The update pass that sets the oldest live submission as a server's icon.
//!
//! A pass alternates between decisions, which are made here, and calls to
//! the chat service, which the caller makes. `begin_tick` opens it; as long
//! as the step is `Inspect` the caller looks the named message up and
//! answers with `on_inspect`; at `Download` it fetches the image, turns it
//! into an icon and calls `settle`, and after a successful update of the
//! server it calls `applied`. The server's state is needed only during these
//! calls, not while the service is being waited for. `scan` and `tick` run
//! the inspection and the whole pass for a caller that can wait for the
//! service inside a call.
//!
//! An entry leaves the queue when its message or image is gone, when its
//! image proves unusable, or after its icon was set. A failed lookup,
//! download or update leaves it at the front for the next pass.
use crate::icon_updater::img::shows;
use crate::icon_updater::img::process_icon;
use crate::icon_updater::img::IconError;
use crate::icon_updater::intake::judges;
use crate::icon_updater::intake::outcome_of;
use crate::icon_updater::message::answers_as;
use crate::icon_updater::message::Lookup;
use crate::icon_updater::message::World;
use crate::icon_updater::state::ServerState;
use crate::icon_updater::state::ServerStateView;
use crate::icon_updater::state::Timestamp;
use crate::icon_updater::state::Update;
use vstd::prelude::*;

verus! {

/// The least time, in seconds, between two passes.
pub const BASE_INTERVAL_SECS: u64 = 1800;

/// The length, in seconds, of the window over which passes are spread.
pub const JITTER_SPAN_SECS: u64 = 1800;

/// Draws a number with `gen_range` of `rand::Rng` from `rand::rngs::OsRng`,
/// which yields a value of the half-open range from zero to `bound`.
#[verifier::external_body]
fn random_below(bound: u64) -> (drawn: u64)
    requires
        bound > 0,
    ensures
        drawn < bound,
{
    rand::Rng::gen_range(&mut rand::rngs::OsRng, 0..bound)
}

/// The time to sleep before a pass, in seconds, for a given jitter.
pub fn delay_with_jitter(jitter: u64) -> (secs: u64)
    requires
        jitter < JITTER_SPAN_SECS,
    ensures
        secs == BASE_INTERVAL_SECS + jitter,
{
    BASE_INTERVAL_SECS + jitter
}

/// The time to sleep before the next pass, in seconds: the base interval
/// plus a random jitter within the window.
pub fn next_delay() -> (secs: u64)
    ensures
        BASE_INTERVAL_SECS <= secs < BASE_INTERVAL_SECS + JITTER_SPAN_SECS,
{
    delay_with_jitter(random_below(JITTER_SPAN_SECS))
}

/// What the caller of a pass has to do next.
#[derive(Clone, Copy, Debug, PartialEq, Eq, Structural)]
pub enum TickStep {
    /// Nothing is to be done in this pass.
    Idle,
    /// Look this message up and answer with `on_inspect`.
    Inspect { message: u64 },
    /// Download the image of this entry, which is live and at the front.
    Download { update: Update },
}

/// What is to be done with an entry once its image was tried as an icon.
#[derive(Debug, PartialEq, Eq)]
pub enum Settled {
    /// Set the icon; report success with `applied`.
    Apply { update: Update, icon: String },
    /// Tell the author that the image is unusable; the entry has left the
    /// queue.
    Unusable { update: Update },
}

/// The step that inspects the oldest entry, or ends the pass when there is
/// none.
pub open spec fn scan_step(queue: Seq<Update>) -> TickStep {
    if queue.len() == 0 {
        TickStep::Idle
    } else {
        TickStep::Inspect { message: queue[0].message }
    }
}

/// The first step of a pass at the instant `now`.
pub open spec fn begin_tick_spec(state: ServerStateView, now: Timestamp) -> TickStep {
    if now@ <= state.next_update@ {
        TickStep::Idle
    } else {
        scan_step(state.queue)
    }
}

/// Whether a lookup shows that the entry has no image to offer any more.
pub open spec fn is_gone(outcome: Lookup) -> bool {
    match outcome {
        Lookup::NotFound => true,
        Lookup::Found { has_image, .. } => !has_image,
        Lookup::Failed => false,
    }
}

/// The queue and the step after the lookup of the oldest entry was answered
/// with `outcome`.
pub open spec fn on_inspect_spec(queue: Seq<Update>, outcome: Lookup) -> (Seq<Update>, TickStep) {
    if queue.len() == 0 {
        (queue, TickStep::Idle)
    } else if is_gone(outcome) {
        (queue.skip(1), scan_step(queue.skip(1)))
    } else if outcome is Found {
        (queue, TickStep::Download { update: queue[0] })
    } else {
        (queue, TickStep::Idle)
    }
}

/// The queue without its oldest entry, if that entry is `update`.
pub open spec fn without_head(queue: Seq<Update>, update: Update) -> Seq<Update> {
    if queue.len() > 0 && queue[0] == update {
        queue.skip(1)
    } else {
        queue
    }
}

/// The later of two instants, the first if they are the same.
pub open spec fn later_of(a: Timestamp, b: Timestamp) -> Timestamp {
    if b@ > a@ {
        b
    } else {
        a
    }
}

/// Opens a pass: nothing is done unless `now` is later than the instant
/// from which the next update is allowed, and the queue is not empty.
pub fn begin_tick(state: &ServerState, now: Timestamp) -> (step: TickStep)
    ensures
        step == begin_tick_spec(state@, now),
{
    if !now.is_after(&state.next_update) {
        TickStep::Idle
    } else {
        inspect_oldest(state)
    }
}

/// The step that inspects the oldest entry of the queue.
fn inspect_oldest(state: &ServerState) -> (step: TickStep)
    ensures
        step == scan_step(state.queue@),
{
    if state.queue.len() == 0 {
        TickStep::Idle
    } else {
        TickStep::Inspect { message: state.queue[0].message }
    }
}

/// Takes the answer to the lookup of the oldest entry. An entry whose
/// message or image is gone is dropped and the next one inspected; a live
/// one is handed out for download; when the service fails, the pass ends and
/// the entry stays.
pub fn on_inspect(state: &mut ServerState, outcome: Lookup) -> (step: TickStep)
    ensures
        (final(state).queue@, step) == on_inspect_spec(old(state).queue@, outcome),
        final(state).next_update == old(state).next_update,
{
    if state.queue.len() == 0 {
        return TickStep::Idle;
    }
    match outcome {
        Lookup::NotFound => {
            let _ = state.queue.pop_front();
            inspect_oldest(state)
        },
        Lookup::Found { has_image, .. } => {
            if has_image {
                TickStep::Download { update: state.queue[0] }
            } else {
                let _ = state.queue.pop_front();
                inspect_oldest(state)
            }
        },
        Lookup::Failed => TickStep::Idle,
    }
}

/// Removes the oldest entry if it is `update`. The queue may have changed
/// since the entry was handed out, so this is checked again.
fn drop_head(state: &mut ServerState, update: Update)
    ensures
        final(state).queue@ == without_head(old(state).queue@, update),
        final(state).next_update == old(state).next_update,
{
    if state.queue.len() > 0 && state.queue[0] == update {
        let _ = state.queue.pop_front();
    }
}

/// Decides what becomes of an entry whose image was downloaded, given what
/// came of turning it into an icon. An icon is handed out to be set and the
/// entry stays until that has succeeded; an unusable image costs the entry
/// its place, and the rest of the queue and the instant of the next update
/// stay as they are.
pub fn settle(state: &mut ServerState, update: Update, icon: Result<String, IconError>) -> (r:
    Settled)
    ensures
        final(state).next_update == old(state).next_update,
        match icon {
            Ok(payload) => final(state).queue@ == old(state).queue@ && r == (Settled::Apply {
                update,
                icon: payload,
            }),
            Err(_) => final(state).queue@ == without_head(old(state).queue@, update) && r == (
            Settled::Unusable { update }),
        },
{
    match icon {
        Ok(payload) => Settled::Apply { update, icon: payload },
        Err(_) => {
            drop_head(state, update);
            Settled::Unusable { update }
        },
    }
}

/// Records that the icon of `update` was set at `now`: the entry leaves the
/// queue, and the instant from which the next update is allowed moves up to
/// `now`, never back.
pub fn applied(state: &mut ServerState, update: Update, now: Timestamp)
    ensures
        final(state).queue@ == without_head(old(state).queue@, update),
        final(state).next_update == later_of(old(state).next_update, now),
{
    drop_head(state, update);
    if now.is_after(&state.next_update) {
        state.next_update = now;
    }
}

/// The queue after the scan from the front, and the live entry it stopped
/// at, if any: entries whose message or image is gone are dropped until one
/// is live or the service fails.
pub open spec fn scanned(queue: Seq<Update>, answers: World) -> (Seq<Update>, Option<Update>)
    decreases queue.len(),
{
    if queue.len() == 0 {
        (queue, None)
    } else {
        let (rest, step) = on_inspect_spec(queue, answers(queue[0].message));
        match step {
            TickStep::Inspect { .. } => if rest.len() < queue.len() {
                scanned(rest, answers)
            } else {
                (rest, None)
            },
            TickStep::Download { update } => (rest, Some(update)),
            TickStep::Idle => (rest, None),
        }
    }
}

/// How a pass went after its scan.
pub enum Course {
    /// The image could not be downloaded.
    DownloadFailed,
    /// The image could not be turned into an icon.
    Unusable,
    /// The icon could not be set.
    ApplyFailed,
    /// The icon was set at this instant.
    Applied { at: Timestamp },
}

/// The state after a whole pass that began at `now`, during which lookups
/// were answered by `answers` and which took the given course once a live
/// entry was found.
pub open spec fn tick_spec(state: ServerStateView, now: Timestamp, answers: World, course: Course)
    -> ServerStateView {
    if begin_tick_spec(state, now) is Idle {
        state
    } else {
        let (rest, found) = scanned(state.queue, answers);
        match found {
            None => ServerStateView { queue: rest, ..state },
            Some(update) => match course {
                Course::DownloadFailed => ServerStateView { queue: rest, ..state },
                Course::Unusable => ServerStateView {
                    queue: without_head(rest, update),
                    ..state
                },
                Course::ApplyFailed => ServerStateView { queue: rest, ..state },
                Course::Applied { at } => ServerStateView {
                    queue: without_head(rest, update),
                    next_update: later_of(state.next_update, at),
                },
            },
        }
    }
}

/// The queue and the live entry after the part of a pass that inspects the
/// queue: nothing happens when the pass is too early, else the queue is
/// scanned from the front.
pub open spec fn scan_spec(state: ServerStateView, now: Timestamp, answers: World) -> (
    Seq<Update>,
    Option<Update>,
) {
    if begin_tick_spec(state, now) is Idle {
        (state.queue, None)
    } else {
        scanned(state.queue, answers)
    }
}

/// The course that a pass takes with the live entry it found, given what
/// came of the download (nothing, or whether the image was usable) and,
/// where an icon came of it, what setting the icon gave: the instant at
/// which it was set, or nothing when that failed.
pub open spec fn course_of(download: Option<bool>, set: Option<Timestamp>) -> Course {
    match download {
        None => Course::DownloadFailed,
        Some(usable) => if !usable {
            Course::Unusable
        } else {
            match set {
                None => Course::ApplyFailed,
                Some(at) => Course::Applied { at },
            }
        },
    }
}

/// Whether `icon` is a payload that shows a picture of the icon's size.
pub open spec fn is_icon(icon: Seq<char>) -> bool {
    exists|pixels: Seq<u8>| #[trigger] shows(icon, pixels)
}

/// Whether `got`, `usable`, `icon` and `set` explain a pass: the state
/// `after` and the `report` are what the pass comes to when the download
/// gives `got`, its bytes are usable or not as `usable` tells, and setting
/// the icon gives `set`; `got` is something `download` can give for the live
/// entry; bytes that are refused whatever their picture holds are not taken
/// as usable; and `icon` is the payload made of usable bytes, for which
/// `apply` can give `set`.
pub open spec fn explains_tick<D, A>(
    download: D,
    apply: A,
    state: ServerStateView,
    now: Timestamp,
    answers: World,
    after: ServerStateView,
    report: TickReport,
    got: Option<Vec<u8>>,
    usable: bool,
    icon: String,
    set: Option<Timestamp>,
) -> bool where D: FnOnce(Update) -> Option<Vec<u8>>, A: FnOnce(Update, String) -> Option<Timestamp> {
    let found = scan_spec(state, now, answers).1;
    let course = course_of(outcome_of(got, usable), set);
    &&& tick_spec(state, now, answers, course) == after
    &&& report_spec(state, now, answers, course) == report
    &&& found is Some ==> call_ensures(download, (found->0,), got)
    &&& judges(got, usable)
    &&& found is Some && got is Some && usable ==> is_icon(icon@) && call_ensures(
        apply,
        (found->0, icon),
        set,
    )
}

/// Whether a pass on `state` at `now`, with lookups answered by `answers`,
/// the download made by `download` and the icon set by `apply`, can end in
/// the state `after` with the report `report`.
pub open spec fn can_tick<D, A>(
    download: D,
    apply: A,
    state: ServerStateView,
    now: Timestamp,
    answers: World,
    after: ServerStateView,
    report: TickReport,
) -> bool where D: FnOnce(Update) -> Option<Vec<u8>>, A: FnOnce(Update, String) -> Option<Timestamp> {
    exists|got: Option<Vec<u8>>, usable: bool, icon: String, set: Option<Timestamp>| #[trigger]
        explains_tick(download, apply, state, now, answers, after, report, got, usable, icon, set)
}

/// Whether `later` is `earlier` from some position on.
pub open spec fn is_back_part(later: Seq<Update>, earlier: Seq<Update>) -> bool {
    later.len() <= earlier.len() && later == earlier.skip(earlier.len() - later.len())
}

/// What a whole pass reports: nothing when no live entry was found, else
/// the course it took with that entry.
pub open spec fn report_spec(state: ServerStateView, now: Timestamp, answers: World, course: Course)
    -> TickReport {
    match scan_spec(state, now, answers).1 {
        None => TickReport::Idle,
        Some(update) => match course {
            Course::DownloadFailed => TickReport::DownloadFailed { update },
            Course::Unusable => TickReport::Unusable { update },
            Course::ApplyFailed => TickReport::ApplyFailed { update },
            Course::Applied { .. } => TickReport::Applied { update },
        },
    }
}

/// Runs the part of a pass that inspects the queue, for a caller that can
/// wait for the chat service: `lookup` looks a message up. Hands out the
/// oldest live entry, if the pass is due and there is one.
pub fn scan<F: Fn(u64) -> Lookup>(state: &mut ServerState, now: Timestamp, lookup: F) -> (found:
    Option<Update>)
    requires
        forall|message: u64| call_requires(lookup, (message,)),
    ensures
        final(state).next_update == old(state).next_update,
        is_back_part(final(state).queue@, old(state).queue@),
        begin_tick_spec(old(state)@, now) is Idle ==> found is None && final(state).queue@ == old(
            state,
        ).queue@,
        found matches Some(update) ==> final(state).queue@.len() > 0 && final(state).queue@[0]
            == update,
        forall|answers: World| #[trigger]
            answers_as(lookup, answers) ==> (final(state).queue@, found) == scan_spec(
                old(state)@,
                now,
                answers,
            ),
{
    let ghost start = state.queue@;
    let mut step = begin_tick(state, now);
    assert(start == start.skip(0));
    if let TickStep::Idle = step {
        assert forall|answers: World| #[trigger] answers_as(lookup, answers) implies (
            state.queue@,
            None::<Update>,
        ) == scan_spec(old(state)@, now, answers) by {
            if !(begin_tick_spec(old(state)@, now) is Idle) {
            }
        }
        return None;
    }
    loop
        invariant
            state.next_update == old(state).next_update,
            forall|message: u64| call_requires(lookup, (message,)),
            !(begin_tick_spec(old(state)@, now) is Idle),
            start == old(state).queue@,
            is_back_part(state.queue@, start),
            step is Inspect ==> step == scan_step(state.queue@) && state.queue@.len() > 0,
            step matches TickStep::Download { update } ==> state.queue@.len() > 0 && state.queue@[0]
                == update,
            forall|answers: World| #[trigger]
                answers_as(lookup, answers) ==> scanned(start, answers) == (match step {
                    TickStep::Inspect { .. } => scanned(state.queue@, answers),
                    TickStep::Download { update } => (state.queue@, Some(update)),
                    TickStep::Idle => (state.queue@, None::<Update>),
                }),
        ensures
            !(step is Inspect),
        decreases
                state.queue@.len(),
                (if step is Inspect {
                    1nat
                } else {
                    0nat
                }),
    {
        match step {
            TickStep::Inspect { message } => {
                let ghost before = state.queue@;
                let outcome = lookup(message);
                step = on_inspect(state, outcome);
                proof {
                    assert(is_back_part(state.queue@, start)) by {
                        if state.queue@ != before {
                            assert(state.queue@ == before.skip(1));
                            assert(before.skip(1) == start.skip(start.len() - before.len() + 1));
                        }
                    }
                    assert forall|answers: World| #[trigger]
                        answers_as(lookup, answers) implies scanned(start, answers) == (match step {
                        TickStep::Inspect { .. } => scanned(state.queue@, answers),
                        TickStep::Download { update } => (state.queue@, Some(update)),
                        TickStep::Idle => (state.queue@, None::<Update>),
                    }) by {
                        assert(outcome == answers(message));
                        assert(message == before[0].message);
                    }
                }
            },
            _ => {
                break ;
            },
        }
    }
    match step {
        TickStep::Download { update } => Some(update),
        _ => None,
    }
}

/// How a pass ended.
#[derive(Clone, Copy, Debug, PartialEq, Eq, Structural)]
pub enum TickReport {
    /// Nothing was due, or no live entry was found.
    Idle,
    /// The image of the entry could not be downloaded; the entry stays.
    DownloadFailed { update: Update },
    /// The image of the entry is unusable; the entry has left the queue and
    /// its author is to be told.
    Unusable { update: Update },
    /// The icon could not be set; the entry stays.
    ApplyFailed { update: Update },
    /// The icon of the entry was set; the entry has left the queue.
    Applied { update: Update },
}

/// Runs a whole pass, for a caller that can wait for the chat service:
/// `lookup` looks a message up, `download` fetches the image of an entry,
/// or gives nothing when that fails, and `apply` sets an icon and gives the
/// instant at which that was done, or nothing when it failed.
///
/// Whatever the three answer, the queue is left as it was from some
/// position on, and the instant of the next update does not fall. For a
/// `lookup` whose answers are known, the state and the report are what
/// `tick_spec` and `report_spec` give for them, for what `download` gave and
/// for what `apply` gave for the payload made of it.
#[verifier::rlimit(40)]
pub fn tick<F, D, A>(
    state: &mut ServerState,
    now: Timestamp,
    lookup: F,
    download: D,
    apply: A,
) -> (report: TickReport) where
    F: Fn(u64) -> Lookup,
    D: FnOnce(Update) -> Option<Vec<u8>>,
    A: FnOnce(Update, String) -> Option<Timestamp>,

    requires
        forall|message: u64| call_requires(lookup, (message,)),
        forall|update: Update| call_requires(download, (update,)),
        forall|update: Update, icon: String| call_requires(apply, (update, icon)),
    ensures
        forall|answers: World| #[trigger]
            answers_as(lookup, answers) ==> can_tick(
                download,
                apply,
                old(state)@,
                now,
                answers,
                final(state)@,
                report,
            ),
        is_back_part(final(state).queue@, old(state).queue@),
        begin_tick_spec(old(state)@, now) is Idle ==> final(state)@ == old(state)@ && report
            == TickReport::Idle,
        final(state).next_update@ >= old(state).next_update@,
        !(report is Applied) ==> final(state).next_update == old(state).next_update,
{
    let ghost start = state@;
    let found = scan(state, now, lookup);
    let ghost rest = state.queue@;
    let ghost no_icon: String = arbitrary();
    proof {
        if rest.len() > 0 {
            assert(rest.skip(1) == start.queue.skip(start.queue.len() - rest.len() + 1));
        }
    }
    let update = match found {
        None => {
            proof {
                assert forall|answers: World| #[trigger] answers_as(lookup, answers) implies can_tick(
                    download,
                    apply,
                    start,
                    now,
                    answers,
                    state@,
                    TickReport::Idle,
                ) by {
                    assert(scan_spec(start, now, answers) == (rest, None::<Update>));
                    assert(explains_tick(
                        download,
                        apply,
                        start,
                        now,
                        answers,
                        state@,
                        TickReport::Idle,
                        None,
                        false,
                        no_icon,
                        None,
                    ));
                }
            }
            return TickReport::Idle;
        },
        Some(update) => update,
    };
    let got = download(update);
    let ghost fetched = got;
    let bytes = match got {
        None => {
            proof {
                assert forall|answers: World| #[trigger] answers_as(lookup, answers) implies can_tick(
                    download,
                    apply,
                    start,
                    now,
                    answers,
                    state@,
                    TickReport::DownloadFailed { update },
                ) by {
                    assert(scan_spec(start, now, answers) == (rest, Some(update)));
                    assert(explains_tick(
                        download,
                        apply,
                        start,
                        now,
                        answers,
                        state@,
                        TickReport::DownloadFailed { update },
                        fetched,
                        false,
                        no_icon,
                        None,
                    ));
                }
            }
            return TickReport::DownloadFailed { update };
        },
        Some(bytes) => bytes,
    };
    let made = process_icon(bytes);
    assert(made is Ok ==> is_icon(made->Ok_0@));
    match settle(state, update, made) {
        Settled::Unusable { update } => {
            proof {
                assert forall|answers: World| #[trigger] answers_as(lookup, answers) implies can_tick(
                    download,
                    apply,
                    start,
                    now,
                    answers,
                    state@,
                    TickReport::Unusable { update },
                ) by {
                    assert(scan_spec(start, now, answers) == (rest, Some(update)));
                    assert(explains_tick(
                        download,
                        apply,
                        start,
                        now,
                        answers,
                        state@,
                        TickReport::Unusable { update },
                        fetched,
                        false,
                        no_icon,
                        None,
                    ));
                }
            }
            TickReport::Unusable { update }
        },
        Settled::Apply { update, icon } => {
            let ghost payload = icon;
            let set = apply(update, icon);
            match set {
                None => {
                    proof {
                        assert forall|answers: World| #[trigger]
                            answers_as(lookup, answers) implies can_tick(
                            download,
                            apply,
                            start,
                            now,
                            answers,
                            state@,
                            TickReport::ApplyFailed { update },
                        ) by {
                            assert(scan_spec(start, now, answers) == (rest, Some(update)));
                            assert(explains_tick(
                                download,
                                apply,
                                start,
                                now,
                                answers,
                                state@,
                                TickReport::ApplyFailed { update },
                                fetched,
                                true,
                                payload,
                                set,
                            ));
                        }
                    }
                    TickReport::ApplyFailed { update }
                },
                Some(at) => {
                    applied(state, update, at);
                    proof {
                        assert forall|answers: World| #[trigger]
                            answers_as(lookup, answers) implies can_tick(
                            download,
                            apply,
                            start,
                            now,
                            answers,
                            state@,
                            TickReport::Applied { update },
                        ) by {
                            assert(scan_spec(start, now, answers) == (rest, Some(update)));
                            assert(explains_tick(
                                download,
                                apply,
                                start,
                                now,
                                answers,
                                state@,
                                TickReport::Applied { update },
                                fetched,
                                true,
                                payload,
                                set,
                            ));
                        }
                    }
                    TickReport::Applied { update }
                },
            }
        },
    }
}

/// The scan keeps a back part of the queue: what it drops are the oldest
/// entries, each gone, and the entry it stops at is the oldest one kept and
/// was found with its image.
pub proof fn lemma_scan_drops_oldest_gone(queue: Seq<Update>, answers: World)
    ensures
        ({
            let (rest, found) = scanned(queue, answers);
            let dropped = queue.len() - rest.len();
            &&& rest.len() <= queue.len()
            &&& rest == queue.skip(dropped)
            &&& forall|i: int| 0 <= i < dropped ==> is_gone(answers(#[trigger] queue[i].message))
            &&& found matches Some(update) ==> rest.len() > 0 && rest[0] == update && answers(
                update.message,
            ) is Found && !is_gone(answers(update.message))
            &&& found is None && rest.len() > 0 ==> answers(rest[0].message) is Failed
        }),
    decreases queue.len(),
{
    if queue.len() > 0 {
        if is_gone(answers(queue[0].message)) {
            let tail = queue.skip(1);
            lemma_scan_drops_oldest_gone(tail, answers);
            let (rest, found) = scanned(tail, answers);
            assert(scanned(queue, answers) == (rest, found));
            let dropped = queue.len() - rest.len();
            assert(rest == queue.skip(dropped)) by {
                assert(tail.skip(dropped - 1) == queue.skip(dropped));
            }
            assert forall|i: int| 0 <= i < dropped implies is_gone(
                answers(#[trigger] queue[i].message),
            ) by {
                if i > 0 {
                    assert(tail[i - 1] == queue[i]);
                }
            }
        } else {
            assert(queue.skip(0) == queue);
        }
    } else {
        assert(queue.skip(0) == queue);
    }
}

/// A pass over an empty queue changes nothing.
pub proof fn lemma_tick_on_empty_queue_is_noop(
    state: ServerStateView,
    now: Timestamp,
    answers: World,
    course: Course,
)
    requires
        state.queue.len() == 0,
    ensures
        tick_spec(state, now, answers, course) == state,
{
}

/// A pass that is too early changes nothing.
pub proof fn lemma_early_tick_is_noop(
    state: ServerStateView,
    now: Timestamp,
    answers: World,
    course: Course,
)
    requires
        now@ <= state.next_update@,
    ensures
        tick_spec(state, now, answers, course) == state,
{
}

/// A pass that finds the oldest entry live, with an image that cannot be
/// turned into an icon, removes that entry and nothing else: the rest of
/// the queue is untouched and the instant of the next update stays.
pub proof fn lemma_unusable_head_is_dropped(
    state: ServerStateView,
    now: Timestamp,
    answers: World,
)
    requires
        now@ > state.next_update@,
        state.queue.len() > 0,
        answers(state.queue[0].message) matches Lookup::Found { has_image, .. } && has_image,
    ensures
        tick_spec(state, now, answers, Course::Unusable) == (ServerStateView {
            next_update: state.next_update,
            queue: state.queue.skip(1),
        }),
{
}

/// A pass never moves the instant of the next update back, and moves it
/// only when an icon was set.
pub proof fn lemma_next_update_only_advances(
    state: ServerStateView,
    now: Timestamp,
    answers: World,
    course: Course,
)
    ensures
        tick_spec(state, now, answers, course).next_update@ >= state.next_update@,
        !(course is Applied) ==> tick_spec(state, now, answers, course).next_update
            == state.next_update,
{
}

/// A scan of a queue whose entries are all gone drops every one of them
/// and finds none.
pub proof fn lemma_scan_of_gone_entries(queue: Seq<Update>, answers: World)
    requires
        forall|i: int| 0 <= i < queue.len() ==> is_gone(answers(#[trigger] queue[i].message)),
    ensures
        scanned(queue, answers) == (Seq::<Update>::empty(), None::<Update>),
    decreases queue.len(),
{
    if queue.len() > 0 {
        let tail = queue.skip(1);
        assert(is_gone(answers(queue[0].message)));
        assert forall|i: int| 0 <= i < tail.len() implies is_gone(
            answers(#[trigger] tail[i].message),
        ) by {
            assert(tail[i] == queue[i + 1]);
        }
        lemma_scan_of_gone_entries(tail, answers);
    } else {
        assert(queue == Seq::<Update>::empty());
    }
}

/// A pass that is due, over a queue whose entries are all gone, empties the
/// queue, leaves the instant of the next update as it was and reports
/// nothing to do: nothing is downloaded or set.
pub proof fn lemma_tick_over_gone_entries_empties_queue(
    state: ServerStateView,
    now: Timestamp,
    answers: World,
    course: Course,
)
    requires
        now@ > state.next_update@,
        forall|i: int|
            0 <= i < state.queue.len() ==> is_gone(answers(#[trigger] state.queue[i].message)),
    ensures
        tick_spec(state, now, answers, course) == (ServerStateView {
            next_update: state.next_update,
            queue: Seq::empty(),
        }),
        report_spec(state, now, answers, course) == TickReport::Idle,
{
    lemma_scan_of_gone_entries(state.queue, answers);
    if state.queue.len() == 0 {
        assert(state.queue == Seq::<Update>::empty());
    }
}

} // verus!
