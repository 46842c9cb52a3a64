//! Intake of submissions: the checks a new image passes before it is queued.
//!
//! An intake alternates between decisions, which are made here, and calls to
//! the chat service, which the caller makes. `begin` opens it; as long as the
//! step is `Validate` the caller looks the named message up and answers with
//! `on_lookup`; at `Fetch` it downloads the submitted image and calls
//! `finish`. The caller holds the server's state for the whole intake.
//! `submit` runs all of it for a caller that can wait for the service inside
//! a call.
//!
//! `submit_spec` says what a whole intake comes to; the lemmas at the end
//! state what follows from it.
use crate::icon_updater::img::process_icon;
use crate::icon_updater::img::refusal;
use crate::icon_updater::img::IconError;
use crate::icon_updater::message::answers_as;
use crate::icon_updater::message::Lookup;
use crate::icon_updater::message::World;
use crate::icon_updater::state::ScheduleSerde;
use crate::icon_updater::state::ServerState;
use crate::icon_updater::state::Timestamp;
use crate::icon_updater::state::Update;
use vstd::prelude::*;

verus! {

/// The time, in nanoseconds, for which a user who has the newest live entry
/// of the queue may not submit again: sixty minutes.
pub const COOLDOWN_NANOS: i128 = 3_600_000_000_000;

/// A message that offers images as the next icon.
#[derive(Clone, Copy, Debug, PartialEq, Eq, Structural)]
pub struct Submission {
    /// Who sent the message.
    pub user: u64,
    /// The message itself.
    pub message: u64,
    /// When it was sent.
    pub sent_at: Timestamp,
    /// How many images it carries.
    pub images: usize,
}

impl Submission {
    /// The queue entry that stands for the submission.
    pub open spec fn entry(self) -> Update {
        Update { message: self.message, user: self.user }
    }
}

/// Why a submission was not queued.
#[derive(Clone, Copy, Debug, PartialEq, Eq, Structural)]
pub enum Rejection {
    /// The message carries more than one image.
    TooManyImages,
    /// The message carries no image.
    NoImage,
    /// The same user has the newest live entry, sent less than the cooldown
    /// ago.
    DuplicateWithinCooldown,
    /// The image cannot be turned into an icon.
    UnusableImage,
    /// The image could not be downloaded.
    DownloadFailed,
    /// The server's schedule has no occurrence left.
    ScheduleMisconfigured,
}

/// What the caller of an intake has to do next.
#[derive(Clone, Copy, Debug, PartialEq, Eq, Structural)]
pub enum IntakeStep {
    /// Look this message up and answer with `on_lookup`.
    Validate { message: u64 },
    /// Download the submitted image and call `finish`.
    Fetch,
    /// The intake is over: the submission is refused.
    Rejected(Rejection),
}

/// The rejection that the number of images alone calls for.
pub open spec fn count_verdict(images: usize) -> Option<Rejection> {
    if images == 0 {
        Some(Rejection::NoImage)
    } else if images > 1 {
        Some(Rejection::TooManyImages)
    } else {
        None
    }
}

/// Whether `later` is less than the cooldown after `earlier`.
pub open spec fn in_cooldown(earlier: Timestamp, later: Timestamp) -> bool {
    later@ - earlier@ < COOLDOWN_NANOS as int
}

/// The step that validates the newest entry, or goes on to the download
/// when there is none.
pub open spec fn validation_step(queue: Seq<Update>) -> IntakeStep {
    if queue.len() == 0 {
        IntakeStep::Fetch
    } else {
        IntakeStep::Validate { message: queue.last().message }
    }
}

/// The first step of an intake.
pub open spec fn begin_spec(queue: Seq<Update>, submission: Submission) -> IntakeStep {
    match count_verdict(submission.images) {
        Some(rejection) => IntakeStep::Rejected(rejection),
        None => validation_step(queue),
    }
}

/// The queue and the step after the lookup of the newest entry was answered
/// with `outcome`.
pub open spec fn on_lookup_spec(queue: Seq<Update>, submission: Submission, outcome: Lookup) -> (
    Seq<Update>,
    IntakeStep,
) {
    match outcome {
        Lookup::NotFound => {
            let rest = if queue.len() == 0 {
                queue
            } else {
                queue.drop_last()
            };
            (rest, validation_step(rest))
        },
        Lookup::Found { author, sent_at, .. } => {
            if author == submission.user && in_cooldown(sent_at, submission.sent_at) {
                (queue, IntakeStep::Rejected(Rejection::DuplicateWithinCooldown))
            } else {
                (queue, IntakeStep::Fetch)
            }
        },
        Lookup::Failed => (queue, IntakeStep::Fetch),
    }
}

/// The queue and the verdict once the image was downloaded and `usable`
/// tells whether it could be turned into an icon: a usable image is queued
/// behind the others and due at the occurrence of the schedule `expr` that
/// has as many before it, after `now`, as there are entries ahead.
pub open spec fn conclude_spec(
    queue: Seq<Update>,
    expr: Seq<char>,
    submission: Submission,
    now: Timestamp,
    usable: bool,
) -> (Seq<Update>, Result<Timestamp, Rejection>) {
    if !usable {
        (queue, Err(Rejection::UnusableImage))
    } else {
        match ScheduleSerde::occurrence(expr, now, queue.len() as usize) {
            Some(due) => (queue.push(submission.entry()), Ok(due)),
            None => (queue, Err(Rejection::ScheduleMisconfigured)),
        }
    }
}

/// Opens an intake: refuses a message with no image or with several, and
/// otherwise asks for the newest entry of the queue to be validated.
pub fn begin(state: &ServerState, submission: &Submission) -> (step: IntakeStep)
    ensures
        step == begin_spec(state.queue@, *submission),
{
    if submission.images == 0 {
        IntakeStep::Rejected(Rejection::NoImage)
    } else if submission.images > 1 {
        IntakeStep::Rejected(Rejection::TooManyImages)
    } else {
        validate_newest(state)
    }
}

/// The step that validates the newest entry of the queue.
fn validate_newest(state: &ServerState) -> (step: IntakeStep)
    ensures
        step == validation_step(state.queue@),
{
    let len = state.queue.len();
    if len == 0 {
        IntakeStep::Fetch
    } else {
        IntakeStep::Validate { message: state.queue[len - 1].message }
    }
}

/// Whether `later` is less than the cooldown after `earlier`.
pub fn within_cooldown(earlier: &Timestamp, later: &Timestamp) -> (b: bool)
    ensures
        b == in_cooldown(*earlier, *later),
{
    later.total_nanos() - earlier.total_nanos() < COOLDOWN_NANOS
}

/// Takes the answer to the lookup of the newest entry. An entry whose
/// message is gone is dropped and the one before it is validated in turn; a
/// message that exists decides whether the cooldown applies; when the
/// service fails, the intake goes on without the check.
pub fn on_lookup(state: &mut ServerState, submission: &Submission, outcome: Lookup) -> (step:
    IntakeStep)
    ensures
        (final(state).queue@, step) == on_lookup_spec(old(state).queue@, *submission, outcome),
        final(state).next_update == old(state).next_update,
{
    match outcome {
        Lookup::NotFound => {
            let _ = state.queue.pop_back();
            assert(old(state).queue@.len() > 0 ==> state.queue@ == old(state).queue@.drop_last());
            validate_newest(state)
        },
        Lookup::Found { author, sent_at, .. } => {
            if author == submission.user && within_cooldown(&sent_at, &submission.sent_at) {
                IntakeStep::Rejected(Rejection::DuplicateWithinCooldown)
            } else {
                IntakeStep::Fetch
            }
        },
        Lookup::Failed => IntakeStep::Fetch,
    }
}

/// Closes an intake whose image was downloaded, given what came of turning
/// it into an icon: an unusable image is refused; a usable one is queued
/// behind the others, unless the schedule has no occurrence for it, and the
/// instant at which it is due is returned.
pub fn conclude(
    state: &mut ServerState,
    schedule: &ScheduleSerde,
    submission: &Submission,
    now: Timestamp,
    icon: Result<String, IconError>,
) -> (r: Result<Timestamp, Rejection>)
    ensures
        (final(state).queue@, r) == conclude_spec(
            old(state).queue@,
            schedule@,
            *submission,
            now,
            icon is Ok,
        ),
        final(state).next_update == old(state).next_update,
        r matches Ok(due) ==> due@ >= now@,
{
    if icon.is_err() {
        return Err(Rejection::UnusableImage);
    }
    match schedule.next_n(now, state.queue.len()) {
        Some(due) => {
            state.queue.push_back(Update { message: submission.message, user: submission.user });
            Ok(due)
        },
        None => Err(Rejection::ScheduleMisconfigured),
    }
}

/// What closing an intake comes to, given what came of the download:
/// nothing, when it failed, or whether the image was usable.
pub open spec fn finish_spec(
    queue: Seq<Update>,
    expr: Seq<char>,
    submission: Submission,
    now: Timestamp,
    download: Option<bool>,
) -> (Seq<Update>, Result<Timestamp, Rejection>) {
    match download {
        None => (queue, Err(Rejection::DownloadFailed)),
        Some(usable) => conclude_spec(queue, expr, submission, now, usable),
    }
}

/// What came of a download that gave `payload`, if `usable` tells whether
/// its bytes made an icon.
pub open spec fn outcome_of(payload: Option<Vec<u8>>, usable: bool) -> Option<bool> {
    match payload {
        None => None,
        Some(bytes) => Some(usable),
    }
}

/// Whether `usable` can tell what became of the bytes that a download
/// gave: bytes that are refused whatever their picture holds are not
/// usable.
pub open spec fn judges(payload: Option<Vec<u8>>, usable: bool) -> bool {
    payload is Some && refusal(payload->0@) is Some ==> !usable
}

/// Whether closing an intake on `queue` with what the download gave can
/// leave the queue `after` and give `verdict`.
pub open spec fn can_finish(
    queue: Seq<Update>,
    expr: Seq<char>,
    submission: Submission,
    now: Timestamp,
    payload: Option<Vec<u8>>,
    after: Seq<Update>,
    verdict: Result<Timestamp, Rejection>,
) -> bool {
    exists|usable: bool|
        judges(payload, usable) && #[trigger] finish_spec(
            queue,
            expr,
            submission,
            now,
            outcome_of(payload, usable),
        ) == (after, verdict)
}

/// Closes an intake with what the download gave: nothing, when it failed, or
/// the bytes of the image, which are tried as an icon before the submission
/// is queued. Bytes that are empty, of no known format, not decodable or
/// too elongated are always refused; of others the image decides.
pub fn finish(
    state: &mut ServerState,
    schedule: &ScheduleSerde,
    submission: &Submission,
    now: Timestamp,
    payload: Option<Vec<u8>>,
) -> (r: Result<Timestamp, Rejection>)
    ensures
        can_finish(
            old(state).queue@,
            schedule@,
            *submission,
            now,
            payload,
            final(state).queue@,
            r,
        ),
        payload is None ==> r == Err::<Timestamp, Rejection>(Rejection::DownloadFailed)
            && final(state).queue@ == old(state).queue@,
        payload is Some && refusal(payload->0@) is Some ==> r == Err::<Timestamp, Rejection>(
            Rejection::UnusableImage,
        ) && final(state).queue@ == old(state).queue@,
        final(state).next_update == old(state).next_update,
        r matches Ok(due) ==> due@ >= now@,
{
    match payload {
        None => {
            assert(finish_spec(
                state.queue@,
                schedule@,
                *submission,
                now,
                outcome_of(payload, false),
            ) == (state.queue@, Err::<Timestamp, Rejection>(Rejection::DownloadFailed)));
            Err(Rejection::DownloadFailed)
        },
        Some(bytes) => {
            let icon = process_icon(bytes);
            let ghost usable = icon is Ok;
            let r = conclude(state, schedule, submission, now, icon);
            assert(finish_spec(
                old(state).queue@,
                schedule@,
                *submission,
                now,
                outcome_of(payload, usable),
            ) == (state.queue@, r));
            r
        },
    }
}

/// The queue and the rejection, if any, after the newest entries were
/// validated against `world`: entries whose messages are gone are dropped
/// from the back until one is found or the service fails.
pub open spec fn validated(queue: Seq<Update>, submission: Submission, world: World) -> (
    Seq<Update>,
    Option<Rejection>,
)
    decreases queue.len(),
{
    if queue.len() == 0 {
        (queue, None)
    } else {
        let (rest, step) = on_lookup_spec(queue, submission, world(queue.last().message));
        match step {
            IntakeStep::Validate { .. } => if rest.len() < queue.len() {
                validated(rest, submission, world)
            } else {
                (rest, None)
            },
            IntakeStep::Fetch => (rest, None),
            IntakeStep::Rejected(rejection) => (rest, Some(rejection)),
        }
    }
}

/// A whole intake: the queue it leaves and its verdict, when lookups are
/// answered by `world` and `download` tells what came of the download:
/// nothing, when it failed, or whether the image was usable.
pub open spec fn submit_spec(
    queue: Seq<Update>,
    expr: Seq<char>,
    submission: Submission,
    now: Timestamp,
    world: World,
    download: Option<bool>,
) -> (Seq<Update>, Result<Timestamp, Rejection>) {
    match count_verdict(submission.images) {
        Some(rejection) => (queue, Err(rejection)),
        None => {
            let (kept, verdict) = validated(queue, submission, world);
            match verdict {
                Some(rejection) => (kept, Err(rejection)),
                None => finish_spec(kept, expr, submission, now, download),
            }
        },
    }
}

/// Whether an intake gets as far as the download: the message carries one
/// image and no cooldown applies.
pub open spec fn reaches_download(queue: Seq<Update>, submission: Submission, world: World) -> bool {
    count_verdict(submission.images) is None && validated(queue, submission, world).1 is None
}

/// Whether `payload` and `usable` explain an intake: the queue `after` and
/// the `verdict` are what the intake comes to when the download gives
/// `payload` and its bytes are usable or not as `usable` tells; `payload` is
/// something `fetch` can give, if the intake got that far; and bytes that
/// are refused whatever their picture holds are not taken as usable.
pub open spec fn explains_submit<D: FnOnce() -> Option<Vec<u8>>>(
    fetch: D,
    queue: Seq<Update>,
    expr: Seq<char>,
    submission: Submission,
    now: Timestamp,
    world: World,
    after: Seq<Update>,
    verdict: Result<Timestamp, Rejection>,
    payload: Option<Vec<u8>>,
    usable: bool,
) -> bool {
    &&& submit_spec(queue, expr, submission, now, world, outcome_of(payload, usable)) == (
        after,
        verdict,
    )
    &&& reaches_download(queue, submission, world) ==> call_ensures(fetch, (), payload)
    &&& judges(payload, usable)
}

/// Whether `later` is a front part of `earlier`, followed by `entry` if
/// `added` holds.
pub open spec fn is_front_with(
    later: Seq<Update>,
    earlier: Seq<Update>,
    added: bool,
    entry: Update,
) -> bool {
    if added {
        later.len() > 0 && later.last() == entry && later.len() - 1 <= earlier.len()
            && later.drop_last() == earlier.take(later.len() - 1)
    } else {
        later.len() <= earlier.len() && later == earlier.take(later.len() as int)
    }
}

/// Whether an intake on `queue`, with lookups answered by `world` and the
/// download made by `fetch`, can leave the queue `after` and give
/// `verdict`.
pub open spec fn can_submit<D: FnOnce() -> Option<Vec<u8>>>(
    fetch: D,
    queue: Seq<Update>,
    expr: Seq<char>,
    submission: Submission,
    now: Timestamp,
    world: World,
    after: Seq<Update>,
    verdict: Result<Timestamp, Rejection>,
) -> bool {
    exists|payload: Option<Vec<u8>>, usable: bool| #[trigger]
        explains_submit(
            fetch,
            queue,
            expr,
            submission,
            now,
            world,
            after,
            verdict,
            payload,
            usable,
        )
}

/// Runs a whole intake, for a caller that can wait for the chat service:
/// `lookup` looks a message up, and `fetch` downloads the submitted image,
/// or gives nothing when that fails. `fetch` is called only if the
/// submission got that far.
///
/// Whatever the two answer, the queue keeps a front part of what it held,
/// with the new entry behind it exactly when the submission is accepted.
/// For a `lookup` whose answers are known, the result is what `submit_spec`
/// gives for them and for what `fetch` gave.
pub fn submit<F: Fn(u64) -> Lookup, D: FnOnce() -> Option<Vec<u8>>>(
    state: &mut ServerState,
    schedule: &ScheduleSerde,
    submission: &Submission,
    now: Timestamp,
    lookup: F,
    fetch: D,
) -> (r: Result<Timestamp, Rejection>)
    requires
        forall|message: u64| call_requires(lookup, (message,)),
        call_requires(fetch, ()),
    ensures
        forall|world: World| #[trigger]
            answers_as(lookup, world) ==> can_submit(
                fetch,
                old(state).queue@,
                schedule@,
                *submission,
                now,
                world,
                final(state).queue@,
                r,
            ),
        is_front_with(final(state).queue@, old(state).queue@, r is Ok, submission.entry()),
        count_verdict(submission.images) matches Some(rejection) ==> r == Err::<
            Timestamp,
            Rejection,
        >(rejection) && final(state).queue@ == old(state).queue@,
        final(state).next_update == old(state).next_update,
        r matches Ok(due) ==> due@ >= now@,
{
    let ghost start = state.queue@;
    let mut step = begin(state, submission);
    assert(start == start.take(start.len() as int));
    loop
        invariant
            state.next_update == old(state).next_update,
            start == old(state).queue@,
            forall|message: u64| call_requires(lookup, (message,)),
            state.queue@.len() <= start.len(),
            state.queue@ == start.take(state.queue@.len() as int),
            count_verdict(submission.images) is Some ==> step == IntakeStep::Rejected(
                count_verdict(submission.images)->0,
            ) && state.queue@ == start,
            step is Validate ==> step == validation_step(state.queue@) && state.queue@.len() > 0,
            count_verdict(submission.images) is None ==> forall|world: World| #[trigger]
                answers_as(lookup, world) ==> validated(start, *submission, world) == (match step {
                    IntakeStep::Validate { .. } => validated(
                        state.queue@,
                        *submission,
                        world,
                    ),
                    IntakeStep::Fetch => (state.queue@, None::<Rejection>),
                    IntakeStep::Rejected(rejection) => (state.queue@, Some(rejection)),
                }),
        ensures
            !(step is Validate),
        decreases
                state.queue@.len(),
                (if step is Validate {
                    1nat
                } else {
                    0nat
                }),
    {
        match step {
            IntakeStep::Validate { message } => {
                let ghost before = state.queue@;
                let outcome = lookup(message);
                step = on_lookup(state, submission, outcome);
                proof {
                    assert(state.queue@ == start.take(state.queue@.len() as int)) by {
                        if state.queue@ != before {
                            assert(state.queue@ == before.drop_last());
                        }
                    }
                    assert forall|world: World| #[trigger] answers_as(lookup, world) implies validated(
                        start,
                        *submission,
                        world,
                    ) == (match step {
                        IntakeStep::Validate { .. } => validated(
                            state.queue@,
                            *submission,
                            world,
                        ),
                        IntakeStep::Fetch => (state.queue@, None::<Rejection>),
                        IntakeStep::Rejected(rejection) => (state.queue@, Some(rejection)),
                    }) by {
                        assert(outcome == world(message));
                        assert(message == before.last().message);
                    }
                }
            },
            _ => {
                break ;
            },
        }
    }
    match step {
        IntakeStep::Rejected(rejection) => {
            proof {
                assert forall|world: World| #[trigger] answers_as(lookup, world) implies can_submit(
                    fetch,
                    start,
                    schedule@,
                    *submission,
                    now,
                    world,
                    state.queue@,
                    Err::<Timestamp, Rejection>(rejection),
                ) by {
                    assert(explains_submit(
                        fetch,
                        start,
                        schedule@,
                        *submission,
                        now,
                        world,
                        state.queue@,
                        Err::<Timestamp, Rejection>(rejection),
                        None,
                        false,
                    ));
                }
            }
            Err(rejection)
        },
        _ => {
            let ghost kept = state.queue@;
            let payload = fetch();
            let ghost got = payload;
            let r = finish(state, schedule, submission, now, payload);
            let ghost usable = choose|usable: bool|
                judges(got, usable) && #[trigger] finish_spec(
                    kept,
                    schedule@,
                    *submission,
                    now,
                    outcome_of(got, usable),
                ) == (state.queue@, r);
            proof {
                if r is Ok {
                    assert(state.queue@.drop_last() == kept);
                }
                assert forall|world: World| #[trigger] answers_as(lookup, world) implies can_submit(
                    fetch,
                    start,
                    schedule@,
                    *submission,
                    now,
                    world,
                    state.queue@,
                    r,
                ) by {
                    assert(validated(start, *submission, world) == (kept, None::<Rejection>));
                    assert(explains_submit(
                        fetch,
                        start,
                        schedule@,
                        *submission,
                        now,
                        world,
                        state.queue@,
                        r,
                        got,
                        usable,
                    ));
                }
            }
            r
        },
    }
}

/// Validation keeps a front part of the queue: what it drops are the
/// newest entries, each with a message that is gone, and the newest entry
/// that it keeps is not one of those.
pub proof fn lemma_validated_keeps_front(queue: Seq<Update>, submission: Submission, world: World)
    ensures
        ({
            let kept = validated(queue, submission, world).0;
            &&& kept.len() <= queue.len()
            &&& kept == queue.take(kept.len() as int)
            &&& forall|i: int|
                kept.len() <= i < queue.len() ==> world(#[trigger] queue[i].message)
                    is NotFound
            &&& kept.len() > 0 ==> !(world(kept.last().message) is NotFound)
        }),
    decreases queue.len(),
{
    if queue.len() > 0 {
        if world(queue.last().message) is NotFound {
            let rest = queue.drop_last();
            lemma_validated_keeps_front(rest, submission, world);
            let kept = validated(rest, submission, world).0;
            assert(validated(queue, submission, world).0 == kept);
            assert(kept == queue.take(kept.len() as int));
            assert forall|i: int| kept.len() <= i < queue.len() implies world(
                #[trigger] queue[i].message,
            ) is NotFound by {
                if i < rest.len() {
                    assert(rest[i] == queue[i]);
                }
            }
        } else {
            assert(queue == queue.take(queue.len() as int));
        }
    } else {
        assert(queue == queue.take(0));
    }
}

/// After an intake the queue holds a front part of what it held before,
/// followed by the new entry if and only if the submission was accepted: a
/// refused submission never appears, and an accepted one is last.
pub proof fn lemma_submit_appends_only_accepted(
    queue: Seq<Update>,
    expr: Seq<char>,
    submission: Submission,
    now: Timestamp,
    world: World,
    download: Option<bool>,
)
    ensures
        ({
            let (after, verdict) = submit_spec(queue, expr, submission, now, world, download);
            let kept = if verdict is Ok {
                after.drop_last()
            } else {
                after
            };
            &&& verdict is Ok ==> after.len() > 0 && after.last() == submission.entry()
            &&& kept.len() <= queue.len()
            &&& kept == queue.take(kept.len() as int)
            &&& forall|i: int|
                kept.len() <= i < queue.len() ==> world(#[trigger] queue[i].message)
                    is NotFound
        }),
{
    lemma_validated_keeps_front(queue, submission, world);
    let (after, verdict) = submit_spec(queue, expr, submission, now, world, download);
    if count_verdict(submission.images) is Some {
        assert(queue == queue.take(queue.len() as int));
    } else {
        let kept = validated(queue, submission, world).0;
        if verdict is Ok {
            assert(after == kept.push(submission.entry()));
            assert(after.drop_last() == kept);
        }
    }
}

/// A second submission by the user whose submission was just accepted is
/// refused as a duplicate when the first message still exists and the
/// second was sent less than the cooldown after it; the queue stays as the
/// first submission left it.
pub proof fn lemma_resubmission_within_cooldown_is_refused(
    queue: Seq<Update>,
    expr: Seq<char>,
    first: Submission,
    first_now: Timestamp,
    first_world: World,
    first_download: Option<bool>,
    second: Submission,
    second_now: Timestamp,
    second_world: World,
    second_download: Option<bool>,
)
    requires
        submit_spec(queue, expr, first, first_now, first_world, first_download).1 is Ok,
        second.user == first.user,
        second.images == 1,
        second_world(first.message) matches Lookup::Found { author, sent_at, .. }
            && author == first.user && sent_at == first.sent_at,
        in_cooldown(first.sent_at, second.sent_at),
    ensures
        ({
            let between = submit_spec(queue, expr, first, first_now, first_world, first_download).0;
            submit_spec(between, expr, second, second_now, second_world, second_download) == (
                between,
                Err::<Timestamp, Rejection>(Rejection::DuplicateWithinCooldown),
            )
        }),
{
    lemma_submit_appends_only_accepted(queue, expr, first, first_now, first_world, first_download);
}

/// A second submission by the user whose submission was just accepted
/// passes the cooldown when the first message still exists and the second
/// was sent the cooldown or more after it: what comes of it is decided by
/// the image and the schedule alone, and a usable image for which the
/// schedule has an occurrence is queued behind the first.
pub proof fn lemma_resubmission_after_cooldown_is_accepted(
    queue: Seq<Update>,
    expr: Seq<char>,
    first: Submission,
    first_now: Timestamp,
    first_world: World,
    first_download: Option<bool>,
    second: Submission,
    second_now: Timestamp,
    second_world: World,
    usable: bool,
)
    requires
        submit_spec(queue, expr, first, first_now, first_world, first_download).1 is Ok,
        second.user == first.user,
        second.images == 1,
        second_world(first.message) matches Lookup::Found { author, sent_at, .. }
            && author == first.user && sent_at == first.sent_at,
        second.sent_at@ - first.sent_at@ >= COOLDOWN_NANOS as int,
    ensures
        ({
            let between = submit_spec(queue, expr, first, first_now, first_world, first_download).0;
            let (after, verdict) = submit_spec(
                between,
                expr,
                second,
                second_now,
                second_world,
                Some(usable),
            );
            &&& (after, verdict) == conclude_spec(between, expr, second, second_now, usable)
            &&& usable && ScheduleSerde::occurrence(
                expr,
                second_now,
                between.len() as usize,
            )
                is Some ==> verdict is Ok && after == between.push(second.entry())
        }),
{
    lemma_submit_appends_only_accepted(queue, expr, first, first_now, first_world, first_download);
}

/// A newest entry whose message is gone is dropped before anything is
/// decided: the intake goes as it would on the queue without that entry.
/// When it was the only entry no cooldown applies, whoever submits.
pub proof fn lemma_stale_newest_entry_is_skipped(
    queue: Seq<Update>,
    expr: Seq<char>,
    submission: Submission,
    now: Timestamp,
    world: World,
    download: Option<bool>,
)
    requires
        queue.len() > 0,
        world(queue.last().message) is NotFound,
        submission.images == 1,
    ensures
        submit_spec(queue, expr, submission, now, world, download) == submit_spec(
            queue.drop_last(),
            expr,
            submission,
            now,
            world,
            download,
        ),
        queue.len() == 1 ==> !(submit_spec(queue, expr, submission, now, world, download).1
            == Err::<Timestamp, Rejection>(Rejection::DuplicateWithinCooldown)),
        queue.len() == 1 ==> submit_spec(queue, expr, submission, now, world, download)
            == finish_spec(Seq::empty(), expr, submission, now, download),
{
    let rest = queue.drop_last();
    assert(on_lookup_spec(queue, submission, world(queue.last().message)).0 == rest);
    if queue.len() == 1 {
        assert(rest == Seq::<Update>::empty());
    }
}

/// A message with one image that is downloaded and usable, on which no
/// cooldown applies and for which the schedule has an occurrence, is
/// accepted: its entry is queued last, behind the front part of the queue
/// that validation kept, and it is due at that occurrence.
pub proof fn lemma_usable_submission_is_queued_last(
    queue: Seq<Update>,
    expr: Seq<char>,
    submission: Submission,
    now: Timestamp,
    world: World,
)
    requires
        submission.images == 1,
        validated(queue, submission, world).1 is None,
        ScheduleSerde::occurrence(
            expr,
            now,
            validated(queue, submission, world).0.len() as usize,
        ) is Some,
    ensures
        ({
            let kept = validated(queue, submission, world).0;
            let due = ScheduleSerde::occurrence(expr, now, kept.len() as usize)->0;
            &&& submit_spec(queue, expr, submission, now, world, Some(true)) == (
                kept.push(submission.entry()),
                Ok::<Timestamp, Rejection>(due),
            )
            &&& kept.len() <= queue.len()
            &&& kept == queue.take(kept.len() as int)
            &&& forall|i: int|
                kept.len() <= i < queue.len() ==> world(#[trigger] queue[i].message)
                    is NotFound
        }),
{
    lemma_validated_keeps_front(queue, submission, world);
}

/// A message that is refused adds nothing: the queue is left with a front
/// part of what it held, and what is missing are newest entries whose
/// messages are gone.
pub proof fn lemma_refused_submission_adds_nothing(
    queue: Seq<Update>,
    expr: Seq<char>,
    submission: Submission,
    now: Timestamp,
    world: World,
    download: Option<bool>,
)
    requires
        submit_spec(queue, expr, submission, now, world, download).1 is Err,
    ensures
        ({
            let after = submit_spec(queue, expr, submission, now, world, download).0;
            &&& after.len() <= queue.len()
            &&& after == queue.take(after.len() as int)
            &&& forall|i: int|
                after.len() <= i < queue.len() ==> world(#[trigger] queue[i].message)
                    is NotFound
        }),
{
    lemma_submit_appends_only_accepted(queue, expr, submission, now, world, download);
}

} // verus!
