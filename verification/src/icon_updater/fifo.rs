//! The order of the queue over any number of intakes.
use crate::icon_updater::intake::lemma_submit_appends_only_accepted;
use crate::icon_updater::intake::submit_spec;
use crate::icon_updater::intake::Rejection;
use crate::icon_updater::intake::Submission;
use crate::icon_updater::message::Lookup;
use crate::icon_updater::message::World;
use crate::icon_updater::state::Timestamp;
use crate::icon_updater::state::Update;
use vstd::prelude::*;

verus! {

/// What `world` answers when `message` is looked up.
pub open spec fn answer(world: World, message: u64) -> Lookup {
    world(message)
}

/// Whether `world` reports no message as gone.
pub open spec fn nothing_gone(world: World) -> bool {
    forall|message: u64| !(#[trigger] answer(world, message) is NotFound)
}

/// One intake and everything that decides it besides the queue.
pub struct Attempt {
    /// What was submitted.
    pub submission: Submission,
    /// When the intake was concluded.
    pub now: Timestamp,
    /// What lookups answered during the intake.
    pub world: World,
    /// What came of the download: nothing, when it failed, or whether the
    /// image was usable.
    pub download: Option<bool>,
}

impl Attempt {
    /// The queue that the intake leaves and its verdict.
    pub open spec fn run(self, queue: Seq<Update>, expr: Seq<char>) -> (
        Seq<Update>,
        Result<Timestamp, Rejection>,
    ) {
        submit_spec(queue, expr, self.submission, self.now, self.world, self.download)
    }
}

/// The queue after the intakes `attempts`, one after the other.
pub open spec fn queue_after(queue: Seq<Update>, expr: Seq<char>, attempts: Seq<Attempt>) -> Seq<
    Update,
>
    decreases attempts.len(),
{
    if attempts.len() == 0 {
        queue
    } else {
        queue_after(attempts[0].run(queue, expr).0, expr, attempts.skip(1))
    }
}

/// The entries of the submissions among `attempts` that were accepted, in
/// the order in which they were submitted.
pub open spec fn accepted(queue: Seq<Update>, expr: Seq<char>, attempts: Seq<Attempt>) -> Seq<
    Update,
>
    decreases attempts.len(),
{
    if attempts.len() == 0 {
        Seq::empty()
    } else {
        let (next, verdict) = attempts[0].run(queue, expr);
        let later = accepted(next, expr, attempts.skip(1));
        if verdict is Ok {
            seq![attempts[0].submission.entry()] + later
        } else {
            later
        }
    }
}

/// Whether `a` is `b` with some items left out: the items of `a` occur in
/// `b`, in the same order.
pub open spec fn is_subsequence<T>(a: Seq<T>, b: Seq<T>) -> bool
    decreases b.len(),
{
    if a.len() == 0 {
        true
    } else if b.len() == 0 {
        false
    } else {
        (a.last() == b.last() && is_subsequence(a.drop_last(), b.drop_last())) || is_subsequence(
            a,
            b.drop_last(),
        )
    }
}

/// A front part of a sequence is a subsequence of it.
pub proof fn lemma_front_is_subsequence<T>(s: Seq<T>, k: int)
    requires
        0 <= k <= s.len(),
    ensures
        is_subsequence(s.take(k), s),
    decreases s.len(),
{
    if k > 0 {
        if k == s.len() {
            assert(s.take(k) == s);
            lemma_front_is_subsequence(s.drop_last(), k - 1);
            assert(s.drop_last().take(k - 1) == s.drop_last());
        } else {
            lemma_front_is_subsequence(s.drop_last(), k);
            assert(s.drop_last().take(k) == s.take(k));
        }
    }
}

/// Appending the same items to both keeps one a subsequence of the other.
pub proof fn lemma_subsequence_append<T>(a: Seq<T>, b: Seq<T>, tail: Seq<T>)
    requires
        is_subsequence(a, b),
    ensures
        is_subsequence(a + tail, b + tail),
    decreases tail.len(),
{
    if tail.len() == 0 {
        assert(a + tail == a);
        assert(b + tail == b);
    } else {
        lemma_subsequence_append(a, b, tail.drop_last());
        assert((a + tail).drop_last() == a + tail.drop_last());
        assert((b + tail).drop_last() == b + tail.drop_last());
        assert((a + tail).last() == (b + tail).last());
    }
}

/// A subsequence of a subsequence is a subsequence.
pub proof fn lemma_subsequence_transitive<T>(a: Seq<T>, b: Seq<T>, c: Seq<T>)
    requires
        is_subsequence(a, b),
        is_subsequence(b, c),
    ensures
        is_subsequence(a, c),
    decreases c.len(),
{
    if a.len() > 0 {
        if is_subsequence(b, c.drop_last()) {
            lemma_subsequence_transitive(a, b, c.drop_last());
        } else if a.last() == b.last() && is_subsequence(a.drop_last(), b.drop_last()) {
            lemma_subsequence_transitive(a.drop_last(), b.drop_last(), c.drop_last());
        } else {
            lemma_subsequence_transitive(a, b.drop_last(), c.drop_last());
        }
    }
}

/// What one intake leaves is what it found, with the newest entries that it
/// dropped left out, followed by the new entry if it was accepted.
proof fn lemma_attempt_shape(queue: Seq<Update>, expr: Seq<char>, attempt: Attempt)
    ensures
        ({
            let (next, verdict) = attempt.run(queue, expr);
            let new = if verdict is Ok {
                seq![attempt.submission.entry()]
            } else {
                Seq::empty()
            };
            &&& exists|k: int| 0 <= k <= queue.len() && next == #[trigger] queue.take(k) + new
            &&& nothing_gone(attempt.world) ==> next == queue + new
        }),
{
    let (next, verdict) = attempt.run(queue, expr);
    lemma_submit_appends_only_accepted(
        queue,
        expr,
        attempt.submission,
        attempt.now,
        attempt.world,
        attempt.download,
    );
    let kept = if verdict is Ok {
        next.drop_last()
    } else {
        next
    };
    let new = if verdict is Ok {
        seq![attempt.submission.entry()]
    } else {
        Seq::empty()
    };
    assert(next == kept + new);
    assert(next == queue.take(kept.len() as int) + new);
    if nothing_gone(attempt.world) {
        if kept.len() < queue.len() {
            assert(answer(attempt.world, queue[kept.len() as int].message) is NotFound);
        }
        assert(queue.take(queue.len() as int) == queue);
    }
}

/// Over any run of intakes the queue holds nothing but entries that it held
/// at the start and entries of accepted submissions, the former before the
/// latter and each group in its own order: a refused submission never
/// appears, and no entry overtakes another.
pub proof fn lemma_queue_is_fifo_of_accepted(
    queue: Seq<Update>,
    expr: Seq<char>,
    attempts: Seq<Attempt>,
)
    ensures
        is_subsequence(queue_after(queue, expr, attempts), queue + accepted(queue, expr, attempts)),
    decreases attempts.len(),
{
    if attempts.len() == 0 {
        assert(queue + Seq::<Update>::empty() == queue);
        lemma_front_is_subsequence(queue, queue.len() as int);
        assert(queue.take(queue.len() as int) == queue);
    } else {
        let (next, verdict) = attempts[0].run(queue, expr);
        let new = if verdict is Ok {
            seq![attempts[0].submission.entry()]
        } else {
            Seq::empty()
        };
        let later = accepted(next, expr, attempts.skip(1));
        lemma_attempt_shape(queue, expr, attempts[0]);
        let k = choose|k: int| 0 <= k <= queue.len() && next == #[trigger] queue.take(k) + new;
        lemma_queue_is_fifo_of_accepted(next, expr, attempts.skip(1));
        lemma_front_is_subsequence(queue, k);
        lemma_subsequence_append(queue.take(k), queue, new);
        lemma_subsequence_append(next, queue + new, later);
        assert(accepted(queue, expr, attempts) == new + later);
        assert((queue + new) + later == queue + (new + later));
        lemma_subsequence_transitive(
            queue_after(next, expr, attempts.skip(1)),
            next + later,
            queue + accepted(queue, expr, attempts),
        );
    }
}

/// As long as no lookup reports a message gone, the queue is what it was at
/// the start followed by the entries of the accepted submissions, in the
/// order in which they were submitted.
pub proof fn lemma_queue_grows_by_accepted(
    queue: Seq<Update>,
    expr: Seq<char>,
    attempts: Seq<Attempt>,
)
    requires
        forall|i: int| 0 <= i < attempts.len() ==> nothing_gone(#[trigger] attempts[i].world),
    ensures
        queue_after(queue, expr, attempts) == queue + accepted(queue, expr, attempts),
    decreases attempts.len(),
{
    if attempts.len() == 0 {
        assert(queue + Seq::<Update>::empty() == queue);
    } else {
        let (next, verdict) = attempts[0].run(queue, expr);
        let new = if verdict is Ok {
            seq![attempts[0].submission.entry()]
        } else {
            Seq::empty()
        };
        let later = accepted(next, expr, attempts.skip(1));
        lemma_attempt_shape(queue, expr, attempts[0]);
        assert(nothing_gone(attempts[0].world));
        assert forall|i: int| 0 <= i < attempts.skip(1).len() implies nothing_gone(
            #[trigger] attempts.skip(1)[i].world,
        ) by {
            assert(attempts.skip(1)[i] == attempts[i + 1]);
        }
        lemma_queue_grows_by_accepted(next, expr, attempts.skip(1));
        assert(accepted(queue, expr, attempts) == new + later);
        assert((queue + new) + later == queue + (new + later));
    }
}

} // verus!
