//! The data held for each server: settings, queue and timestamps.
use std::collections::HashMap;
use std::collections::VecDeque;
use vstd::prelude::*;

verus! {

/// Nanoseconds in one second.
pub const NANOS_PER_SEC: i128 = 1_000_000_000;

/// A point in time: whole seconds since the Unix epoch plus a nanosecond part.
#[derive(Clone, Copy, Debug, PartialEq, Eq, Structural)]
pub struct Timestamp {
    pub secs: i64,
    pub nanos: u32,
}

impl View for Timestamp {
    type V = int;

    /// The instant as nanoseconds since the Unix epoch.
    open spec fn view(&self) -> int {
        self.secs as int * 1_000_000_000 + self.nanos as int
    }
}

impl Timestamp {
    /// The Unix epoch itself.
    pub fn epoch() -> (t: Timestamp)
        ensures
            t == (Timestamp { secs: 0, nanos: 0 }),
            t@ == 0,
    {
        Timestamp { secs: 0, nanos: 0 }
    }

    /// The instant as nanoseconds since the Unix epoch.
    pub fn total_nanos(&self) -> (n: i128)
        ensures
            n == self@,
    {
        let s: i128 = self.secs as i128;
        let n: i128 = self.nanos as i128;
        s * NANOS_PER_SEC + n
    }

    /// The instant one nanosecond earlier.
    pub open spec fn just_before(self) -> Timestamp {
        if self.nanos > 0 {
            Timestamp { secs: self.secs, nanos: (self.nanos - 1) as u32 }
        } else {
            Timestamp { secs: (self.secs - 1) as i64, nanos: 999_999_999 }
        }
    }

    /// Whether `self` lies strictly after `other`.
    pub fn is_after(&self, other: &Timestamp) -> (b: bool)
        ensures
            b == (self@ > other@),
    {
        self.total_nanos() > other.total_nanos()
    }
}

/// The furthest from the epoch, in seconds either way, that a schedule is
/// asked about.
pub const MAX_ABS_SECS: i64 = 8_000_000_000_000;

/// The error with which the `cron` crate refuses an expression.
#[verifier::external_type_specification]
#[verifier::external_body]
pub struct ExCronError(cron::error::Error);

/// Whether `cron::Schedule::from_str` accepts the expression.
pub uninterp spec fn cron_valid(expr: Seq<char>) -> bool;

/// What the iterator of `cron::Schedule::after` yields first for the
/// schedule parsed from `expr`, with the start and the result given as
/// seconds and nanoseconds since the Unix epoch.
pub uninterp spec fn cron_next(expr: Seq<char>, secs: i64, nanos: u32) -> Option<(i64, u32)>;

/// Calls `cron::Schedule::from_str` and hands back the text of the schedule
/// it built. The crate keeps the expression it was given as the schedule's
/// text, so on success the text is the expression itself; it fails exactly
/// on the expressions that its grammar refuses.
#[verifier::external_body]
fn cron_parse(expr: &str) -> (r: Result<String, cron::error::Error>)
    ensures
        r is Ok <==> cron_valid(expr@),
        r matches Ok(text) ==> text@ == expr@,
{
    <cron::Schedule as std::str::FromStr>::from_str(expr).map(|schedule| schedule.to_string())
}

/// Calls `cron::Schedule::after` on the schedule that `expr` parses to and
/// takes the iterator's first item. The crate looks for it from one second
/// past the start onward, so the start must be an instant that `chrono` can
/// represent, with a second to spare.
#[verifier::external_body]
fn cron_next_after(expr: &str, secs: i64, nanos: u32) -> (r: Option<(i64, u32)>)
    requires
        cron_valid(expr@),
        -MAX_ABS_SECS - 1 <= secs <= MAX_ABS_SECS,
        nanos < 1_000_000_000,
    ensures
        r == cron_next(expr@, secs, nanos),
{
    let schedule = <cron::Schedule as std::str::FromStr>::from_str(expr).ok()?;
    let start = chrono::DateTime::from_timestamp(secs, nanos)?;
    schedule.after(&start).next().map(|t| (t.timestamp(), t.timestamp_subsec_nanos()))
}

/// Why a schedule expression was refused.
#[derive(Clone, Copy, Debug, PartialEq, Eq, Structural)]
pub enum ScheduleError {
    /// The expression is not a cron expression.
    Invalid,
}

/// A recurrence rule, kept as the cron expression it was parsed from.
#[derive(Debug, PartialEq, Eq)]
pub struct ScheduleSerde {
    expr: String,
}

impl View for ScheduleSerde {
    type V = Seq<char>;

    /// The cron expression.
    closed spec fn view(&self) -> Seq<char> {
        self.expr@
    }
}

impl ScheduleSerde {
    #[verifier::type_invariant]
    closed spec fn parses(&self) -> bool {
        cron_valid(self.expr@)
    }

    /// Whether `from` is an instant that occurrences are computed from.
    pub open spec fn in_calendar(from: Timestamp) -> bool {
        -MAX_ABS_SECS <= from.secs <= MAX_ABS_SECS && from.nanos < 1_000_000_000
    }

    /// What is made of the cron iterator's answer for the start `start`: it
    /// is taken as the occurrence if it is a whole second later than the
    /// second that `start` falls in, as every occurrence is.
    pub open spec fn taken(start: Timestamp, answer: Option<(i64, u32)>) -> Option<Timestamp> {
        match answer {
            Some((secs, nanos)) => if secs > start.secs && nanos == 0 {
                Some(Timestamp { secs, nanos })
            } else {
                None
            },
            None => None,
        }
    }

    /// The first occurrence of the expression `expr` after `start`: what is
    /// made of what the cron iterator yields first.
    pub open spec fn step(expr: Seq<char>, start: Timestamp) -> Option<Timestamp> {
        if -MAX_ABS_SECS - 1 <= start.secs <= MAX_ABS_SECS && start.nanos < 1_000_000_000 {
            Self::taken(start, cron_next(expr, start.secs, start.nanos))
        } else {
            None
        }
    }

    /// The occurrence of `expr` after `start` that has `n` others before
    /// it: each is the first one after the one before.
    pub open spec fn nth_after(expr: Seq<char>, start: Timestamp, n: nat) -> Option<Timestamp>
        decreases n,
    {
        match Self::step(expr, start) {
            None => None,
            Some(at) => if n == 0 {
                Some(at)
            } else {
                Self::nth_after(expr, at, (n - 1) as nat)
            },
        }
    }

    /// The occurrence of the expression `expr` that has `n` others between
    /// `from` and itself, if there is one: position `n`, counted from zero,
    /// among the occurrences at or after `from`. The search starts a
    /// nanosecond before `from`, so that an occurrence at `from` itself
    /// counts.
    pub open spec fn occurrence(expr: Seq<char>, from: Timestamp, n: usize) -> Option<Timestamp> {
        if Self::in_calendar(from) {
            Self::nth_after(expr, from.just_before(), n as nat)
        } else {
            None
        }
    }

    /// An occurrence after `start` is a whole second, later than the second
    /// that `start` falls in.
    pub proof fn lemma_nth_after_is_later(expr: Seq<char>, start: Timestamp, n: nat)
        ensures
            Self::nth_after(expr, start, n) matches Some(at) ==> at.secs > start.secs && at.nanos
                == 0,
        decreases n,
    {
        if n > 0 && Self::step(expr, start) is Some {
            Self::lemma_nth_after_is_later(expr, Self::step(expr, start)->0, (n - 1) as nat);
        }
    }

    /// The occurrence at a position is the first one after the occurrence
    /// at the position before.
    pub proof fn lemma_nth_after_steps(expr: Seq<char>, start: Timestamp, n: nat)
        ensures
            Self::nth_after(expr, start, n + 1) == (match Self::nth_after(expr, start, n) {
                None => None,
                Some(at) => Self::step(expr, at),
            }),
        decreases n,
    {
        if Self::step(expr, start) is Some {
            let at = Self::step(expr, start)->0;
            if n > 0 {
                Self::lemma_nth_after_steps(expr, at, (n - 1) as nat);
            } else {
                assert(Self::nth_after(expr, at, 0) == Self::step(expr, at));
            }
        }
    }

    /// Occurrences ascend: where there is one at a position, there is one at
    /// the position before, and it is earlier.
    pub proof fn lemma_occurrences_ascend(expr: Seq<char>, from: Timestamp, n: usize)
        requires
            n < usize::MAX,
        ensures
            Self::occurrence(expr, from, (n + 1) as usize) matches Some(later) ==> (Self::occurrence(
                expr,
                from,
                n,
            ) matches Some(earlier) && later@ > earlier@),
    {
        if Self::in_calendar(from) {
            Self::lemma_nth_after_steps(expr, from.just_before(), n as nat);
            if Self::nth_after(expr, from.just_before(), n as nat) is Some {
                let earlier = Self::nth_after(expr, from.just_before(), n as nat)->0;
                Self::lemma_nth_after_is_later(expr, from.just_before(), n as nat);
                if Self::step(expr, earlier) is Some {
                    let later = Self::step(expr, earlier)->0;
                    assert(later.secs > earlier.secs && later.nanos == 0);
                    assert(later@ > earlier@) by (nonlinear_arith)
                        requires
                            later.secs > earlier.secs,
                            later.nanos == 0,
                            earlier.nanos == 0,
                            later@ == later.secs as int * 1_000_000_000 + later.nanos as int,
                            earlier@ == earlier.secs as int * 1_000_000_000 + earlier.nanos as int,
                    ;
                }
            }
        }
    }

    /// Parses a cron expression.
    pub fn from_str(s: &str) -> (r: Result<ScheduleSerde, ScheduleError>)
        ensures
            r is Ok <==> cron_valid(s@),
            r matches Ok(schedule) ==> schedule@ == s@,
            r matches Err(e) ==> e == ScheduleError::Invalid,
    {
        match cron_parse(s) {
            Ok(text) => Ok(ScheduleSerde { expr: text }),
            Err(_) => Err(ScheduleError::Invalid),
        }
    }

    /// The cron expression.
    pub fn as_str(&self) -> (s: &str)
        ensures
            s@ == self@,
    {
        self.expr.as_str()
    }

    /// Makes an occurrence of the cron iterator's answer for the start
    /// `start`, given as seconds and nanoseconds since the Unix epoch: the
    /// answer is taken if it is a whole second later than the second that
    /// `start` falls in.
    pub fn take_occurrence(start: Timestamp, answer: Option<(i64, u32)>) -> (r: Option<Timestamp>)
        ensures
            r == Self::taken(start, answer),
    {
        match answer {
            Some((secs, nanos)) => if secs > start.secs && nanos == 0 {
                Some(Timestamp { secs, nanos })
            } else {
                None
            },
            None => None,
        }
    }

    /// The first occurrence after `start`.
    fn next_after(&self, start: Timestamp) -> (r: Option<Timestamp>)
        ensures
            r == Self::step(self@, start),
    {
        proof {
            use_type_invariant(self);
        }
        if start.secs < -MAX_ABS_SECS - 1 || start.secs > MAX_ABS_SECS || start.nanos
            >= 1_000_000_000 {
            return None;
        }
        Self::take_occurrence(start, cron_next_after(self.expr.as_str(), start.secs, start.nanos))
    }

    /// The occurrence that has `n` others between `from` and itself:
    /// position `n`, counted from zero, among the occurrences at or after
    /// `from`. There is none once the schedule has run out, and none for
    /// an instant outside the calendar.
    pub fn next_n(&self, from: Timestamp, n: usize) -> (r: Option<Timestamp>)
        ensures
            r == Self::occurrence(self@, from, n),
            r matches Some(at) ==> at@ >= from@ && at.nanos == 0,
    {
        if from.secs < -MAX_ABS_SECS || from.secs > MAX_ABS_SECS || from.nanos >= 1_000_000_000 {
            return None;
        }
        let start = if from.nanos > 0 {
            Timestamp { secs: from.secs, nanos: from.nanos - 1 }
        } else {
            Timestamp { secs: from.secs - 1, nanos: 999_999_999 }
        };
        proof {
            Self::lemma_nth_after_is_later(self@, start, n as nat);
        }
        let mut at = start;
        let mut left = n;
        loop
            invariant
                Self::in_calendar(from),
                start == from.just_before(),
                Self::nth_after(self@, start, n as nat) matches Some(last) ==> last.secs
                    > start.secs && last.nanos == 0,
                Self::nth_after(self@, start, n as nat) == Self::nth_after(self@, at, left as nat),
            decreases left,
        {
            match self.next_after(at) {
                None => {
                    return None;
                },
                Some(found) => {
                    if left == 0 {
                        return Some(found);
                    }
                    at = found;
                    left = left - 1;
                },
            }
        }
    }
}

impl Clone for ScheduleSerde {
    fn clone(&self) -> (r: Self)
        ensures
            r@ == self@,
    {
        proof {
            use_type_invariant(self);
        }
        ScheduleSerde { expr: self.expr.clone() }
    }
}

/// One queued submission: the message that holds the image and its author.
#[derive(Clone, Copy, Debug, PartialEq, Eq, Structural)]
pub struct Update {
    pub message: u64,
    pub user: u64,
}

/// The configuration of one server.
#[derive(Debug, PartialEq, Eq)]
pub struct ServerSettings {
    /// The channel in which submissions are accepted.
    pub channel: u64,
    /// When queued icons are due.
    pub schedule: ScheduleSerde,
}

impl Clone for ServerSettings {
    fn clone(&self) -> (r: Self)
        ensures
            r.channel == self.channel,
            r.schedule@ == self.schedule@,
    {
        ServerSettings { channel: self.channel, schedule: self.schedule.clone() }
    }
}

/// What a server's state is, as plain values.
pub struct ServerStateView {
    pub next_update: Timestamp,
    pub queue: Seq<Update>,
}

/// The mutable record of one server: the pending submissions, oldest first,
/// and the instant after which the next icon may be applied.
#[derive(Debug, PartialEq, Eq)]
pub struct ServerState {
    pub next_update: Timestamp,
    pub queue: VecDeque<Update>,
}

impl View for ServerState {
    type V = ServerStateView;

    open spec fn view(&self) -> ServerStateView {
        ServerStateView { next_update: self.next_update, queue: self.queue@ }
    }
}

impl ServerStateView {
    /// The state of a server that has not been touched yet.
    pub open spec fn initial() -> ServerStateView {
        ServerStateView { next_update: Timestamp { secs: 0, nanos: 0 }, queue: Seq::empty() }
    }
}

impl Default for ServerState {
    fn default() -> (r: Self)
        ensures
            r@ == ServerStateView::initial(),
    {
        ServerState { next_update: Timestamp::epoch(), queue: VecDeque::new() }
    }
}

impl Clone for ServerState {
    fn clone(&self) -> (r: Self)
        ensures
            r@ == self@,
    {
        let mut queue: VecDeque<Update> = VecDeque::new();
        let mut i: usize = 0;
        while i < self.queue.len()
            invariant
                i <= self.queue@.len(),
                queue@ == self.queue@.take(i as int),
            decreases self.queue@.len() - i,
        {
            queue.push_back(self.queue[i]);
            i = i + 1;
        }
        assert(self.queue@.take(self.queue@.len() as int) == self.queue@);
        ServerState { next_update: self.next_update, queue }
    }
}

/// What a server's settings are, as plain values.
pub struct ServerSettingsView {
    pub channel: u64,
    pub schedule: Seq<char>,
}

impl View for ServerSettings {
    type V = ServerSettingsView;

    open spec fn view(&self) -> ServerSettingsView {
        ServerSettingsView { channel: self.channel, schedule: self.schedule@ }
    }
}

/// What is kept of the servers between runs, as plain values.
pub struct StateView {
    pub settings: Map<u64, ServerSettingsView>,
    pub state: Map<u64, ServerStateView>,
}

/// The settings in a map of servers, as plain values.
pub open spec fn settings_view(settings: Map<u64, ServerSettings>) -> Map<u64, ServerSettingsView> {
    settings.map_values(|s: ServerSettings| s@)
}

/// The states in a map of servers, as plain values.
pub open spec fn states_view(states: Map<u64, ServerState>) -> Map<u64, ServerStateView> {
    states.map_values(|s: ServerState| s@)
}

/// What is kept of the servers between runs: the settings and the state of
/// each, by server.
#[derive(Debug, PartialEq, Eq)]
pub struct State {
    pub settings: HashMap<u64, ServerSettings>,
    pub state: HashMap<u64, ServerState>,
}

impl View for State {
    type V = StateView;

    open spec fn view(&self) -> StateView {
        StateView {
            settings: settings_view(self.settings@),
            state: states_view(self.state@),
        }
    }
}

impl Default for State {
    fn default() -> (r: Self)
        ensures
            r@.settings == Map::<u64, ServerSettingsView>::empty(),
            r@.state == Map::<u64, ServerStateView>::empty(),
    {
        let r = State { settings: HashMap::new(), state: HashMap::new() };
        assert(r@.settings =~= Map::<u64, ServerSettingsView>::empty());
        assert(r@.state =~= Map::<u64, ServerStateView>::empty());
        r
    }
}

} // verus!
