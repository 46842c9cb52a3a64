//! The icon updater: one submission queue per server, drained on a schedule.
use crate::icon_updater::intake::can_submit;
use crate::icon_updater::intake::count_verdict;
use crate::icon_updater::intake::is_front_with;
use crate::icon_updater::intake::Rejection;
use crate::icon_updater::intake::Submission;
use crate::icon_updater::message::answers_as;
use crate::icon_updater::message::Lookup;
use crate::icon_updater::message::World;
use crate::icon_updater::state::settings_view;
use crate::icon_updater::state::states_view;
use crate::icon_updater::state::ServerSettings;
use crate::icon_updater::state::ServerSettingsView;
use crate::icon_updater::state::ServerState;
use crate::icon_updater::state::ServerStateView;
use crate::icon_updater::state::State;
use crate::icon_updater::state::StateView;
use crate::icon_updater::state::Timestamp;
use crate::icon_updater::state::Update;
use crate::icon_updater::task::begin_tick_spec;
use crate::icon_updater::task::can_tick;
use crate::icon_updater::task::is_back_part;
use crate::icon_updater::task::TickReport;
use std::collections::HashMap;
use vstd::prelude::*;
use vstd::std_specs::iter::IteratorSpec;

pub mod fifo;
pub mod img;
pub mod intake;
pub mod message;
pub mod state;
pub mod task;

verus! {

broadcast use vstd::std_specs::hash::group_hash_axioms;

/// The name under which the icon updater is registered.
pub const NAME: &'static str = "icon_updater";

/// What the updater holds, as plain values.
pub struct IconUpdaterView {
    pub settings: Map<u64, ServerSettingsView>,
    pub state: Map<u64, ServerStateView>,
}

impl IconUpdaterView {
    /// What is kept between runs.
    pub open spec fn snapshot(self) -> StateView {
        StateView { settings: self.settings, state: self.state }
    }
}

impl IconUpdaterView {
    /// The state of a server: what is recorded for it, or the initial
    /// state if it was never touched.
    pub open spec fn state_of(self, guild: u64) -> ServerStateView {
        if self.state.contains_key(guild) {
            self.state[guild]
        } else {
            ServerStateView::initial()
        }
    }

    /// Whether a message in `channel` of `guild` is a submission: the server
    /// is enabled and the channel is the one it takes submissions in.
    pub open spec fn takes(self, guild: Option<u64>, channel: u64) -> bool {
        guild matches Some(id) && self.settings.contains_key(id) && self.settings[id].channel
            == channel
    }
}

impl StateView {
    /// The updater that starts from what was kept.
    pub open spec fn restore(self) -> IconUpdaterView {
        IconUpdaterView { settings: self.settings, state: self.state }
    }
}

/// The settings of the enabled servers and the state of each server that
/// was touched so far.
#[derive(Debug)]
pub struct IconUpdater {
    settings: HashMap<u64, ServerSettings>,
    state: HashMap<u64, ServerState>,
}

impl View for IconUpdater {
    type V = IconUpdaterView;

    closed spec fn view(&self) -> IconUpdaterView {
        IconUpdaterView {
            settings: settings_view(self.settings@),
            state: states_view(self.state@),
        }
    }
}

impl IconUpdater {
    /// The name of the module.
    pub fn name(&self) -> (name: &'static str)
        ensures
            name == NAME,
    {
        NAME
    }

    /// Starts from what was kept of an earlier run, or from nothing.
    pub fn load(state: Option<State>) -> (updater: IconUpdater)
        ensures
            updater@ == (match state {
                Some(kept) => kept@.restore(),
                None => (StateView { settings: Map::empty(), state: Map::empty() }).restore(),
            }),
    {
        let kept = match state {
            Some(kept) => kept,
            None => State::default(),
        };
        IconUpdater { settings: kept.settings, state: kept.state }
    }

    /// What is to be kept of this run.
    pub fn save(&self) -> (kept: State)
        ensures
            kept@ == self@.snapshot(),
    {
        State { settings: self.settings.clone(), state: self.state.clone() }
    }

    /// The enabled servers, each once, in no particular order: one update
    /// task is to run for each.
    pub fn groups(&self) -> (ids: Vec<u64>)
        ensures
            ids@.no_duplicates(),
            ids@.to_set() == self@.settings.dom(),
    {
        let mut ids: Vec<u64> = Vec::new();
        for id in it: self.settings.keys()
            invariant
                ids@ == it.seq().take(it.index()).unref(),
        {
            ids.push(*id);
        }
        proof {
            let keys = self.settings.keys().remaining();
            assert(keys.take(keys.len() as int) == keys);
            assert(ids@ == keys.unref());
            assert(settings_view(self.settings@).dom() =~= self.settings@.dom());
        }
        ids
    }

    /// The settings of a server, if it is enabled.
    pub fn settings_of(&self, guild: u64) -> (r: Option<&ServerSettings>)
        ensures
            r is Some <==> self@.settings.contains_key(guild),
            r matches Some(settings) ==> settings@ == self@.settings[guild],
    {
        self.settings.get(&guild)
    }

    /// The settings under which a message in `channel` of `guild` is taken
    /// as a submission; none if it came from outside any server, from a
    /// server that is not enabled, or in another channel.
    pub fn route(&self, guild: Option<u64>, channel: u64) -> (r: Option<&ServerSettings>)
        ensures
            r is Some <==> self@.takes(guild, channel),
            r matches Some(settings) ==> settings@ == self@.settings[guild->0],
    {
        match guild {
            None => None,
            Some(id) => match self.settings.get(&id) {
                None => None,
                Some(settings) => if settings.channel == channel {
                    Some(settings)
                } else {
                    None
                },
            },
        }
    }

    /// The state of a server, for reading and changing. A server that was
    /// never touched gets the initial state on this occasion.
    pub fn state_mut(&mut self, guild: u64) -> (state: &mut ServerState)
        ensures
            state@ == old(self)@.state_of(guild),
            final(self)@ == (IconUpdaterView {
                settings: old(self)@.settings,
                state: old(self)@.state.insert(guild, final(state)@),
            }),
    {
        proof {
            let before = self.state@;
            assert forall|v: ServerState| #[trigger]
                states_view(before.insert(guild, v)) == states_view(before).insert(guild, v@) by {
                assert(states_view(before.insert(guild, v)) =~= states_view(before).insert(
                    guild,
                    v@,
                ));
            }
        }
        self.state.entry(guild).or_insert(ServerState::default())
    }

    /// Takes a message in `channel` of `guild` as a submission, for a caller
    /// that can wait for the chat service (see `intake::submit`). Nothing
    /// happens, and nothing is returned, unless the server is enabled and
    /// the channel is the one it takes submissions in. No other server's
    /// state is touched.
    pub fn submit<F: Fn(u64) -> Lookup, D: FnOnce() -> Option<Vec<u8>>>(
        &mut self,
        guild: Option<u64>,
        channel: u64,
        submission: &Submission,
        now: Timestamp,
        lookup: F,
        fetch: D,
    ) -> (r: Option<Result<Timestamp, Rejection>>)
        requires
            forall|message: u64| call_requires(lookup, (message,)),
            call_requires(fetch, ()),
        ensures
            r is Some <==> old(self)@.takes(guild, channel),
            r is None ==> final(self)@ == old(self)@,
            r matches Some(verdict) ==> ({
                let id = guild->0;
                let before = old(self)@.state_of(id);
                let after = final(self)@.state_of(id);
                &&& final(self)@.settings == old(self)@.settings
                &&& final(self)@.state == old(self)@.state.insert(id, after)
                &&& after.next_update == before.next_update
                &&& verdict matches Ok(due) ==> due@ >= now@
                &&& is_front_with(after.queue, before.queue, verdict is Ok, submission.entry())
                &&& count_verdict(submission.images) matches Some(rejection) ==> verdict == Err::<
                    Timestamp,
                    Rejection,
                >(rejection) && after.queue == before.queue
                &&& forall|world: World| #[trigger]
                    answers_as(lookup, world) ==> can_submit(
                        fetch,
                        before.queue,
                        old(self)@.settings[id].schedule,
                        *submission,
                        now,
                        world,
                        after.queue,
                        verdict,
                    )
            }),
    {
        let schedule = match self.route(guild, channel) {
            None => {
                return None;
            },
            Some(settings) => settings.schedule.clone(),
        };
        let id = guild.unwrap();
        let state = self.state_mut(id);
        let verdict = intake::submit(state, &schedule, submission, now, lookup, fetch);
        Some(verdict)
    }

    /// Runs an update pass for `guild`, for a caller that can wait for the
    /// chat service (see `task::tick`). No other server's state is
    /// touched.
    pub fn tick<F, D, A>(
        &mut self,
        guild: u64,
        now: Timestamp,
        lookup: F,
        download: D,
        apply: A,
    ) -> (report: TickReport) where
        F: Fn(u64) -> Lookup,
        D: FnOnce(Update) -> Option<Vec<u8>>,
        A: FnOnce(Update, String) -> Option<Timestamp>,

        requires
            forall|message: u64| call_requires(lookup, (message,)),
            forall|update: Update| call_requires(download, (update,)),
            forall|update: Update, icon: String| call_requires(apply, (update, icon)),
        ensures
            final(self)@.settings == old(self)@.settings,
            final(self)@.state == old(self)@.state.insert(guild, final(self)@.state_of(guild)),
            is_back_part(final(self)@.state_of(guild).queue, old(self)@.state_of(guild).queue),
            begin_tick_spec(old(self)@.state_of(guild), now) is Idle ==> final(self)@.state_of(guild)
                == old(self)@.state_of(guild) && report == TickReport::Idle,
            final(self)@.state_of(guild).next_update@ >= old(self)@.state_of(guild).next_update@,
            !(report is Applied) ==> final(self)@.state_of(guild).next_update == old(
                self,
            )@.state_of(guild).next_update,
            forall|answers: World| #[trigger]
                answers_as(lookup, answers) ==> can_tick(
                    download,
                    apply,
                    old(self)@.state_of(guild),
                    now,
                    answers,
                    final(self)@.state_of(guild),
                    report,
                ),
    {
        let state = self.state_mut(guild);
        task::tick(state, now, lookup, download, apply)
    }

    /// Ends the run and hands out what is to be kept of it.
    pub fn shutdown(self) -> (kept: State)
        ensures
            kept@ == self@.snapshot(),
    {
        State { settings: self.settings, state: self.state }
    }
}

/// What was kept of a run is what the next run starts from, and the other
/// way round: saving and loading lose nothing, whatever the order in which
/// the servers are written down.
pub proof fn lemma_save_then_load_is_identity(updater: IconUpdaterView, kept: StateView)
    ensures
        updater.snapshot().restore() == updater,
        kept.restore().snapshot() == kept,
{
}

} // verus!
