//! Queueing and scheduled application of server icon submissions, and the
//! bookkeeping of the bot that runs it.
use vstd::prelude::*;

pub mod data;
pub mod icon_updater;

verus! {

/// The modules that the bot knows how to run.
#[derive(Clone, Copy, Debug, PartialEq, Eq, Structural)]
pub enum ModuleKind {
    /// The icon updater.
    IconUpdater,
}

impl ModuleKind {
    /// The name under which the module is enabled and its state is kept.
    pub open spec fn spec_name(self) -> Seq<char> {
        match self {
            ModuleKind::IconUpdater => icon_updater::NAME@,
        }
    }

    /// The module that goes by `name`, if there is one.
    pub open spec fn named(name: Seq<char>) -> Option<ModuleKind> {
        if name == icon_updater::NAME@ {
            Some(ModuleKind::IconUpdater)
        } else {
            None
        }
    }

    /// The name under which the module is enabled and its state is kept.
    pub fn name(&self) -> (name: &'static str)
        ensures
            name@ == self.spec_name(),
    {
        match self {
            ModuleKind::IconUpdater => icon_updater::NAME,
        }
    }

    /// The module that goes by `name`, if there is one.
    pub fn from_name(name: &String) -> (kind: Option<ModuleKind>)
        ensures
            kind == Self::named(name@),
    {
        let known = String::from_str(icon_updater::NAME);
        if *name == known {
            Some(ModuleKind::IconUpdater)
        } else {
            None
        }
    }
}

/// What the bot keeps between runs, as plain values.
pub struct BotStateView {
    /// The names of the modules to run.
    pub enabled_modules: Set<Seq<char>>,
    /// What each module kept, by the module's name.
    pub module_states: Map<Seq<char>, Seq<char>>,
}

/// The names in a list.
pub open spec fn names_of(names: Seq<String>) -> Set<Seq<char>> {
    Set::new(|name: Seq<char>| exists|i: int| 0 <= i < names.len() && (#[trigger] names[i])@ == name)
}

/// The map that a list of pairs of a name and a state stands for; of two
/// pairs with one name the later counts.
pub open spec fn states_of(pairs: Seq<(String, String)>) -> Map<Seq<char>, Seq<char>>
    decreases pairs.len(),
{
    if pairs.len() == 0 {
        Map::empty()
    } else {
        states_of(pairs.drop_last()).insert(pairs.last().0@, pairs.last().1@)
    }
}

/// Whether no two strings of a list are the same.
pub open spec fn distinct_names(names: Seq<String>) -> bool {
    forall|i: int, j: int| 0 <= i < j < names.len() ==> (#[trigger] names[i])@ != (#[trigger] names[j])@
}

/// Whether no two pairs of a list have the same name.
pub open spec fn distinct_keys(pairs: Seq<(String, String)>) -> bool {
    forall|i: int, j: int|
        0 <= i < j < pairs.len() ==> (#[trigger] pairs[i]).0@ != (#[trigger] pairs[j]).0@
}

/// A name is a key of the map of a list exactly if a pair has it.
proof fn lemma_states_dom(pairs: Seq<(String, String)>, name: Seq<char>)
    ensures
        states_of(pairs).contains_key(name) <==> exists|i: int|
            0 <= i < pairs.len() && (#[trigger] pairs[i]).0@ == name,
    decreases pairs.len(),
{
    if pairs.len() > 0 {
        let front = pairs.drop_last();
        lemma_states_dom(front, name);
        if states_of(pairs).contains_key(name) {
            if pairs.last().0@ == name {
                assert(pairs[pairs.len() - 1].0@ == name);
            } else {
                let i = choose|i: int| 0 <= i < front.len() && (#[trigger] front[i]).0@ == name;
                assert(pairs[i].0@ == name);
            }
        }
        if exists|i: int| 0 <= i < pairs.len() && (#[trigger] pairs[i]).0@ == name {
            let i = choose|i: int| 0 <= i < pairs.len() && (#[trigger] pairs[i]).0@ == name;
            if i < front.len() {
                assert(front[i].0@ == name);
            }
        }
    }
}

/// Where no name occurs twice, each pair gives its name's state.
proof fn lemma_states_at(pairs: Seq<(String, String)>, i: int)
    requires
        distinct_keys(pairs),
        0 <= i < pairs.len(),
    ensures
        states_of(pairs).contains_key(pairs[i].0@),
        states_of(pairs)[pairs[i].0@] == pairs[i].1@,
    decreases pairs.len(),
{
    let front = pairs.drop_last();
    if i < pairs.len() - 1 {
        assert(distinct_keys(front)) by {
            assert forall|a: int, b: int| 0 <= a < b < front.len() implies (#[trigger] front[a]).0@
                != (#[trigger] front[b]).0@ by {
                assert(front[a] == pairs[a] && front[b] == pairs[b]);
            }
        }
        lemma_states_at(front, i);
        assert(front[i] == pairs[i]);
        assert(pairs[i].0@ != pairs[pairs.len() - 1].0@);
    }
}

/// Replacing the state in a pair changes the map as an insertion under
/// that pair's name does.
proof fn lemma_states_update(pairs: Seq<(String, String)>, i: int, pair: (String, String))
    requires
        distinct_keys(pairs),
        0 <= i < pairs.len(),
        pair.0@ == pairs[i].0@,
    ensures
        states_of(pairs.update(i, pair)) == states_of(pairs).insert(pair.0@, pair.1@),
        distinct_keys(pairs.update(i, pair)),
    decreases pairs.len(),
{
    let changed = pairs.update(i, pair);
    let front = pairs.drop_last();
    assert(distinct_keys(changed)) by {
        assert forall|a: int, b: int| 0 <= a < b < changed.len() implies (#[trigger] changed[a]).0@
            != (#[trigger] changed[b]).0@ by {
            assert(pairs[a].0@ != pairs[b].0@);
        }
    }
    if i == pairs.len() - 1 {
        assert(changed.drop_last() == front);
        assert(states_of(changed) =~= states_of(pairs).insert(pair.0@, pair.1@));
    } else {
        assert(distinct_keys(front)) by {
            assert forall|a: int, b: int| 0 <= a < b < front.len() implies (#[trigger] front[a]).0@
                != (#[trigger] front[b]).0@ by {
                assert(front[a] == pairs[a] && front[b] == pairs[b]);
            }
        }
        assert(front[i] == pairs[i]);
        lemma_states_update(front, i, pair);
        assert(changed.drop_last() == front.update(i, pair));
        assert(changed.last() == pairs.last());
        assert(pairs[i].0@ != pairs[pairs.len() - 1].0@);
        assert(states_of(changed) =~= states_of(pairs).insert(pair.0@, pair.1@));
    }
}

/// What the bot keeps between runs: which modules to run, and what each
/// module kept, in the form in which the module wrote it.
///
/// Both are held as lists in which no name occurs twice, and read as a set
/// and a map: of std's hashed collections nothing can be proved when the
/// keys are strings.
#[derive(Clone, Debug)]
pub struct BotState {
    enabled_modules: Vec<String>,
    module_states: Vec<(String, String)>,
}

impl View for BotState {
    type V = BotStateView;

    closed spec fn view(&self) -> BotStateView {
        BotStateView {
            enabled_modules: names_of(self.enabled_modules@),
            module_states: states_of(self.module_states@),
        }
    }
}

impl BotState {
    /// Whether no module is listed twice and no module has two states.
    pub closed spec fn wf(&self) -> bool {
        distinct_names(self.enabled_modules@) && distinct_keys(self.module_states@)
    }

    /// A state with no module enabled and nothing kept.
    pub fn new() -> (state: BotState)
        ensures
            state.wf(),
            state@.enabled_modules == Set::<Seq<char>>::empty(),
            state@.module_states == Map::<Seq<char>, Seq<char>>::empty(),
    {
        let state = BotState { enabled_modules: Vec::new(), module_states: Vec::new() };
        assert(state@.enabled_modules =~= Set::<Seq<char>>::empty());
        state
    }

    /// Where `name` stands in the list of enabled modules.
    fn enabled_at(&self, name: &String) -> (at: Option<usize>)
        ensures
            at matches Some(i) ==> i < self.enabled_modules@.len() && self.enabled_modules@[i as int]@
                == name@,
            at is None ==> !self@.enabled_modules.contains(name@),
    {
        let mut i: usize = 0;
        while i < self.enabled_modules.len()
            invariant
                i <= self.enabled_modules@.len(),
                forall|j: int| 0 <= j < i ==> (#[trigger] self.enabled_modules@[j])@ != name@,
            decreases self.enabled_modules@.len() - i,
        {
            if self.enabled_modules[i] == *name {
                return Some(i);
            }
            i = i + 1;
        }
        None
    }

    /// Where the pair of `name` stands in the list of module states.
    fn kept_at(&self, name: &String) -> (at: Option<usize>)
        ensures
            at matches Some(i) ==> i < self.module_states@.len() && self.module_states@[i as int].0@
                == name@,
            at is None ==> !self@.module_states.contains_key(name@),
    {
        let mut i: usize = 0;
        while i < self.module_states.len()
            invariant
                i <= self.module_states@.len(),
                forall|j: int| 0 <= j < i ==> (#[trigger] self.module_states@[j]).0@ != name@,
            decreases self.module_states@.len() - i,
        {
            if self.module_states[i].0 == *name {
                return Some(i);
            }
            i = i + 1;
        }
        proof {
            lemma_states_dom(self.module_states@, name@);
        }
        None
    }

    /// Whether the module `name` is to run.
    pub fn is_enabled(&self, name: &String) -> (enabled: bool)
        ensures
            enabled == self@.enabled_modules.contains(name@),
    {
        match self.enabled_at(name) {
            Some(i) => {
                assert(self.enabled_modules@[i as int]@ == name@);
                true
            },
            None => false,
        }
    }

    /// Marks the module `name` as one to run.
    pub fn enable(&mut self, name: String)
        requires
            old(self).wf(),
        ensures
            final(self).wf(),
            final(self)@.enabled_modules == old(self)@.enabled_modules.insert(name@),
            final(self)@.module_states == old(self)@.module_states,
    {
        if self.enabled_at(&name).is_none() {
            let ghost before = self.enabled_modules@;
            self.enabled_modules.push(name);
            proof {
                let after = self.enabled_modules@;
                assert(distinct_names(after)) by {
                    assert forall|i: int, j: int| 0 <= i < j < after.len() implies (
                    #[trigger] after[i])@ != (#[trigger] after[j])@ by {
                        if j < before.len() {
                            assert(after[i] == before[i] && after[j] == before[j]);
                        } else {
                            assert(after[i] == before[i]);
                            if before[i]@ == name@ {
                                assert(names_of(before).contains(name@));
                            }
                        }
                    }
                }
                assert(names_of(after) =~= names_of(before).insert(name@)) by {
                    assert forall|n: Seq<char>| names_of(after).contains(n) implies names_of(
                        before,
                    ).insert(name@).contains(n) by {
                        let i = choose|i: int| 0 <= i < after.len() && (#[trigger] after[i])@ == n;
                        if i < before.len() {
                            assert(before[i]@ == n);
                        }
                    }
                    assert forall|n: Seq<char>| names_of(before).insert(name@).contains(
                        n,
                    ) implies names_of(after).contains(n) by {
                        if n == name@ {
                            assert(after[after.len() - 1]@ == n);
                        } else {
                            let i = choose|i: int|
                                0 <= i < before.len() && (#[trigger] before[i])@ == n;
                            assert(after[i]@ == n);
                        }
                    }
                }
            }
        } else {
            assert(self@.enabled_modules =~= self@.enabled_modules.insert(name@));
        }
    }

    /// What the module `name` kept, if anything.
    pub fn module_state(&self, name: &String) -> (kept: Option<&String>)
        requires
            self.wf(),
        ensures
            kept is Some <==> self@.module_states.contains_key(name@),
            kept matches Some(state) ==> state@ == self@.module_states[name@],
    {
        match self.kept_at(name) {
            Some(i) => {
                proof {
                    lemma_states_at(self.module_states@, i as int);
                }
                Some(&self.module_states[i].1)
            },
            None => None,
        }
    }

    /// Keeps `state` for the module `name`, in place of what was kept for
    /// it before.
    pub fn set_module_state(&mut self, name: String, state: String)
        requires
            old(self).wf(),
        ensures
            final(self).wf(),
            final(self)@.module_states == old(self)@.module_states.insert(name@, state@),
            final(self)@.enabled_modules == old(self)@.enabled_modules,
    {
        let ghost before = self.module_states@;
        match self.kept_at(&name) {
            Some(i) => {
                proof {
                    lemma_states_update(before, i as int, (name, state));
                }
                self.module_states.set(i, (name, state));
            },
            None => {
                proof {
                    lemma_states_dom(before, name@);
                    let after = before.push((name, state));
                    assert(after.drop_last() == before);
                    assert(distinct_keys(after)) by {
                        assert forall|i: int, j: int| 0 <= i < j < after.len() implies (
                        #[trigger] after[i]).0@ != (#[trigger] after[j]).0@ by {
                            if j < before.len() {
                                assert(after[i] == before[i] && after[j] == before[j]);
                            } else {
                                assert(after[i] == before[i]);
                            }
                        }
                    }
                }
                self.module_states.push((name, state));
            },
        }
    }

    /// The modules to run. Fails with the name of an enabled module that
    /// is not known, if there is one.
    pub fn modules(&self) -> (r: Result<Vec<ModuleKind>, String>)
        requires
            self.wf(),
        ensures
            r is Ok <==> forall|name: Seq<char>| #[trigger]
                self@.enabled_modules.contains(name) ==> ModuleKind::named(name) is Some,
            r matches Ok(kinds) ==> kinds@.no_duplicates() && forall|kind: ModuleKind|
                kinds@.contains(kind) <==> self@.enabled_modules.contains(kind.spec_name()),
            r matches Err(name) ==> self@.enabled_modules.contains(name@) && ModuleKind::named(
                name@,
            ) is None,
    {
        let mut kinds: Vec<ModuleKind> = Vec::new();
        let mut i: usize = 0;
        while i < self.enabled_modules.len()
            invariant
                i <= self.enabled_modules@.len(),
                distinct_names(self.enabled_modules@),
                kinds@.len() == i,
                forall|j: int|
                    0 <= j < i ==> ModuleKind::named((#[trigger] self.enabled_modules@[j])@) == Some(
                        kinds@[j],
                    ),
            decreases self.enabled_modules@.len() - i,
        {
            match ModuleKind::from_name(&self.enabled_modules[i]) {
                Some(kind) => {
                    kinds.push(kind);
                },
                None => {
                    assert(self@.enabled_modules.contains(self.enabled_modules@[i as int]@));
                    return Err(self.enabled_modules[i].clone());
                },
            }
            i = i + 1;
        }
        proof {
            let names = self.enabled_modules@;
            assert forall|name: Seq<char>| #[trigger]
                self@.enabled_modules.contains(name) implies ModuleKind::named(name) is Some by {
                let j = choose|j: int| 0 <= j < names.len() && (#[trigger] names[j])@ == name;
                assert(ModuleKind::named(names[j]@) == Some(kinds@[j]));
            }
            assert(kinds@.no_duplicates()) by {
                assert forall|a: int, b: int| 0 <= a < kinds@.len() && 0 <= b < kinds@.len() && a
                    != b implies kinds@[a] != kinds@[b] by {
                    assert(ModuleKind::named(names[a]@) == Some(kinds@[a]));
                    assert(ModuleKind::named(names[b]@) == Some(kinds@[b]));
                    if a < b {
                        assert(names[a]@ != names[b]@);
                    } else {
                        assert(names[b]@ != names[a]@);
                    }
                }
            }
            assert forall|kind: ModuleKind| kinds@.contains(kind) <==> self@.enabled_modules.contains(
                kind.spec_name(),
            ) by {
                if kinds@.contains(kind) {
                    let j = choose|j: int| 0 <= j < kinds@.len() && kinds@[j] == kind;
                    assert(ModuleKind::named(names[j]@) == Some(kinds@[j]));
                    assert(names[j]@ == kind.spec_name());
                }
                if self@.enabled_modules.contains(kind.spec_name()) {
                    let j = choose|j: int|
                        0 <= j < names.len() && (#[trigger] names[j])@ == kind.spec_name();
                    assert(ModuleKind::named(names[j]@) == Some(kinds@[j]));
                    assert(kinds@[j] == kind);
                }
            }
        }
        Ok(kinds)
    }

    /// The names of the modules to run, in no particular order.
    pub fn enabled_modules(&self) -> (names: &Vec<String>)
        requires
            self.wf(),
        ensures
            names_of(names@) == self@.enabled_modules,
            distinct_names(names@),
    {
        &self.enabled_modules
    }

    /// What the modules kept, as pairs of a name and a state, each name
    /// once, in no particular order.
    pub fn module_states(&self) -> (pairs: &Vec<(String, String)>)
        requires
            self.wf(),
        ensures
            states_of(pairs@) == self@.module_states,
            distinct_keys(pairs@),
    {
        &self.module_states
    }
}

} // verus!
