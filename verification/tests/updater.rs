use roobot::data::{Datastore, STATE_FILE_NAME};
use roobot::icon_updater::state::{
    ScheduleSerde, ServerSettings, ServerState, State, Timestamp, Update,
};
use roobot::icon_updater::{IconUpdater, NAME};
use roobot::{BotState, ModuleKind};
use std::collections::{HashMap, VecDeque};

fn settings(channel: u64, expr: &str) -> ServerSettings {
    ServerSettings { channel, schedule: ScheduleSerde::from_str(expr).unwrap() }
}

fn kept() -> State {
    let mut settings_by_server = HashMap::new();
    settings_by_server.insert(1, settings(10, "0 0 * * * *"));
    settings_by_server.insert(2, settings(20, "0 0 12 * * *"));
    let mut state = HashMap::new();
    state.insert(
        1,
        ServerState {
            next_update: Timestamp { secs: 1_700_000_000, nanos: 5 },
            queue: VecDeque::from(vec![
                Update { message: 100, user: 7 },
                Update { message: 101, user: 8 },
                Update { message: 102, user: 7 },
            ]),
        },
    );
    state.insert(3, ServerState::default());
    State { settings: settings_by_server, state }
}

#[test]
fn loading_nothing_gives_an_empty_updater() {
    let updater = IconUpdater::load(None);
    assert_eq!(updater.save(), State::default());
    assert!(updater.groups().is_empty());
    assert_eq!(updater.name(), "icon_updater");
    assert_eq!(NAME, "icon_updater");
}

#[test]
fn saving_after_loading_gives_back_what_was_kept() {
    let updater = IconUpdater::load(Some(kept()));
    assert_eq!(updater.save(), kept());
    assert_eq!(updater.save(), updater.save());
    let again = IconUpdater::load(Some(updater.save()));
    assert_eq!(again.save(), kept());
    assert_eq!(again.shutdown(), kept());
}

#[test]
fn one_task_per_configured_server() {
    let updater = IconUpdater::load(Some(kept()));
    let mut groups = updater.groups();
    groups.sort();
    assert_eq!(groups, vec![1, 2]);
}

#[test]
fn messages_are_routed_by_server_and_channel() {
    let updater = IconUpdater::load(Some(kept()));
    assert_eq!(updater.route(Some(1), 10), Some(&settings(10, "0 0 * * * *")));
    assert_eq!(updater.route(Some(2), 20), Some(&settings(20, "0 0 12 * * *")));
    assert_eq!(updater.route(Some(1), 20), None);
    assert_eq!(updater.route(Some(3), 10), None);
    assert_eq!(updater.route(None, 10), None);
    assert_eq!(updater.settings_of(2), Some(&settings(20, "0 0 12 * * *")));
    assert_eq!(updater.settings_of(3), None);
}

#[test]
fn state_is_created_on_first_touch() {
    let mut updater = IconUpdater::load(Some(kept()));
    assert_eq!(*updater.state_mut(2), ServerState::default());
    let mut expected = kept();
    expected.state.insert(2, ServerState::default());
    assert_eq!(updater.save(), expected);

    updater.state_mut(2).queue.push_back(Update { message: 5, user: 6 });
    assert_eq!(updater.state_mut(1).queue.len(), 3);
    expected.state.get_mut(&2).unwrap().queue.push_back(Update { message: 5, user: 6 });
    assert_eq!(updater.save(), expected);
}

#[test]
fn datastore_remembers_its_directory() {
    let store = Datastore::new(b"/var/lib/bot");
    assert_eq!(store.base_path(), b"/var/lib/bot");
    assert_eq!(store.state_file_name(), "state.json");
    assert_eq!(STATE_FILE_NAME, "state.json");
    assert_eq!(Datastore::new(b"").base_path(), b"");
    // a path need not be text
    assert_eq!(Datastore::new(&[b'/', 0xff, 0xfe]).base_path(), &[b'/', 0xff, 0xfe]);
}

#[test]
fn modules_go_by_their_names() {
    assert_eq!(ModuleKind::from_name(&String::from("icon_updater")), Some(ModuleKind::IconUpdater));
    assert_eq!(ModuleKind::from_name(&String::from("icon_updater ")), None);
    assert_eq!(ModuleKind::from_name(&String::from("")), None);
    assert_eq!(ModuleKind::IconUpdater.name(), "icon_updater");
}

#[test]
fn enabling_a_module_twice_lists_it_once() {
    let mut state = BotState::new();
    assert!(!state.is_enabled(&String::from("icon_updater")));
    assert_eq!(state.modules(), Ok(vec![]));
    state.enable(String::from("icon_updater"));
    state.enable(String::from("icon_updater"));
    assert!(state.is_enabled(&String::from("icon_updater")));
    assert_eq!(state.enabled_modules(), &vec![String::from("icon_updater")]);
    assert_eq!(state.modules(), Ok(vec![ModuleKind::IconUpdater]));
}

#[test]
fn unknown_module_is_reported_by_name() {
    let mut state = BotState::new();
    state.enable(String::from("icon_updater"));
    state.enable(String::from("weather"));
    assert_eq!(state.modules(), Err(String::from("weather")));
}

#[test]
fn module_state_is_replaced_not_added() {
    let mut state = BotState::new();
    let name = String::from("icon_updater");
    assert_eq!(state.module_state(&name), None);
    state.set_module_state(name.clone(), String::from("{\"a\":1}"));
    state.set_module_state(String::from("other"), String::from("x"));
    assert_eq!(state.module_state(&name), Some(&String::from("{\"a\":1}")));
    state.set_module_state(name.clone(), String::from("{\"a\":2}"));
    assert_eq!(state.module_state(&name), Some(&String::from("{\"a\":2}")));
    assert_eq!(state.module_state(&String::from("other")), Some(&String::from("x")));
    assert_eq!(
        state.module_states(),
        &vec![
            (String::from("icon_updater"), String::from("{\"a\":2}")),
            (String::from("other"), String::from("x")),
        ]
    );
    assert!(!state.is_enabled(&name));
}

#[test]
fn copy_of_the_bot_state_holds_the_same() {
    let mut state = BotState::new();
    state.enable(String::from("icon_updater"));
    state.set_module_state(String::from("icon_updater"), String::from("{}"));
    let copy = state.clone();
    assert_eq!(copy.enabled_modules(), state.enabled_modules());
    assert_eq!(copy.module_states(), state.module_states());
}
