use homectl::color::{Capabilities, ColorMode, DeviceColor};
use homectl::device::{Device, DeviceData, DeviceKey, DeviceState, ManagedDevice, SceneBinding};
use homectl::error::HubError;
use homectl::event::{
    Action, CustomActionDescriptor, DimDescriptor, Effect, Event, ForceTriggerRoutineDescriptor,
    UiActionDescriptor,
};
use homectl::expr::{ActionExpr, Assignment, Expr};
use homectl::groups::{GroupConfig, GroupMember, Groups};
use homectl::handle::handle_event;
use homectl::ids::{GroupId, RoutineId, SceneId};
use homectl::integrations::dummy::DummyConfig;
use homectl::integrations_manager::IntegrationsManager;
use homectl::routines::{Routine, Routines};
use homectl::scene::{
    ActivateSceneDescriptor, CycleScenesDescriptor, Scene, SceneConfig, SceneDescriptor,
    SceneDeviceConfig, SceneDeviceEntry, SceneDeviceLink, SceneDeviceState,
};
use homectl::scenes::Scenes;
use homectl::state::AppState;
use serde_json::Value;
use std::collections::VecDeque;
use tokio::sync::mpsc::channel;

fn key(id: &str) -> DeviceKey {
    DeviceKey::new("dummy", id)
}

fn light(id: &str, power: bool, brightness: u16) -> Device {
    Device::new(
        key(id),
        id.to_string(),
        DeviceData::Managed(ManagedDevice {
            state: DeviceState {
                power,
                brightness: Some(brightness),
                color: None,
                transition_ms: None,
            },
            raw: None,
            capabilities: Capabilities::none(),
        }),
    )
}

fn state_binding(id: &str, brightness: u16) -> SceneDeviceEntry {
    SceneDeviceEntry {
        key: key(id),
        config: SceneDeviceConfig::SceneDeviceState(SceneDeviceState {
            power: true,
            color: None,
            brightness: Some(brightness),
            transition_ms: None,
        }),
    }
}

fn scene(id: &str, devices: Vec<SceneDeviceEntry>) -> Scene {
    Scene {
        id: SceneId::new(id),
        config: SceneConfig { name: id.to_string(), devices: Some(devices), groups: None },
    }
}

fn hub(scenes: Vec<Scene>, groups: Vec<GroupConfig>, routines: Vec<Routine>) -> AppState {
    let mut integrations = IntegrationsManager::new();
    integrations
        .load_integration(
            &"dummy".to_string(),
            &"dummy".to_string(),
            DummyConfig { devices: vec![] },
        )
        .unwrap();
    AppState::new(integrations, Groups::new(groups).unwrap(), Scenes::new(scenes), Routines::new(routines).unwrap())
}

/// Handles `first` and every event that handling leaves on the bus, in
/// order; returns all effects but the enqueued events.
fn run(state: &mut AppState, first: Event) -> Vec<Effect> {
    let mut bus: VecDeque<Event> = VecDeque::new();
    bus.push_back(first);
    let mut left: Vec<Effect> = Vec::new();
    let mut handled = 0;
    while let Some(event) = bus.pop_front() {
        handled += 1;
        assert!(handled < 1000, "the bus does not drain");
        for effect in handle_event(state, event).unwrap() {
            match effect {
                Effect::Enqueue(e) => bus.push_back(e),
                other => left.push(other),
            }
        }
    }
    left
}

fn timers(effects: &[Effect]) -> usize {
    effects.iter().filter(|e| matches!(e, Effect::StartBroadcastTimer { .. })).count()
}

fn brightness(state: &AppState, id: &str) -> Option<u16> {
    state.devices.get_device(&key(id)).and_then(|d| d.get_state()).and_then(|s| s.brightness)
}

fn started(scenes: Vec<Scene>, routines: Vec<Routine>, devices: Vec<Device>) -> AppState {
    let mut state = hub(scenes, vec![], routines);
    for d in devices {
        run(&mut state, Event::ExternalStateUpdate { device: d });
    }
    run(&mut state, Event::StartupCompleted);
    run(&mut state, Event::BroadcastDue);
    state
}

fn power_routine(id: &str, device: &str, actions: Vec<Action>) -> Routine {
    Routine {
        id: RoutineId::new(id),
        name: id.to_string(),
        condition: Expr::DevicePower(key(device)),
        on_true: actions,
        edge_trigger: true,
    }
}

#[test]
fn warm_up_suppression() {
    let dim = Action::Dim(DimDescriptor {
        device_keys: Some(vec![key("a")]),
        group_keys: None,
        step: Some(1),
    });
    let mut state = hub(vec![], vec![], vec![power_routine("r", "a", vec![dim])]);
    assert!(state.warming_up);
    // The device is known and switched on, so the routine would fire.
    let report = handle_event(&mut state, Event::ExternalStateUpdate { device: light("a", true, 10) })
        .unwrap();
    assert_eq!(report.len(), 1);
    let update = Event::InternalStateUpdate { old: None, new: light("a", true, 10) };
    let effects = handle_event(&mut state, update).unwrap();
    assert!(effects.is_empty());
    assert!(!state.rules.was_satisfied(0));
    assert!(!state.ws_broadcast_pending.pending);
    assert!(state.warming_up);

    let effects = handle_event(&mut state, Event::StartupCompleted).unwrap();
    assert!(!state.warming_up);
    assert_eq!(effects, vec![Effect::StartBroadcastTimer { delay_ms: 100 }]);
    assert!(state.ws_broadcast_pending.pending);

    // Once warmed up the same event runs the routine.
    let update = Event::InternalStateUpdate { old: None, new: light("a", true, 10) };
    let effects = handle_event(&mut state, update).unwrap();
    assert_eq!(
        effects,
        vec![Effect::Enqueue(Event::RoutineAction { routine_id: RoutineId::new("r"), index: 0 })]
    );
    assert!(state.rules.was_satisfied(0));
}

#[test]
fn scene_link_resolution() {
    let a = scene(
        "A",
        vec![SceneDeviceEntry {
            key: key("d2"),
            config: SceneDeviceConfig::SceneDeviceLink(SceneDeviceLink {
                integration_id: "dummy".to_string(),
                device_id: Some("d1".to_string()),
                name: None,
                brightness: None,
            }),
        }],
    );
    let b = scene(
        "B",
        vec![SceneDeviceEntry {
            key: key("d2"),
            config: SceneDeviceConfig::SceneLink(SceneDescriptor {
                scene_id: SceneId::new("A"),
                skip_locked_devices: None,
            }),
        }],
    );
    let mut state =
        started(vec![a, b], vec![], vec![light("d1", true, 400), light("d2", false, 0)]);
    run(
        &mut state,
        Event::Action(Action::ActivateScene(ActivateSceneDescriptor {
            scene_id: SceneId::new("B"),
            device_keys: Some(vec![key("d2")]),
            group_keys: None,
        })),
    );
    assert_eq!(brightness(&state, "d2"), Some(400));
    // d1 changes: d2 follows, and the state goes out with the next
    // broadcast.
    run(&mut state, Event::BroadcastDue);
    let effects = run(
        &mut state,
        Event::SetInternalState { device: light("d1", true, 700), skip_external_update: None },
    );
    assert_eq!(brightness(&state, "d1"), Some(700));
    assert_eq!(brightness(&state, "d2"), Some(700));
    assert_eq!(timers(&effects), 1);
    // Resolved afresh against the table as it now is, the scene comes to what
    // the device shows.
    let d2 = state.devices.get_device(&key("d2")).unwrap();
    assert_eq!(
        state.scenes.find_scene_device_state(
            d2,
            state.devices.get_state(),
            state.groups.get_flattened_groups()
        ),
        d2.get_state()
    );
    let update = state.state_update();
    assert_eq!(update.devices.0[1].get_state().unwrap().brightness, Some(700));
    assert_eq!(update.color_mode, ColorMode::Hs);
}

#[test]
fn override_pinning() {
    let s = scene("S", vec![state_binding("d", 100)]);
    let mut state = started(vec![s], vec![], vec![light("d", true, 640)]);
    run(
        &mut state,
        Event::Action(Action::ActivateScene(ActivateSceneDescriptor {
            scene_id: SceneId::new("S"),
            device_keys: Some(vec![key("d")]),
            group_keys: None,
        })),
    );
    assert_eq!(brightness(&state, "d"), Some(100));
    // The user sets the device and pins it.
    run(
        &mut state,
        Event::Action(Action::ToggleDeviceOverride {
            device_keys: vec![key("d")],
            override_state: true,
        }),
    );
    let mut set = light("d", true, 333);
    set.scene = Some(SceneBinding { scene_id: SceneId::new("S"), activation_id: 0 });
    let effects = run(&mut state, Event::Action(Action::SetDeviceState(set)));
    assert!(effects.contains(&Effect::PersistSceneOverride { key: key("d"), flag: true }));
    assert_eq!(brightness(&state, "d"), Some(333));
    run(
        &mut state,
        Event::Action(Action::ActivateScene(ActivateSceneDescriptor {
            scene_id: SceneId::new("S"),
            device_keys: Some(vec![key("d")]),
            group_keys: None,
        })),
    );
    assert_eq!(brightness(&state, "d"), Some(333));
    assert_eq!(
        state.devices.get_device(&key("d")).unwrap().get_scene_id(),
        Some(SceneId::new("S"))
    );
    // Released, the device snaps to what the scene holds for it.
    let effects = run(
        &mut state,
        Event::Action(Action::ToggleDeviceOverride {
            device_keys: vec![key("d"), key("unknown")],
            override_state: false,
        }),
    );
    assert_eq!(brightness(&state, "d"), Some(100));
    assert!(effects.contains(&Effect::PersistSceneOverride { key: key("d"), flag: false }));
    assert!(!effects.contains(&Effect::PersistSceneOverride { key: key("unknown"), flag: false }));
}

#[test]
fn debounce() {
    let mut state = started(vec![], vec![], vec![light("a", true, 0)]);
    let (tx, mut rx) = channel(4);
    state.ws.user_connected(1, tx);
    let mut started_timers = 0;
    for i in 1..=50u16 {
        let effects = run(
            &mut state,
            Event::SetInternalState { device: light("a", true, i), skip_external_update: Some(true) },
        );
        started_timers += timers(&effects);
    }
    assert_eq!(started_timers, 1);
    assert!(state.ws_broadcast_pending.pending);
    // The window is over: one frame goes out, with the state as it is then.
    let effects = handle_event(&mut state, Event::BroadcastDue).unwrap();
    assert_eq!(effects, vec![Effect::Broadcast]);
    assert!(!state.ws_broadcast_pending.pending);
    let frame = format!(
        "brightness={}",
        state.state_update().devices.0[0].get_state().unwrap().brightness.unwrap()
    );
    state.send_state_ws(None, &frame);
    assert_eq!(rx.try_recv().unwrap().to_str().unwrap(), "brightness=50");
    assert!(rx.try_recv().is_err());
    // The next change starts the next window.
    let effects = run(
        &mut state,
        Event::SetInternalState { device: light("a", true, 51), skip_external_update: Some(true) },
    );
    assert_eq!(timers(&effects), 1);
}

#[test]
fn broadcast_without_users_does_nothing() {
    let mut state = started(vec![], vec![], vec![light("a", true, 0)]);
    run(
        &mut state,
        Event::SetInternalState { device: light("a", true, 5), skip_external_update: Some(true) },
    );
    assert!(state.ws_broadcast_pending.pending);
    let effects = handle_event(&mut state, Event::BroadcastDue).unwrap();
    assert!(effects.is_empty());
    assert!(!state.ws_broadcast_pending.pending);
    assert!(!state.should_send_state(None));
    assert!(state.should_send_state(Some(3)));
    state.send_state_ws(None, "state");
    assert_eq!(state.ws.num_users(), 0);
}

#[test]
fn slow_client_eviction() {
    let mut state = started(vec![], vec![], vec![light("a", true, 0)]);
    let (slow, _never_drained) = channel(1);
    let (fine, mut drained) = channel(8);
    state.ws.user_connected(1, slow);
    state.ws.user_connected(2, fine);
    state.send_state_ws(None, "one");
    assert_eq!(state.ws.num_users(), 2);
    state.send_state_ws(None, "two");
    assert!(!state.ws.is_connected(1));
    assert!(state.ws.is_connected(2));
    assert_eq!(drained.try_recv().unwrap().to_str().unwrap(), "one");
    assert_eq!(drained.try_recv().unwrap().to_str().unwrap(), "two");
}

#[test]
fn a_routine_runs_its_actions_through_the_bus() {
    let dim = Action::Dim(DimDescriptor {
        device_keys: Some(vec![key("lamp")]),
        group_keys: None,
        step: None,
    });
    let activate = Action::ActivateScene(ActivateSceneDescriptor {
        scene_id: SceneId::new("S"),
        device_keys: Some(vec![key("other")]),
        group_keys: None,
    });
    let mut state = started(
        vec![scene("S", vec![state_binding("other", 900)])],
        vec![power_routine("r", "switch", vec![dim, activate])],
        vec![light("switch", false, 0), light("lamp", true, 500), light("other", false, 0)],
    );
    run(
        &mut state,
        Event::SetInternalState { device: light("switch", true, 0), skip_external_update: None },
    );
    assert_eq!(brightness(&state, "lamp"), Some(600));
    assert_eq!(brightness(&state, "other"), Some(900));
    // The condition still holds: nothing fires again.
    run(
        &mut state,
        Event::SetInternalState { device: light("switch", true, 1), skip_external_update: None },
    );
    assert_eq!(brightness(&state, "lamp"), Some(600));
    // Forced, it runs whatever its condition.
    run(
        &mut state,
        Event::Action(Action::ForceTriggerRoutine(ForceTriggerRoutineDescriptor {
            routine_id: RoutineId::new("r"),
        })),
    );
    assert_eq!(brightness(&state, "lamp"), Some(700));
}

#[test]
fn requests_that_name_the_unknown_are_refused_and_change_nothing() {
    let mut state = started(vec![], vec![], vec![light("a", true, 10)]);
    let r = handle_event(
        &mut state,
        Event::Action(Action::ActivateScene(ActivateSceneDescriptor {
            scene_id: SceneId::new("none"),
            device_keys: None,
            group_keys: None,
        })),
    );
    assert_eq!(r, Err(HubError::UnknownScene(SceneId::new("none"))));
    let r = handle_event(
        &mut state,
        Event::Action(Action::ForceTriggerRoutine(ForceTriggerRoutineDescriptor {
            routine_id: RoutineId::new("none"),
        })),
    );
    assert_eq!(r, Err(HubError::UnknownRoutine(RoutineId::new("none"))));
    let r = handle_event(
        &mut state,
        Event::RoutineAction { routine_id: RoutineId::new("none"), index: 0 },
    );
    assert_eq!(r, Err(HubError::UnknownRoutine(RoutineId::new("none"))));
    let r = handle_event(
        &mut state,
        Event::Action(Action::Custom(CustomActionDescriptor {
            integration_id: "hue".to_string(),
            payload: Value::Null,
        })),
    );
    assert_eq!(r, Err(HubError::UnknownIntegration("hue".to_string())));
    let r = handle_event(
        &mut state,
        Event::Action(Action::Custom(CustomActionDescriptor {
            integration_id: "dummy".to_string(),
            payload: Value::Null,
        })),
    );
    assert_eq!(r, Ok(vec![]));
    let r = handle_event(
        &mut state,
        Event::Action(Action::Dim(DimDescriptor {
            device_keys: None,
            group_keys: Some(vec![GroupId::new("none")]),
            step: None,
        })),
    );
    assert_eq!(r, Err(HubError::UnknownGroup(GroupId::new("none"))));
    let r = handle_event(
        &mut state,
        Event::Action(Action::EvalExpr(ActionExpr {
            assignments: vec![Assignment::Power { device: key("zz"), value: Expr::Bool(true) }],
        })),
    );
    assert_eq!(r, Err(HubError::Expression));
    let mut foreign = light("x", true, 1);
    foreign.key = DeviceKey::new("hue", "x");
    let r = handle_event(&mut state, Event::SetExternalState { device: foreign });
    assert_eq!(r, Err(HubError::UnknownIntegration("hue".to_string())));
    assert_eq!(brightness(&state, "a"), Some(10));
    assert_eq!(state.devices.get_state().len(), 1);
}

#[test]
fn set_external_state_names_the_mode_the_device_prefers() {
    let mut state = started(vec![], vec![], vec![]);
    let mut d = light("a", true, 10);
    d.data = DeviceData::Managed(ManagedDevice {
        state: DeviceState {
            power: true,
            brightness: None,
            color: Some(DeviceColor::Hs { h: 10, s: 500 }),
            transition_ms: None,
        },
        raw: None,
        capabilities: Capabilities { xy: true, hs: false, rgb: true, ct: None },
    });
    let effects = handle_event(&mut state, Event::SetExternalState { device: d.clone() }).unwrap();
    assert_eq!(
        effects,
        vec![Effect::SetIntegrationDeviceState { device: d, color_mode: Some(ColorMode::Xy) }]
    );
    let plain = light("b", true, 10);
    let effects =
        handle_event(&mut state, Event::SetExternalState { device: plain.clone() }).unwrap();
    assert_eq!(effects, vec![Effect::SetIntegrationDeviceState { device: plain, color_mode: None }]);
}

#[test]
fn stored_scenes_are_changed_in_memory_and_written_to_the_store() {
    let mut state = started(vec![], vec![], vec![light("a", true, 10)]);
    let config = SceneConfig {
        name: "night".to_string(),
        devices: Some(vec![state_binding("a", 20)]),
        groups: None,
    };
    let effects = handle_event(
        &mut state,
        Event::DbStoreScene { scene_id: SceneId::new("night"), config },
    )
    .unwrap();
    assert_eq!(
        effects,
        vec![
            Effect::PersistScene { scene_id: SceneId::new("night") },
            Effect::StartBroadcastTimer { delay_ms: 100 },
        ]
    );
    assert_eq!(state.scenes.find_scene(&SceneId::new("night")).unwrap().name, "night");
    assert_eq!(state.scenes.get_flattened_scenes()[0].devices.len(), 1);
    run(
        &mut state,
        Event::Action(Action::ActivateScene(ActivateSceneDescriptor {
            scene_id: SceneId::new("night"),
            device_keys: None,
            group_keys: None,
        })),
    );
    assert_eq!(brightness(&state, "a"), Some(20));

    let effects = handle_event(
        &mut state,
        Event::DbEditScene { scene_id: SceneId::new("night"), name: "late".to_string() },
    )
    .unwrap();
    assert_eq!(
        effects,
        vec![Effect::RenameScene { scene_id: SceneId::new("night"), name: "late".to_string() }]
    );
    assert_eq!(state.scenes.find_scene(&SceneId::new("night")).unwrap().name, "late");

    let effects =
        handle_event(&mut state, Event::DbDeleteScene { scene_id: SceneId::new("night") }).unwrap();
    assert_eq!(effects, vec![Effect::DeleteScene { scene_id: SceneId::new("night") }]);
    assert!(!state.scenes.has_scene(&SceneId::new("night")));
    // The device was bound to the scene that is gone.
    assert_eq!(state.devices.get_device(&key("a")).unwrap().get_scene_id(), None);
    assert_eq!(brightness(&state, "a"), Some(20));
}

#[test]
fn refreshing_the_stored_scenes_keeps_every_binding_known() {
    let mut state = started(vec![], vec![], vec![light("a", true, 10)]);
    state.refresh_db_scenes(vec![scene("S", vec![state_binding("a", 30)])]);
    run(
        &mut state,
        Event::Action(Action::ActivateScene(ActivateSceneDescriptor {
            scene_id: SceneId::new("S"),
            device_keys: None,
            group_keys: None,
        })),
    );
    assert_eq!(brightness(&state, "a"), Some(30));
    state.refresh_db_scenes(vec![]);
    assert_eq!(state.devices.get_device(&key("a")).unwrap().get_scene_id(), None);
    assert!(state.scenes.get_flattened_scenes().is_empty());
}

#[test]
fn ui_actions_store_the_value_and_ask_for_a_broadcast() {
    let mut state = started(vec![], vec![], vec![]);
    let effects = handle_event(
        &mut state,
        Event::Action(Action::Ui(UiActionDescriptor::StoreUIState {
            key: "layout".to_string(),
            value: Value::from("grid"),
        })),
    )
    .unwrap();
    assert_eq!(
        effects,
        vec![
            Effect::PersistUiState { key: "layout".to_string() },
            Effect::StartBroadcastTimer { delay_ms: 100 },
        ]
    );
    assert_eq!(state.ui.get(&"layout".to_string()), Some(&Value::from("grid")));
    assert_eq!(state.state_update().ui_state.len(), 1);
}

#[test]
fn set_internal_state_drops_a_binding_to_a_scene_that_is_not_defined() {
    let mut state = started(vec![scene("S", vec![state_binding("a", 77)])], vec![], vec![]);
    let mut d = light("a", true, 10);
    d.scene = Some(SceneBinding { scene_id: SceneId::new("gone"), activation_id: 4 });
    run(&mut state, Event::SetInternalState { device: d, skip_external_update: None });
    assert_eq!(state.devices.get_device(&key("a")).unwrap().get_scene_id(), None);
    assert_eq!(brightness(&state, "a"), Some(10));
    let mut d = light("a", true, 10);
    d.scene = Some(SceneBinding { scene_id: SceneId::new("S"), activation_id: 4 });
    let effects = run(&mut state, Event::SetInternalState { device: d, skip_external_update: None });
    // A broadcast is pending already, so no second timer is started.
    assert_eq!(timers(&effects), 0);
    assert!(state.ws_broadcast_pending.pending);
    assert_eq!(
        state.devices.get_device(&key("a")).unwrap().get_scene_id(),
        Some(SceneId::new("S"))
    );
}

#[test]
fn cycling_and_groups_through_the_dispatcher() {
    let groups = vec![GroupConfig {
        id: GroupId::new("room"),
        name: "Room".to_string(),
        members: vec![GroupMember::Device(key("a")), GroupMember::Device(key("b"))],
    }];
    let mut state = hub(
        vec![
            scene("low", vec![state_binding("a", 100), state_binding("b", 100)]),
            scene("high", vec![state_binding("a", 900), state_binding("b", 900)]),
        ],
        groups,
        vec![],
    );
    run(&mut state, Event::ExternalStateUpdate { device: light("a", true, 1) });
    run(&mut state, Event::ExternalStateUpdate { device: light("b", true, 2) });
    run(&mut state, Event::StartupCompleted);
    assert_eq!(state.groups.get_flattened_groups()[0].device_keys.len(), 2);
    let cycle = || {
        Event::Action(Action::CycleScenes(CycleScenesDescriptor {
            scenes: vec![
                SceneDescriptor { scene_id: SceneId::new("low"), skip_locked_devices: None },
                SceneDescriptor { scene_id: SceneId::new("high"), skip_locked_devices: None },
            ],
            nowrap: Some(true),
            device_keys: None,
            group_keys: Some(vec![GroupId::new("room")]),
        }))
    };
    run(&mut state, cycle());
    assert_eq!((brightness(&state, "a"), brightness(&state, "b")), (Some(100), Some(100)));
    run(&mut state, cycle());
    assert_eq!((brightness(&state, "a"), brightness(&state, "b")), (Some(900), Some(900)));
    run(&mut state, cycle());
    assert_eq!((brightness(&state, "a"), brightness(&state, "b")), (Some(900), Some(900)));
    run(
        &mut state,
        Event::Action(Action::Dim(DimDescriptor {
            device_keys: None,
            group_keys: Some(vec![GroupId::new("room")]),
            step: Some(-1000),
        })),
    );
    assert_eq!((brightness(&state, "a"), brightness(&state, "b")), (Some(0), Some(0)));
    assert!(state.devices.get_device(&key("a")).unwrap().get_state().unwrap().power);
}

#[test]
fn device_identity_is_stable() {
    let mut state = started(vec![], vec![], vec![light("a", true, 1), light("b", true, 2)]);
    let keys_before: Vec<DeviceKey> =
        state.devices.get_state().0.iter().map(|d| d.key.clone()).collect();
    run(
        &mut state,
        Event::SetInternalState { device: light("b", false, 9), skip_external_update: None },
    );
    run(&mut state, Event::ExternalStateUpdate { device: light("c", true, 3) });
    let keys_after: Vec<DeviceKey> =
        state.devices.get_state().0.iter().map(|d| d.key.clone()).collect();
    assert_eq!(&keys_after[..2], &keys_before[..]);
    assert_eq!(keys_after[2], key("c"));
}
