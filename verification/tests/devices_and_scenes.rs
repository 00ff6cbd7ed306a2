use homectl::color::{Capabilities, ColorMode, CtRange, DeviceColor};
use homectl::device::{
    dim_brightness, Device, DeviceData, DeviceKey, DeviceState, ManagedDevice, SensorValue,
};
use homectl::device_table::DevicesState;
use homectl::error::HubError;
use homectl::event::Event;
use homectl::groups::{FlattenedGroup, GroupConfig, GroupMember, Groups};
use homectl::devices::Devices;
use homectl::ids::{GroupId, SceneId};
use homectl::scene::{
    Scene, SceneConfig, SceneDescriptor, SceneDeviceConfig, SceneDeviceEntry, SceneDeviceLink,
    SceneDeviceState, SceneGroupEntry,
};
use homectl::scenes::Scenes;

fn light(integration: &str, id: &str, power: bool, brightness: u16) -> Device {
    Device::new(
        DeviceKey::new(integration, id),
        format!("{} light", id),
        DeviceData::Managed(ManagedDevice {
            state: DeviceState {
                power,
                brightness: Some(brightness),
                color: None,
                transition_ms: None,
            },
            raw: None,
            capabilities: Capabilities::none(),
        }),
    )
}

fn brightness_of(devices: &Devices, integration: &str, id: &str) -> Option<u16> {
    devices
        .get_device(&DeviceKey::new(integration, id))
        .and_then(|d| d.get_state())
        .and_then(|s| s.brightness)
}

fn state_binding(integration: &str, id: &str, brightness: u16) -> SceneDeviceEntry {
    SceneDeviceEntry {
        key: DeviceKey::new(integration, id),
        config: SceneDeviceConfig::SceneDeviceState(SceneDeviceState {
            power: true,
            color: None,
            brightness: Some(brightness),
            transition_ms: None,
        }),
    }
}

fn scene(id: &str, devices: Vec<SceneDeviceEntry>, groups: Vec<SceneGroupEntry>) -> Scene {
    Scene {
        id: SceneId::new(id),
        config: SceneConfig {
            name: id.to_string(),
            devices: Some(devices),
            groups: Some(groups),
        },
    }
}

fn no_groups() -> Vec<FlattenedGroup> {
    Vec::new()
}

fn table(devices: Vec<Device>) -> Devices {
    let mut table = Devices::new();
    for d in &devices {
        table.set_state(d, true, false);
    }
    table
}

#[test]
fn preferred_mode_keeps_a_supported_mode() {
    let caps = Capabilities { xy: true, hs: true, rgb: false, ct: None };
    assert_eq!(caps.preferred_mode(ColorMode::Hs), Some(ColorMode::Hs));
    assert_eq!(caps.preferred_mode(ColorMode::Rgb), Some(ColorMode::Xy));
    let only_ct = Capabilities {
        xy: false,
        hs: false,
        rgb: false,
        ct: Some(CtRange { min: 2000, max: 6500 }),
    };
    assert_eq!(only_ct.preferred_mode(ColorMode::Hs), Some(ColorMode::Ct));
    assert_eq!(Capabilities::none().preferred_mode(ColorMode::Hs), None);
    assert_eq!(DeviceColor::Xy { x: 1, y: 2 }.mode(), ColorMode::Xy);
    assert_eq!(DeviceColor::Rgb { r: 1, g: 2, b: 3 }.mode(), ColorMode::Rgb);
}

#[test]
fn device_key_text_joins_with_a_slash() {
    let key = DeviceKey::new("hue", "kitchen");
    assert_eq!(key.to_text(), "hue/kitchen");
    assert!(key.same(&DeviceKey::new("hue", "kitchen")));
    assert!(!key.same(&DeviceKey::new("hue", "hall")));
    assert!(!key.same(&DeviceKey::new("ikea", "kitchen")));
}

#[test]
fn dim_brightness_is_held_within_the_range() {
    assert_eq!(dim_brightness(900, 500), 1000);
    assert_eq!(dim_brightness(100, -500), 0);
    assert_eq!(dim_brightness(400, 100), 500);
    assert_eq!(dim_brightness(400, -100), 300);
    assert_eq!(dim_brightness(1000, 1), 1000);
    assert_eq!(dim_brightness(0, -1), 0);
    assert_eq!(dim_brightness(65535, i32::MAX), 1000);
    assert_eq!(dim_brightness(0, i32::MIN), 0);
}

#[test]
fn dim_with_half_step_at_nine_tenths_yields_full() {
    let mut devices = table(vec![light("dummy", "a", true, 900)]);
    let keys = Some(vec![DeviceKey::new("dummy", "a")]);
    let events = devices.dim(&keys, &None, 500, &no_groups()).unwrap();
    assert_eq!(brightness_of(&devices, "dummy", "a"), Some(1000));
    let d = devices.get_device(&DeviceKey::new("dummy", "a")).unwrap();
    assert!(d.get_state().unwrap().power);
    assert_eq!(events.len(), 2);
    assert!(matches!(&events[0], Event::InternalStateUpdate { old: Some(o), new }
        if o.get_state().unwrap().brightness == Some(900)
            && new.get_state().unwrap().brightness == Some(1000)));
    assert!(matches!(&events[1], Event::SetExternalState { device }
        if device.get_state().unwrap().brightness == Some(1000)));
}

#[test]
fn dim_at_the_boundary_changes_nothing() {
    let mut devices = table(vec![light("dummy", "a", false, 0)]);
    let keys = Some(vec![DeviceKey::new("dummy", "a")]);
    let events = devices.dim(&keys, &None, -300, &no_groups()).unwrap();
    assert!(events.is_empty());
    let d = devices.get_device(&DeviceKey::new("dummy", "a")).unwrap();
    assert_eq!(d.get_state().unwrap().brightness, Some(0));
    assert!(!d.get_state().unwrap().power);
}

#[test]
fn dim_refuses_an_unknown_device() {
    let mut devices = table(vec![light("dummy", "a", true, 500)]);
    let keys = Some(vec![DeviceKey::new("dummy", "a"), DeviceKey::new("dummy", "nope")]);
    let r = devices.dim(&keys, &None, 100, &no_groups());
    assert_eq!(r, Err(HubError::UnknownDevice(DeviceKey::new("dummy", "nope"))));
    assert_eq!(brightness_of(&devices, "dummy", "a"), Some(500));
    let groups = Some(vec![GroupId::new("nowhere")]);
    let r = devices.dim(&None, &groups, 100, &no_groups());
    assert_eq!(r, Err(HubError::UnknownGroup(GroupId::new("nowhere"))));
}

#[test]
fn set_state_inserts_in_order_and_replaces_in_place() {
    let mut devices = Devices::new();
    let first = devices.set_state(&light("dummy", "a", true, 100), false, true);
    assert_eq!(first.len(), 2);
    assert!(matches!(&first[0], Event::InternalStateUpdate { old: None, .. }));
    assert!(matches!(&first[1], Event::SetExternalState { .. }));
    devices.set_state(&light("dummy", "b", true, 200), true, false);
    let again = devices.set_state(&light("dummy", "a", true, 300), true, true);
    assert_eq!(again.len(), 1);
    let same = devices.set_state(&light("dummy", "a", true, 300), false, true);
    assert!(same.is_empty());
    let state = devices.get_state();
    assert_eq!(state.len(), 2);
    assert_eq!(state.0[0].key, DeviceKey::new("dummy", "a"));
    assert_eq!(state.0[1].key, DeviceKey::new("dummy", "b"));
    assert_eq!(brightness_of(&devices, "dummy", "a"), Some(300));
}

#[test]
fn sensor_changes_send_nothing_out() {
    let mut devices = Devices::new();
    let sensor = Device::new(
        DeviceKey::new("dummy", "door"),
        "door".to_string(),
        DeviceData::Sensor(SensorValue::Boolean(true)),
    );
    let events = devices.set_state(&sensor, false, true);
    assert_eq!(events.len(), 1);
    assert!(matches!(&events[0], Event::InternalStateUpdate { .. }));
}

#[test]
fn scene_link_follows_the_device_through_the_scenes() {
    // Scene A links device d2 to device d1; scene B links d2 to scene A.
    let a = scene(
        "A",
        vec![SceneDeviceEntry {
            key: DeviceKey::new("dummy", "d2"),
            config: SceneDeviceConfig::SceneDeviceLink(SceneDeviceLink {
                integration_id: "dummy".to_string(),
                device_id: Some("d1".to_string()),
                name: None,
                brightness: None,
            }),
        }],
        vec![],
    );
    let b = scene(
        "B",
        vec![SceneDeviceEntry {
            key: DeviceKey::new("dummy", "d2"),
            config: SceneDeviceConfig::SceneLink(SceneDescriptor {
                scene_id: SceneId::new("A"),
                skip_locked_devices: None,
            }),
        }],
        vec![],
    );
    let mut scenes = Scenes::new(vec![a, b]);
    let mut devices = table(vec![light("dummy", "d1", true, 400), light("dummy", "d2", false, 0)]);
    scenes.force_invalidate(devices.get_state(), &no_groups());
    let keys = Some(vec![DeviceKey::new("dummy", "d2")]);
    devices
        .activate_scene(&SceneId::new("B"), &keys, &None, &no_groups(), &scenes)
        .unwrap();
    assert_eq!(brightness_of(&devices, "dummy", "d2"), Some(400));
    assert_eq!(brightness_of(&devices, "dummy", "d1"), Some(400));

    // d1 changes; the scenes are flattened anew and d2 follows.
    devices.set_state(&light("dummy", "d1", true, 700), true, false);
    let affected = scenes.invalidate(devices.get_state(), &no_groups());
    assert_eq!(affected, vec![SceneId::new("A"), SceneId::new("B")]);
    let events = devices.invalidate(&affected, &scenes);
    assert_eq!(brightness_of(&devices, "dummy", "d2"), Some(700));
    assert_eq!(events.len(), 2);
    // Nothing changes the second time round.
    let affected = scenes.invalidate(devices.get_state(), &no_groups());
    assert!(affected.is_empty());
}

#[test]
fn cycle_guard() {
    let link = |to: &str| SceneDeviceEntry {
        key: DeviceKey::new("dummy", "d"),
        config: SceneDeviceConfig::SceneLink(SceneDescriptor {
            scene_id: SceneId::new(to),
            skip_locked_devices: None,
        }),
    };
    let scenes = Scenes::new(vec![
        scene("X", vec![link("Y")], vec![]),
        scene("Y", vec![link("X")], vec![]),
    ]);
    let mut d = light("dummy", "d", true, 500);
    d.scene = Some(homectl::device::SceneBinding { scene_id: SceneId::new("X"), activation_id: 0 });
    let devices = table(vec![d.clone()]);
    assert_eq!(scenes.find_scene_device_state(&d, devices.get_state(), &no_groups()), None);
}

#[test]
fn a_link_that_goes_round_gives_way_to_an_earlier_binding() {
    // X binds d to a state and then, later, to a link to itself: the link
    // comes to nothing, so the state decides.
    let x = scene(
        "X",
        vec![
            state_binding("dummy", "d", 250),
            SceneDeviceEntry {
                key: DeviceKey::new("dummy", "d"),
                config: SceneDeviceConfig::SceneLink(SceneDescriptor {
                    scene_id: SceneId::new("X"),
                    skip_locked_devices: None,
                }),
            },
        ],
        vec![],
    );
    let scenes = Scenes::new(vec![x]);
    let mut d = light("dummy", "d", true, 500);
    d.scene = Some(homectl::device::SceneBinding { scene_id: SceneId::new("X"), activation_id: 0 });
    let devices = table(vec![d.clone()]);
    let state = scenes.find_scene_device_state(&d, devices.get_state(), &no_groups()).unwrap();
    assert_eq!(state.brightness, Some(250));
}

#[test]
fn a_missing_link_comes_to_nothing() {
    let x = scene(
        "X",
        vec![SceneDeviceEntry {
            key: DeviceKey::new("dummy", "d"),
            config: SceneDeviceConfig::SceneLink(SceneDescriptor {
                scene_id: SceneId::new("nowhere"),
                skip_locked_devices: None,
            }),
        }],
        vec![],
    );
    let scenes = Scenes::new(vec![x]);
    let mut d = light("dummy", "d", true, 500);
    d.scene = Some(homectl::device::SceneBinding { scene_id: SceneId::new("X"), activation_id: 0 });
    let devices = table(vec![d.clone()]);
    assert_eq!(scenes.find_scene_device_state(&d, devices.get_state(), &no_groups()), None);
    let mut unbound = light("dummy", "d", true, 500);
    unbound.scene = None;
    assert_eq!(scenes.find_scene_device_state(&unbound, devices.get_state(), &no_groups()), None);
    unbound.scene =
        Some(homectl::device::SceneBinding { scene_id: SceneId::new("gone"), activation_id: 0 });
    assert_eq!(scenes.find_scene_device_state(&unbound, devices.get_state(), &no_groups()), None);
}

#[test]
fn device_link_by_name_with_its_own_brightness() {
    let x = scene(
        "X",
        vec![SceneDeviceEntry {
            key: DeviceKey::new("dummy", "d"),
            config: SceneDeviceConfig::SceneDeviceLink(SceneDeviceLink {
                integration_id: "dummy".to_string(),
                device_id: None,
                name: Some("src light".to_string()),
                brightness: Some(123),
            }),
        }],
        vec![],
    );
    let scenes = Scenes::new(vec![x]);
    let mut d = light("dummy", "d", false, 0);
    d.scene = Some(homectl::device::SceneBinding { scene_id: SceneId::new("X"), activation_id: 0 });
    let devices = table(vec![light("dummy", "src", true, 900), d.clone()]);
    let state = scenes.find_scene_device_state(&d, devices.get_state(), &no_groups()).unwrap();
    assert_eq!(state.brightness, Some(123));
    assert!(state.power);
}

fn group_state(group: &str, brightness: u16) -> SceneGroupEntry {
    SceneGroupEntry {
        group_id: GroupId::new(group),
        config: SceneDeviceConfig::SceneDeviceState(SceneDeviceState {
            power: true,
            color: None,
            brightness: Some(brightness),
            transition_ms: Some(5),
        }),
    }
}

fn group_of(id: &str, devices: &[&str]) -> GroupConfig {
    GroupConfig {
        id: GroupId::new(id),
        name: id.to_string(),
        members: devices
            .iter()
            .map(|d| GroupMember::Device(DeviceKey::new("dummy", d)))
            .collect(),
    }
}

#[test]
fn group_bindings_take_the_place_of_device_bindings() {
    let mut groups = Groups::new(vec![group_of("all", &["a", "b"])]).unwrap();
    let devices = table(vec![light("dummy", "a", false, 0), light("dummy", "b", false, 0)]);
    groups.force_invalidate(devices.get_state());
    let s = scene("S", vec![state_binding("dummy", "a", 111)], vec![group_state("all", 222)]);
    let mut scenes = Scenes::new(vec![s]);
    scenes.force_invalidate(devices.get_state(), groups.get_flattened_groups());
    let flat = scenes.get_flattened_scenes();
    assert_eq!(flat.len(), 1);
    assert_eq!(flat[0].devices.len(), 2);
    assert_eq!(flat[0].devices[0].key, DeviceKey::new("dummy", "a"));
    assert_eq!(flat[0].devices[0].state.brightness, Some(222));
    assert_eq!(flat[0].devices[1].key, DeviceKey::new("dummy", "b"));
    assert_eq!(flat[0].devices[1].state.brightness, Some(222));
    assert_eq!(flat[0].devices[1].state.transition_ms, Some(5));
    assert!(scenes.find_scene(&SceneId::new("S")).is_some());
    assert!(scenes.find_scene(&SceneId::new("T")).is_none());
}

#[test]
fn a_scene_without_groups_comes_to_its_device_bindings() {
    let groups = Groups::new(vec![]).unwrap();
    let bindings = || vec![state_binding("dummy", "z", 10), state_binding("hue", "a", 20)];
    let scenes = Scenes::new(vec![
        scene("S", bindings(), vec![]),
        Scene {
            id: SceneId::new("bare"),
            config: SceneConfig { name: "bare".to_string(), devices: None, groups: None },
        },
    ]);
    // No device is known: the bindings are there all the same.
    assert_eq!(scenes.find_scene_devices_config(&SceneId::new("S"), &groups), Some(bindings()));
    assert_eq!(scenes.find_scene_devices_config(&SceneId::new("bare"), &groups), Some(vec![]));
    assert_eq!(scenes.find_scene_devices_config(&SceneId::new("nowhere"), &groups), None);
}

#[test]
fn the_devices_of_bound_groups_are_bound_whether_known_or_not() {
    let groups = Groups::new(vec![
        group_of("left", &["a", "b"]),
        group_of("right", &["b", "c"]),
        GroupConfig {
            id: GroupId::new("both"),
            name: "both".to_string(),
            members: vec![
                GroupMember::Group(GroupId::new("left")),
                GroupMember::Group(GroupId::new("right")),
            ],
        },
    ])
    .unwrap();
    assert_eq!(
        groups.find_group_device_links(&GroupId::new("both")),
        Some(&vec![
            DeviceKey::new("dummy", "a"),
            DeviceKey::new("dummy", "b"),
            DeviceKey::new("dummy", "b"),
            DeviceKey::new("dummy", "c"),
        ])
    );
    assert_eq!(groups.find_group_device_links(&GroupId::new("none")), None);
    assert_eq!(groups.get_group_links().len(), 3);
    let s = scene(
        "S",
        vec![state_binding("dummy", "d", 1), state_binding("dummy", "a", 2)],
        vec![group_state("left", 30), group_state("missing", 40), group_state("right", 50)],
    );
    let scenes = Scenes::new(vec![s]);
    let config = scenes.find_scene_devices_config(&SceneId::new("S"), &groups).unwrap();
    let found: Vec<(String, Option<u16>)> = config
        .iter()
        .map(|e| {
            let brightness = match &e.config {
                SceneDeviceConfig::SceneDeviceState(s) => s.brightness,
                _ => None,
            };
            (e.key.to_text(), brightness)
        })
        .collect();
    assert_eq!(
        found,
        vec![
            ("dummy/d".to_string(), Some(1)),
            // The binding of the group takes the place of the device's own.
            ("dummy/a".to_string(), Some(30)),
            // The group bound last decides.
            ("dummy/b".to_string(), Some(50)),
            ("dummy/c".to_string(), Some(50)),
        ]
    );
}

#[test]
fn the_binding_defined_last_wins() {
    let s = scene(
        "S",
        vec![state_binding("dummy", "a", 100), state_binding("dummy", "a", 200)],
        vec![],
    );
    let mut scenes = Scenes::new(vec![s]);
    let devices = table(vec![light("dummy", "a", false, 0)]);
    scenes.force_invalidate(devices.get_state(), &no_groups());
    assert_eq!(
        scenes.projected_state(&SceneId::new("S"), &DeviceKey::new("dummy", "a")).unwrap().brightness,
        Some(200)
    );
}

#[test]
fn store_scene_override_twice_is_the_same_as_once() {
    let devices = table(vec![light("dummy", "a", false, 0)]);
    let d = devices.get_device(&DeviceKey::new("dummy", "a")).unwrap();
    let mut once = Scenes::new(vec![scene("S", vec![state_binding("dummy", "a", 100)], vec![])]);
    let mut twice = Scenes::new(vec![scene("S", vec![state_binding("dummy", "a", 100)], vec![])]);
    assert!(!once.has_override(d));
    once.store_scene_override(d, true);
    twice.store_scene_override(d, true);
    twice.store_scene_override(d, true);
    assert!(once.has_override(d));
    assert!(twice.has_override(d));
    once.force_invalidate(devices.get_state(), &no_groups());
    twice.force_invalidate(devices.get_state(), &no_groups());
    assert_eq!(once.get_flattened_scenes(), twice.get_flattened_scenes());
    assert!(once.get_flattened_scenes()[0].devices.is_empty());
    twice.store_scene_override(d, false);
    assert!(!twice.has_override(d));
    twice.store_scene_override(d, false);
    assert!(!twice.has_override(d));
    twice.force_invalidate(devices.get_state(), &no_groups());
    assert_eq!(twice.get_flattened_scenes()[0].devices.len(), 1);
}

#[test]
fn stored_scenes_shadow_configured_ones_and_refresh_keeps_the_configuration() {
    let mut scenes = Scenes::new(vec![scene("S", vec![state_binding("dummy", "a", 100)], vec![])]);
    let devices = table(vec![light("dummy", "a", false, 0)]);
    scenes.store_db_scene(
        SceneId::new("S"),
        SceneConfig {
            name: "stored".to_string(),
            devices: Some(vec![state_binding("dummy", "a", 900)]),
            groups: None,
        },
    );
    scenes.store_db_scene(
        SceneId::new("T"),
        SceneConfig { name: "t".to_string(), devices: None, groups: None },
    );
    assert_eq!(scenes.find_scene(&SceneId::new("S")).unwrap().name, "stored");
    scenes.force_invalidate(devices.get_state(), &no_groups());
    let key = DeviceKey::new("dummy", "a");
    assert_eq!(scenes.projected_state(&SceneId::new("S"), &key).unwrap().brightness, Some(900));
    let before: Vec<_> = scenes.get_flattened_scenes().iter().map(|s| s.id.clone()).collect();
    assert_eq!(before, vec![SceneId::new("S"), SceneId::new("T"), SceneId::new("S")]);

    scenes.rename_db_scene(&SceneId::new("T"), "renamed".to_string());
    assert_eq!(scenes.find_scene(&SceneId::new("T")).unwrap().name, "renamed");
    scenes.rename_db_scene(&SceneId::new("nowhere"), "x".to_string());

    scenes.delete_db_scene(&SceneId::new("S"));
    assert_eq!(scenes.find_scene(&SceneId::new("S")).unwrap().name, "S");
    scenes.delete_db_scene(&SceneId::new("S"));
    assert_eq!(scenes.find_scene(&SceneId::new("S")).unwrap().name, "S");

    scenes.refresh_db_scenes(vec![scene("U", vec![], vec![])]);
    assert!(scenes.has_scene(&SceneId::new("U")));
    assert!(scenes.has_scene(&SceneId::new("S")));
    assert!(!scenes.has_scene(&SceneId::new("T")));
}

#[test]
fn storing_a_scene_then_refreshing_from_the_store_yields_the_same_flattened_scenes() {
    let stored = || SceneConfig {
        name: "stored".to_string(),
        devices: Some(vec![state_binding("dummy", "a", 900)]),
        groups: None,
    };
    let devices = table(vec![light("dummy", "a", false, 0)]);
    let mut scenes = Scenes::new(vec![scene("S", vec![state_binding("dummy", "a", 100)], vec![])]);
    scenes.store_db_scene(SceneId::new("N"), stored());
    scenes.force_invalidate(devices.get_state(), &no_groups());
    let before: Vec<(SceneId, Vec<(DeviceKey, SceneDeviceState)>)> = scenes
        .get_flattened_scenes()
        .iter()
        .map(|s| (s.id.clone(), s.devices.iter().map(|e| (e.key.clone(), e.state)).collect()))
        .collect();
    // The store now holds the scene; the hub takes its stored scenes from it.
    scenes.refresh_db_scenes(vec![Scene { id: SceneId::new("N"), config: stored() }]);
    scenes.force_invalidate(devices.get_state(), &no_groups());
    let after: Vec<(SceneId, Vec<(DeviceKey, SceneDeviceState)>)> = scenes
        .get_flattened_scenes()
        .iter()
        .map(|s| (s.id.clone(), s.devices.iter().map(|e| (e.key.clone(), e.state)).collect()))
        .collect();
    assert_eq!(before, after);
    assert_eq!(before.len(), 2);
}

#[test]
fn activate_scene_without_keys_takes_every_device_of_the_scene() {
    let s = scene("S", vec![state_binding("dummy", "a", 100)], vec![]);
    let mut scenes = Scenes::new(vec![s]);
    let mut devices = table(vec![light("dummy", "a", false, 0), light("dummy", "b", false, 0)]);
    scenes.force_invalidate(devices.get_state(), &no_groups());
    let events =
        devices.activate_scene(&SceneId::new("S"), &None, &None, &no_groups(), &scenes).unwrap();
    assert_eq!(events.len(), 2);
    let a = devices.get_device(&DeviceKey::new("dummy", "a")).unwrap();
    assert_eq!(a.get_scene_id(), Some(SceneId::new("S")));
    assert_eq!(a.scene.as_ref().unwrap().activation_id, 0);
    assert_eq!(a.get_state().unwrap().brightness, Some(100));
    let b = devices.get_device(&DeviceKey::new("dummy", "b")).unwrap();
    assert_eq!(b.get_scene_id(), None);
    // The next activation gets the next id.
    devices.activate_scene(&SceneId::new("S"), &None, &None, &no_groups(), &scenes).unwrap();
    let a = devices.get_device(&DeviceKey::new("dummy", "a")).unwrap();
    assert_eq!(a.scene.as_ref().unwrap().activation_id, 1);
}

#[test]
fn activate_scene_refuses_what_it_does_not_know() {
    let s = scene("S", vec![state_binding("dummy", "a", 100)], vec![]);
    let mut scenes = Scenes::new(vec![s]);
    let mut devices = table(vec![light("dummy", "a", false, 0)]);
    scenes.force_invalidate(devices.get_state(), &no_groups());
    let r = devices.activate_scene(&SceneId::new("T"), &None, &None, &no_groups(), &scenes);
    assert_eq!(r, Err(HubError::UnknownScene(SceneId::new("T"))));
    let keys = Some(vec![DeviceKey::new("dummy", "zz")]);
    let r = devices.activate_scene(&SceneId::new("S"), &keys, &None, &no_groups(), &scenes);
    assert_eq!(r, Err(HubError::UnknownDevice(DeviceKey::new("dummy", "zz"))));
    let groups = Some(vec![GroupId::new("g")]);
    let r = devices.activate_scene(&SceneId::new("S"), &None, &groups, &no_groups(), &scenes);
    assert_eq!(r, Err(HubError::UnknownGroup(GroupId::new("g"))));
    assert_eq!(devices.get_device(&DeviceKey::new("dummy", "a")).unwrap().get_scene_id(), None);
}

fn three_scenes() -> (Scenes, Devices, Vec<SceneDescriptor>) {
    let mut scenes = Scenes::new(vec![
        scene("one", vec![state_binding("dummy", "a", 100)], vec![]),
        scene("two", vec![state_binding("dummy", "a", 200)], vec![]),
        scene("three", vec![state_binding("dummy", "a", 300)], vec![]),
    ]);
    let devices = table(vec![light("dummy", "a", false, 0)]);
    scenes.force_invalidate(devices.get_state(), &no_groups());
    let list = ["one", "two", "three"]
        .iter()
        .map(|id| SceneDescriptor { scene_id: SceneId::new(id), skip_locked_devices: None })
        .collect();
    (scenes, devices, list)
}

#[test]
fn cycle_scenes_steps_through_the_list_and_wraps() {
    let (scenes, mut devices, list) = three_scenes();
    let keys = Some(vec![DeviceKey::new("dummy", "a")]);
    let bound = |devices: &Devices| {
        devices.get_device(&DeviceKey::new("dummy", "a")).unwrap().get_scene_id().unwrap().0
    };
    devices.cycle_scenes(&list, false, &no_groups(), &keys, &None, &scenes).unwrap();
    assert_eq!(bound(&devices), "one");
    devices.cycle_scenes(&list, false, &no_groups(), &keys, &None, &scenes).unwrap();
    assert_eq!(bound(&devices), "two");
    assert_eq!(brightness_of(&devices, "dummy", "a"), Some(200));
    devices.cycle_scenes(&list, false, &no_groups(), &keys, &None, &scenes).unwrap();
    assert_eq!(bound(&devices), "three");
    devices.cycle_scenes(&list, false, &no_groups(), &keys, &None, &scenes).unwrap();
    assert_eq!(bound(&devices), "one");
}

#[test]
fn cycle_scenes_with_nowrap_at_the_last_scene_remains_there() {
    let (scenes, mut devices, list) = three_scenes();
    let keys = Some(vec![DeviceKey::new("dummy", "a")]);
    for _ in 0..3 {
        devices.cycle_scenes(&list, true, &no_groups(), &keys, &None, &scenes).unwrap();
    }
    let bound = |devices: &Devices| {
        devices.get_device(&DeviceKey::new("dummy", "a")).unwrap().get_scene_id().unwrap().0
    };
    assert_eq!(bound(&devices), "three");
    devices.cycle_scenes(&list, true, &no_groups(), &keys, &None, &scenes).unwrap();
    assert_eq!(bound(&devices), "three");
    assert_eq!(brightness_of(&devices, "dummy", "a"), Some(300));
    let none: Vec<SceneDescriptor> = Vec::new();
    let events = devices.cycle_scenes(&none, true, &no_groups(), &keys, &None, &scenes).unwrap();
    assert!(events.is_empty());
    assert_eq!(bound(&devices), "three");
}

#[test]
fn external_update_of_a_bound_device_keeps_the_projected_state() {
    let s = scene("S", vec![state_binding("dummy", "a", 100)], vec![]);
    let mut scenes = Scenes::new(vec![s]);
    let mut devices = Devices::new();
    // First report: the device is discovered.
    let events = devices.handle_external_state_update(&light("dummy", "a", true, 700), &scenes);
    assert_eq!(events.len(), 1);
    assert!(matches!(&events[0], Event::InternalStateUpdate { old: None, .. }));
    scenes.force_invalidate(devices.get_state(), &no_groups());
    devices.activate_scene(&SceneId::new("S"), &None, &None, &no_groups(), &scenes).unwrap();
    assert_eq!(brightness_of(&devices, "dummy", "a"), Some(100));
    // The integration reports another brightness: the scene wins and the
    // device is told so.
    let events = devices.handle_external_state_update(&light("dummy", "a", true, 650), &scenes);
    assert_eq!(brightness_of(&devices, "dummy", "a"), Some(100));
    let stored = devices.get_device(&DeviceKey::new("dummy", "a")).unwrap();
    match stored.data {
        DeviceData::Managed(m) => assert_eq!(m.raw.unwrap().brightness, Some(650)),
        DeviceData::Sensor(_) => panic!("a light was stored as a sensor"),
    }
    assert_eq!(events.len(), 2);
    assert!(matches!(&events[0], Event::InternalStateUpdate { .. }));
    assert!(matches!(&events[1], Event::SetExternalState { device }
        if device.get_state().unwrap().brightness == Some(100)));
    // An echo of the projected state leads to nothing.
    let events = devices.handle_external_state_update(&light("dummy", "a", true, 100), &scenes);
    assert!(events.is_empty());
}

#[test]
fn external_update_of_an_unbound_device_takes_the_report() {
    let scenes = Scenes::new(vec![]);
    let mut devices = Devices::new();
    devices.handle_external_state_update(&light("dummy", "a", true, 700), &scenes);
    let events = devices.handle_external_state_update(&light("dummy", "a", false, 300), &scenes);
    assert_eq!(events.len(), 1);
    assert_eq!(brightness_of(&devices, "dummy", "a"), Some(300));
    let sensor = Device::new(
        DeviceKey::new("dummy", "door"),
        "door".to_string(),
        DeviceData::Sensor(SensorValue::Number(3)),
    );
    assert_eq!(devices.handle_external_state_update(&sensor, &scenes).len(), 1);
    assert_eq!(devices.handle_external_state_update(&sensor, &scenes).len(), 0);
}

#[test]
fn bindings_to_scenes_that_are_gone_are_taken_away() {
    let mut scenes = Scenes::new(vec![]);
    scenes.store_db_scene(
        SceneId::new("S"),
        SceneConfig {
            name: "s".to_string(),
            devices: Some(vec![state_binding("dummy", "a", 100)]),
            groups: None,
        },
    );
    let mut devices = table(vec![light("dummy", "a", false, 0)]);
    scenes.force_invalidate(devices.get_state(), &no_groups());
    devices.activate_scene(&SceneId::new("S"), &None, &None, &no_groups(), &scenes).unwrap();
    scenes.delete_db_scene(&SceneId::new("S"));
    devices.retain_known_scenes(&scenes);
    let a = devices.get_device(&DeviceKey::new("dummy", "a")).unwrap();
    assert_eq!(a.get_scene_id(), None);
    assert_eq!(a.get_state().unwrap().brightness, Some(100));
}

#[test]
fn device_table_clone_holds_the_same_devices() {
    let devices = table(vec![light("dummy", "a", false, 0), light("dummy", "b", true, 5)]);
    let copy: DevicesState = devices.get_state().clone();
    assert_eq!(&copy, devices.get_state());
    assert!(copy.get(&DeviceKey::new("dummy", "b")).is_some());
    assert!(copy.get(&DeviceKey::new("dummy", "c")).is_none());
}
