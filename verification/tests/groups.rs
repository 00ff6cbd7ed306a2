use homectl::color::Capabilities;
use homectl::device::{Device, DeviceData, DeviceKey, DeviceState, ManagedDevice};
use homectl::error::HubError;
use homectl::groups::{GroupConfig, GroupMember, Groups};
use homectl::devices::Devices;
use homectl::ids::GroupId;

fn light(id: &str) -> Device {
    Device::new(
        DeviceKey::new("dummy", id),
        id.to_string(),
        DeviceData::Managed(ManagedDevice {
            state: DeviceState::off(),
            raw: None,
            capabilities: Capabilities::none(),
        }),
    )
}

fn table(ids: &[&str]) -> Devices {
    let mut table = Devices::new();
    for id in ids {
        table.set_state(&light(id), true, false);
    }
    table
}

fn group(id: &str, devices: &[&str], groups: &[&str]) -> GroupConfig {
    let mut members: Vec<GroupMember> = Vec::new();
    for d in devices {
        members.push(GroupMember::Device(DeviceKey::new("dummy", d)));
    }
    for g in groups {
        members.push(GroupMember::Group(GroupId::new(g)));
    }
    GroupConfig { id: GroupId::new(id), name: id.to_string(), members }
}

fn keys(ids: &[&str]) -> Vec<DeviceKey> {
    ids.iter().map(|id| DeviceKey::new("dummy", id)).collect()
}

#[test]
fn nested_groups_are_flattened_in_place_and_without_repeats() {
    let mut groups = Groups::new(vec![
        group("downstairs", &["hall", "kitchen"], &[]),
        group("upstairs", &["bedroom"], &[]),
        group("house", &["hall"], &["upstairs", "downstairs", "attic"]),
    ])
    .unwrap();
    let devices = table(&["hall", "kitchen", "bedroom"]);
    groups.force_invalidate(devices.get_state());
    let flat = groups.get_flattened_groups();
    assert_eq!(flat.len(), 3);
    assert_eq!(flat[0].device_keys, keys(&["hall", "kitchen"]));
    assert_eq!(flat[2].id, GroupId::new("house"));
    assert_eq!(flat[2].device_keys, keys(&["hall", "bedroom", "kitchen"]));
    assert_eq!(
        groups.find_group_devices(&GroupId::new("upstairs")),
        Some(&keys(&["bedroom"]))
    );
    assert_eq!(groups.find_group_devices(&GroupId::new("cellar")), None);
}

#[test]
fn only_known_devices_are_members() {
    let mut groups = Groups::new(vec![group("g", &["a", "b"], &[])]).unwrap();
    let mut devices = table(&["a"]);
    groups.force_invalidate(devices.get_state());
    assert_eq!(groups.get_flattened_groups()[0].device_keys, keys(&["a"]));
    // Nothing changes while the devices are the same.
    assert!(groups.invalidate(devices.get_state()).is_empty());
    devices.set_state(&light("b"), true, false);
    assert_eq!(groups.invalidate(devices.get_state()), vec![GroupId::new("g")]);
    assert_eq!(groups.get_flattened_groups()[0].device_keys, keys(&["a", "b"]));
}

#[test]
fn a_group_that_contains_itself_is_refused() {
    let r = Groups::new(vec![group("a", &["x"], &["b"]), group("b", &[], &["c"]), group("c", &[], &["a"])]);
    assert!(matches!(r, Err(HubError::GroupCycle(id)) if id == GroupId::new("a")));
    let r = Groups::new(vec![group("fine", &["x"], &[]), group("self", &[], &["self"])]);
    assert!(matches!(r, Err(HubError::GroupCycle(id)) if id == GroupId::new("self")));
    // Two ways to the same group are no circle.
    let r = Groups::new(vec![
        group("top", &[], &["left", "right"]),
        group("left", &[], &["leaf"]),
        group("right", &[], &["leaf"]),
        group("leaf", &["x"], &[]),
    ]);
    assert!(r.is_ok());
}
