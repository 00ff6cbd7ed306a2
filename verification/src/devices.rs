//! The device table of the hub and the commands that act on it: reports
//! from integrations, scene activation and cycling, dimming, and the
//! re-projection of devices when scenes change.

use vstd::prelude::*;

use crate::device::{Device, DeviceData, DeviceKey, ManagedDevice, SceneBinding};
use crate::device_table::{device_at, device_index, device_keys, devices_wf, find_device, DevicesState};
use crate::error::HubError;
use crate::event::Event;
use crate::groups::{contains_key, flat_groups, key_views, FlatGroup, FlattenedGroup};
use crate::ids::{GroupId, SceneId};
use crate::scene::SceneDescriptor;
use crate::scenes::{group_has, projected, scene_index, FlatScene, Scenes};
use crate::table::{has_key, lemma_first_index, lemma_index_of_is, lemma_index_of_none};

verus! {

/// The device with the state its scene holds for it, or as it is where it
/// is bound to no scene or its scene holds nothing for it.
pub open spec fn project(d: Device, flattened: Seq<FlatScene>) -> Device {
    match d.scene {
        Some(b) => match projected(flattened, b.scene_id@, d.key@) {
            Some(s) => d.spec_with_state(s.spec_device_state()),
            None => d,
        },
        None => d,
    }
}

/// The events a change of one device leads to: the change itself, where
/// `emit_internal` asks for it, then the request to send the new state out,
/// unless `skip_external` or the device is a sensor. A device that shows
/// what it showed before leads to none.
pub open spec fn set_events(old: Option<Device>, new: Device, skip_external: bool, emit_internal: bool) -> Seq<
    Event,
> {
    let changed = match old {
        Some(o) => !o.spec_same_state(new),
        None => true,
    };
    let internal = if emit_internal && changed {
        seq![Event::InternalStateUpdate { old, new }]
    } else {
        Seq::empty()
    };
    let external = if !skip_external && changed && new.data is Managed {
        seq![Event::SetExternalState { device: new }]
    } else {
        Seq::empty()
    };
    internal + external
}

/// The events the change of the device at one position leads to.
pub open spec fn change_events(before: Device, after: Device) -> Seq<Event> {
    set_events(Some(before), after, false, true)
}

/// The events the changes at the first `n` positions lead to, in order.
pub open spec fn table_events(before: Seq<Device>, after: Seq<Device>, n: int) -> Seq<Event>
    decreases n,
{
    if n <= 0 {
        Seq::empty()
    } else {
        table_events(before, after, n - 1) + change_events(before[n - 1], after[n - 1])
    }
}

/// The table with `d` in the place of the device of its key, or at the
/// end.
pub open spec fn table_after_set(devices: Seq<Device>, d: Device) -> Seq<Device> {
    match device_index(devices, d.key@) {
        Some(i) => devices.update(i, d),
        None => devices.push(d),
    }
}

/// The device as the table holds it after `incoming` was reported:
/// a sensor with its new reading; a controllable device with the report as
/// its raw state and, as its state, what its scene holds for it, or the
/// report where no scene governs it. The scene binding is the one the table
/// had; a device seen for the first time is bound to none.
pub open spec fn reported(incoming: Device, current: Option<Device>, flattened: Seq<FlatScene>) -> Device {
    let key = match current {
        Some(c) => c.key,
        None => incoming.key,
    };
    let scene = match current {
        Some(c) => c.scene,
        None => None,
    };
    match incoming.data {
        DeviceData::Sensor(_) => Device { key, name: incoming.name, data: incoming.data, scene },
        DeviceData::Managed(m) => project(
            Device {
                key,
                name: incoming.name,
                data: DeviceData::Managed(
                    ManagedDevice { state: m.state, raw: Some(m.state), capabilities: m.capabilities },
                ),
                scene,
            },
            flattened,
        ),
    }
}

/// The events a report leads to: the change, where the report differs
/// from what the device showed, then a request to send the device its
/// state, where its scene holds another state than it reported.
pub open spec fn report_events(incoming: Device, current: Option<Device>, stored: Device) -> Seq<
    Event,
> {
    let differs = match current {
        Some(c) => match incoming.data {
            DeviceData::Managed(m) => c.spec_state() != Some(m.state),
            DeviceData::Sensor(_) => c.data != incoming.data,
        },
        None => true,
    };
    let drifted = match incoming.data {
        DeviceData::Managed(m) => stored.spec_state() != Some(m.state),
        DeviceData::Sensor(_) => false,
    };
    let internal = if differs {
        seq![Event::InternalStateUpdate { old: current, new: stored }]
    } else {
        Seq::empty()
    };
    let external = if drifted {
        seq![Event::SetExternalState { device: stored }]
    } else {
        Seq::empty()
    };
    internal + external
}

/// Whether one of the first `n` groups holds the device `k`.
pub open spec fn in_groups(groups: Seq<FlatGroup>, ids: Seq<GroupId>, k: (Seq<char>, Seq<char>), n: int) -> bool
    decreases n,
{
    if n <= 0 {
        false
    } else {
        in_groups(groups, ids, k, n - 1) || group_has(groups, ids[n - 1]@, k)
    }
}

/// The device keys a request gives, none where it gives no list.
pub open spec fn given_devices(keys: Option<Vec<DeviceKey>>) -> Seq<DeviceKey> {
    match keys {
        Some(v) => v@,
        None => Seq::empty(),
    }
}

/// The group keys a request gives, none where it gives no list.
pub open spec fn given_groups(keys: Option<Vec<GroupId>>) -> Seq<GroupId> {
    match keys {
        Some(v) => v@,
        None => Seq::empty(),
    }
}

/// Whether a request names no device and no group.
pub open spec fn unaddressed(device_keys: Option<Vec<DeviceKey>>, group_keys: Option<Vec<GroupId>>) -> bool {
    given_devices(device_keys).len() == 0 && given_groups(group_keys).len() == 0
}

/// Whether a request addresses the device `k`: by its key, or through a
/// group that holds it.
pub open spec fn addressed(
    device_keys: Option<Vec<DeviceKey>>,
    group_keys: Option<Vec<GroupId>>,
    groups: Seq<FlatGroup>,
    k: (Seq<char>, Seq<char>),
) -> bool {
    has_key(key_views(given_devices(device_keys)), k) || in_groups(
        groups,
        given_groups(group_keys),
        k,
        given_groups(group_keys).len() as int,
    )
}

/// Whether the activation of the scene `id` concerns the device `k`: the
/// devices the request addresses, or, where it names none, every device the
/// scene holds a state for.
pub open spec fn activation_target(
    id: Seq<char>,
    device_keys: Option<Vec<DeviceKey>>,
    group_keys: Option<Vec<GroupId>>,
    groups: Seq<FlatGroup>,
    flattened: Seq<FlatScene>,
    k: (Seq<char>, Seq<char>),
) -> bool {
    if unaddressed(device_keys, group_keys) {
        projected(flattened, id, k) is Some
    } else {
        addressed(device_keys, group_keys, groups, k)
    }
}

/// The device bound to the scene `id` by activation `activation_id`, with
/// the state the scene holds for it. A sensor is left as it is.
pub open spec fn activated(d: Device, id: SceneId, activation_id: u64, flattened: Seq<FlatScene>) -> Device {
    match d.data {
        DeviceData::Managed(_) => project(
            Device { scene: Some(SceneBinding { scene_id: id, activation_id }), ..d },
            flattened,
        ),
        DeviceData::Sensor(_) => d,
    }
}

/// The table after the scene `id` was activated.
pub open spec fn activated_table(
    devices: Seq<Device>,
    id: SceneId,
    activation_id: u64,
    device_keys: Option<Vec<DeviceKey>>,
    group_keys: Option<Vec<GroupId>>,
    groups: Seq<FlatGroup>,
    flattened: Seq<FlatScene>,
) -> Seq<Device> {
    Seq::new(
        devices.len(),
        |t: int|
            if activation_target(id@, device_keys, group_keys, groups, flattened, devices[t].key@) {
                activated(devices[t], id, activation_id, flattened)
            } else {
                devices[t]
            },
    )
}

/// The activation id after `id`.
pub open spec fn next_id(id: u64) -> u64 {
    if id == u64::MAX {
        0u64
    } else {
        (id + 1) as u64
    }
}

/// Whether the device is a controllable one bound to the scene `id`.
pub open spec fn bound_to(d: Device, id: Seq<char>) -> bool {
    d.data is Managed && (d.scene matches Some(b) && b.scene_id@ == id)
}

/// Whether, among the first `n` devices, some controllable device is
/// concerned by the activation of scene `id`.
pub open spec fn any_target(
    devices: Seq<Device>,
    id: Seq<char>,
    device_keys: Option<Vec<DeviceKey>>,
    group_keys: Option<Vec<GroupId>>,
    groups: Seq<FlatGroup>,
    flattened: Seq<FlatScene>,
    n: int,
) -> bool
    decreases n,
{
    if n <= 0 {
        false
    } else {
        any_target(devices, id, device_keys, group_keys, groups, flattened, n - 1) || (devices[n
            - 1].data is Managed && activation_target(
            id,
            device_keys,
            group_keys,
            groups,
            flattened,
            devices[n - 1].key@,
        ))
    }
}

/// Whether, among the first `n` devices, some controllable device that the
/// activation of scene `id` concerns is not bound to it.
pub open spec fn any_unbound(
    devices: Seq<Device>,
    id: Seq<char>,
    device_keys: Option<Vec<DeviceKey>>,
    group_keys: Option<Vec<GroupId>>,
    groups: Seq<FlatGroup>,
    flattened: Seq<FlatScene>,
    n: int,
) -> bool
    decreases n,
{
    if n <= 0 {
        false
    } else {
        any_unbound(devices, id, device_keys, group_keys, groups, flattened, n - 1) || (devices[n
            - 1].data is Managed && activation_target(
            id,
            device_keys,
            group_keys,
            groups,
            flattened,
            devices[n - 1].key@,
        ) && !bound_to(devices[n - 1], id))
    }
}

/// Whether the scene `id` is the one in force on the devices its
/// activation concerns: there is such a device, and all of them are bound
/// to it.
pub open spec fn scene_active(
    devices: Seq<Device>,
    id: Seq<char>,
    device_keys: Option<Vec<DeviceKey>>,
    group_keys: Option<Vec<GroupId>>,
    groups: Seq<FlatGroup>,
    flattened: Seq<FlatScene>,
) -> bool {
    any_target(devices, id, device_keys, group_keys, groups, flattened, devices.len() as int)
        && !any_unbound(
        devices,
        id,
        device_keys,
        group_keys,
        groups,
        flattened,
        devices.len() as int,
    )
}

/// The first position from `from` on whose scene is in force.
pub open spec fn active_from(
    devices: Seq<Device>,
    list: Seq<SceneDescriptor>,
    device_keys: Option<Vec<DeviceKey>>,
    group_keys: Option<Vec<GroupId>>,
    groups: Seq<FlatGroup>,
    flattened: Seq<FlatScene>,
    from: int,
) -> Option<int>
    decreases list.len() - from,
{
    if from < 0 || from >= list.len() {
        None
    } else if scene_active(
        devices,
        list[from].scene_id@,
        device_keys,
        group_keys,
        groups,
        flattened,
    ) {
        Some(from)
    } else {
        active_from(devices, list, device_keys, group_keys, groups, flattened, from + 1)
    }
}

/// The position to activate next in a list of `len` scenes, given the
/// position in force: the one after it; from the last one, the first, or
/// with `nowrap` the last again; the first where none is in force.
pub open spec fn next_position(current: Option<int>, len: int, nowrap: bool) -> int {
    match current {
        None => 0,
        Some(i) => if i + 1 < len {
            i + 1
        } else if nowrap {
            i
        } else {
            0
        },
    }
}

/// The device with its brightness moved by `step`, where it is addressed
/// and controllable.
pub open spec fn dimmed_device(
    d: Device,
    step: i32,
    device_keys: Option<Vec<DeviceKey>>,
    group_keys: Option<Vec<GroupId>>,
    groups: Seq<FlatGroup>,
) -> Device {
    match d.data {
        DeviceData::Managed(m) => if addressed(device_keys, group_keys, groups, d.key@) {
            d.spec_with_state(m.state.spec_dimmed(step))
        } else {
            d
        },
        DeviceData::Sensor(_) => d,
    }
}

/// The table after dimming.
pub open spec fn dimmed_table(
    devices: Seq<Device>,
    step: i32,
    device_keys: Option<Vec<DeviceKey>>,
    group_keys: Option<Vec<GroupId>>,
    groups: Seq<FlatGroup>,
) -> Seq<Device> {
    Seq::new(
        devices.len(),
        |t: int| dimmed_device(devices[t], step, device_keys, group_keys, groups),
    )
}

/// The views of a sequence of scene ids.
pub open spec fn scene_id_views(ids: Seq<SceneId>) -> Seq<Seq<char>> {
    Seq::new(ids.len(), |i: int| ids[i]@)
}

/// Whether the device is bound to one of the scenes `affected`.
pub open spec fn bound_to_affected(d: Device, affected: Seq<SceneId>) -> bool {
    d.scene matches Some(b) && has_key(scene_id_views(affected), b.scene_id@)
}

/// The table with every device bound to an affected scene projected anew.
pub open spec fn reprojected_table(devices: Seq<Device>, affected: Seq<SceneId>, flattened: Seq<FlatScene>) -> Seq<
    Device,
> {
    Seq::new(
        devices.len(),
        |t: int|
            if bound_to_affected(devices[t], affected) {
                project(devices[t], flattened)
            } else {
                devices[t]
            },
    )
}

/// The device without its binding where it is bound to a scene that is
/// not among `scenes`.
pub open spec fn with_known_scene(d: Device, scenes: Seq<Seq<char>>) -> Device {
    match d.scene {
        Some(b) => if has_key(scenes, b.scene_id@) {
            d
        } else {
            Device { scene: None, ..d }
        },
        None => d,
    }
}

/// The table with the bindings to scenes that are not defined taken away.
pub open spec fn known_scenes_table(devices: Seq<Device>, scenes: Seq<Seq<char>>) -> Seq<Device> {
    Seq::new(devices.len(), |t: int| with_known_scene(devices[t], scenes))
}

/// Every scene binding names a scene among `scenes`.
pub open spec fn bindings_known(devices: Seq<Device>, scenes: Seq<Seq<char>>) -> bool {
    forall|t: int|
        0 <= t < devices.len() ==> ((#[trigger] devices[t]).scene matches Some(b) ==> has_key(
            scenes,
            b.scene_id@,
        ))
}

/// The first of the first `n` keys that names no device of the table.
pub open spec fn first_unknown_device(devices: Seq<Device>, keys: Seq<DeviceKey>, n: int) -> Option<
    DeviceKey,
>
    decreases n,
{
    if n <= 0 {
        None
    } else {
        match first_unknown_device(devices, keys, n - 1) {
            Some(k) => Some(k),
            None => if device_index(devices, keys[n - 1]@) is None {
                Some(keys[n - 1])
            } else {
                None
            },
        }
    }
}

/// The first of the first `n` ids that names no materialized group.
pub open spec fn first_unknown_group(groups: Seq<FlatGroup>, ids: Seq<GroupId>, n: int) -> Option<
    GroupId,
>
    decreases n,
{
    if n <= 0 {
        None
    } else {
        match first_unknown_group(groups, ids, n - 1) {
            Some(g) => Some(g),
            None => if crate::groups::flat_group_index(groups, ids[n - 1]@) is None {
                Some(ids[n - 1])
            } else {
                None
            },
        }
    }
}

/// What is wrong with the devices and groups a request names: the first
/// device key that is unknown, else the first group id that is unknown.
pub open spec fn address_error(
    devices: Seq<Device>,
    device_keys: Option<Vec<DeviceKey>>,
    group_keys: Option<Vec<GroupId>>,
    groups: Seq<FlatGroup>,
) -> Option<HubError> {
    match first_unknown_device(
        devices,
        given_devices(device_keys),
        given_devices(device_keys).len() as int,
    ) {
        Some(k) => Some(HubError::UnknownDevice(k)),
        None => match first_unknown_group(
            groups,
            given_groups(group_keys),
            given_groups(group_keys).len() as int,
        ) {
            Some(g) => Some(HubError::UnknownGroup(g)),
            None => None,
        },
    }
}

proof fn lemma_unknown_device_stays(devices: Seq<Device>, keys: Seq<DeviceKey>, m: int, n: int)
    requires
        m <= n,
        first_unknown_device(devices, keys, m) is Some,
    ensures
        first_unknown_device(devices, keys, n) == first_unknown_device(devices, keys, m),
    decreases n - m,
{
    if m < n {
        lemma_unknown_device_stays(devices, keys, m, n - 1);
    }
}

proof fn lemma_unknown_group_stays(groups: Seq<FlatGroup>, ids: Seq<GroupId>, m: int, n: int)
    requires
        m <= n,
        first_unknown_group(groups, ids, m) is Some,
    ensures
        first_unknown_group(groups, ids, n) == first_unknown_group(groups, ids, m),
    decreases n - m,
{
    if m < n {
        lemma_unknown_group_stays(groups, ids, m, n - 1);
    }
}

/// Why the activation of the scene `id` is refused: the scene is not
/// defined, or the request names a device or a group that is unknown.
pub open spec fn activation_error(
    scenes: Seq<crate::scene::Scene>,
    id: SceneId,
    devices: Seq<Device>,
    device_keys: Option<Vec<DeviceKey>>,
    group_keys: Option<Vec<GroupId>>,
    groups: Seq<FlatGroup>,
) -> Option<HubError> {
    if scene_index(scenes, id@) is None {
        Some(HubError::UnknownScene(id))
    } else {
        address_error(devices, device_keys, group_keys, groups)
    }
}

/// The keys of a table do not depend on what its devices show.
proof fn lemma_same_keys(before: Seq<Device>, after: Seq<Device>)
    requires
        before.len() == after.len(),
        forall|t: int| 0 <= t < before.len() ==> (#[trigger] after[t]).key@ == before[t].key@,
    ensures
        device_keys(after) == device_keys(before),
{
    assert(device_keys(after) =~= device_keys(before));
}

/// The device with the state its scene holds for it.
pub fn project_device(d: &Device, scenes: &Scenes) -> (r: Device)
    ensures
        r == project(*d, scenes.flattened()),
{
    match &d.scene {
        Some(b) => match scenes.projected_state(&b.scene_id, &d.key) {
            Some(s) => d.with_state(s.to_device_state()),
            None => d.clone(),
        },
        None => d.clone(),
    }
}

/// Adds to `events` what the change from `was` to `new` leads to.
fn push_set_events(
    events: &mut Vec<Event>,
    was: Option<&Device>,
    new: &Device,
    skip_external: bool,
    emit_internal: bool,
)
    ensures
        final(events)@ == old(events)@ + set_events(
            match was {
                Some(o) => Some(*o),
                None => None,
            },
            *new,
            skip_external,
            emit_internal,
        ),
{
    let ghost before = events@;
    let changed = match was {
        Some(o) => !o.same_state(new),
        None => true,
    };
    if emit_internal && changed {
        let old_copy = match was {
            Some(o) => Some(o.clone()),
            None => None,
        };
        events.push(Event::InternalStateUpdate { old: old_copy, new: new.clone() });
    }
    let managed = match new.data {
        DeviceData::Managed(_) => true,
        DeviceData::Sensor(_) => false,
    };
    if !skip_external && changed && managed {
        events.push(Event::SetExternalState { device: new.clone() });
    }
    assert(events@ =~= before + set_events(
        match was {
            Some(o) => Some(*o),
            None => None,
        },
        *new,
        skip_external,
        emit_internal,
    ));
}

/// Whether one of the groups `ids` holds `key`.
fn held_by_groups(groups: &Vec<FlattenedGroup>, ids: &Vec<GroupId>, key: &DeviceKey) -> (b: bool)
    ensures
        b == in_groups(flat_groups(groups@), ids@, key@, ids@.len() as int),
{
    let mut found = false;
    let mut i: usize = 0;
    while i < ids.len()
        invariant
            i <= ids.len(),
            found == in_groups(flat_groups(groups@), ids@, key@, i as int),
        decreases ids.len() - i,
    {
        if crate::scenes::group_holds(groups, &ids[i], key) {
            found = true;
        }
        i += 1;
    }
    found
}

/// Whether the request addresses `key`.
fn is_addressed(
    device_keys: &Option<Vec<DeviceKey>>,
    group_keys: &Option<Vec<GroupId>>,
    groups: &Vec<FlattenedGroup>,
    key: &DeviceKey,
) -> (b: bool)
    ensures
        b == addressed(*device_keys, *group_keys, flat_groups(groups@), key@),
{
    let explicit = match device_keys {
        Some(v) => contains_key(v, key),
        None => {
            proof {
                lemma_index_of_none(key_views(Seq::<DeviceKey>::empty()), key@);
            }
            false
        },
    };
    let grouped = match group_keys {
        Some(v) => held_by_groups(groups, v, key),
        None => false,
    };
    explicit || grouped
}

/// Whether the request names no device and no group.
fn is_unaddressed(device_keys: &Option<Vec<DeviceKey>>, group_keys: &Option<Vec<GroupId>>) -> (b:
    bool)
    ensures
        b == unaddressed(*device_keys, *group_keys),
{
    let no_devices = match device_keys {
        Some(v) => v.len() == 0,
        None => true,
    };
    let no_groups = match group_keys {
        Some(v) => v.len() == 0,
        None => true,
    };
    no_devices && no_groups
}

/// Whether the activation of scene `id` concerns `key`.
fn is_activation_target(
    id: &SceneId,
    device_keys: &Option<Vec<DeviceKey>>,
    group_keys: &Option<Vec<GroupId>>,
    groups: &Vec<FlattenedGroup>,
    scenes: &Scenes,
    key: &DeviceKey,
) -> (b: bool)
    ensures
        b == activation_target(
            id@,
            *device_keys,
            *group_keys,
            flat_groups(groups@),
            scenes.flattened(),
            key@,
        ),
{
    if is_unaddressed(device_keys, group_keys) {
        scenes.projected_state(id, key).is_some()
    } else {
        is_addressed(device_keys, group_keys, groups, key)
    }
}

/// What is wrong with the devices and groups a request names.
fn find_address_error(
    devices: &Vec<Device>,
    device_keys: &Option<Vec<DeviceKey>>,
    group_keys: &Option<Vec<GroupId>>,
    groups: &Vec<FlattenedGroup>,
) -> (r: Option<HubError>)
    ensures
        r == address_error(devices@, *device_keys, *group_keys, flat_groups(groups@)),
{
    match device_keys {
        Some(v) => {
            let mut i: usize = 0;
            while i < v.len()
                invariant
                    i <= v.len(),
                    given_devices(*device_keys) == v@,
                    first_unknown_device(devices@, v@, i as int) is None,
                decreases v.len() - i,
            {
                if find_device(devices, &v[i]).is_none() {
                    proof {
                        assert(first_unknown_device(devices@, v@, i as int + 1) == Some(
                            v@[i as int],
                        ));
                        lemma_unknown_device_stays(devices@, v@, i as int + 1, v@.len() as int);
                    }
                    return Some(HubError::UnknownDevice(v[i].clone()));
                }
                i += 1;
            }
        },
        None => {},
    }
    match group_keys {
        Some(v) => {
            let mut i: usize = 0;
            while i < v.len()
                invariant
                    i <= v.len(),
                    given_groups(*group_keys) == v@,
                    first_unknown_group(flat_groups(groups@), v@, i as int) is None,
                    first_unknown_device(
                        devices@,
                        given_devices(*device_keys),
                        given_devices(*device_keys).len() as int,
                    ) is None,
                decreases v.len() - i,
            {
                if find_flat(groups, &v[i]).is_none() {
                    proof {
                        assert(first_unknown_group(flat_groups(groups@), v@, i as int + 1)
                            == Some(v@[i as int]));
                        lemma_unknown_group_stays(
                            flat_groups(groups@),
                            v@,
                            i as int + 1,
                            v@.len() as int,
                        );
                    }
                    return Some(HubError::UnknownGroup(v[i].clone()));
                }
                i += 1;
            }
        },
        None => {},
    }
    None
}

/// The materialized group under `id`.
fn find_flat(groups: &Vec<FlattenedGroup>, id: &GroupId) -> (r: Option<usize>)
    ensures
        match r {
            Some(i) => crate::groups::flat_group_index(flat_groups(groups@), id@) == Some(i as int)
                && i < groups.len(),
            None => crate::groups::flat_group_index(flat_groups(groups@), id@) is None,
        },
{
    let mut i: usize = 0;
    while i < groups.len()
        invariant
            i <= groups.len(),
            forall|j: int|
                0 <= j < i ==> crate::groups::flat_group_ids(flat_groups(groups@))[j] != id@,
        decreases groups.len() - i,
    {
        if groups[i].id.same(id) {
            proof {
                lemma_index_of_is(
                    crate::groups::flat_group_ids(flat_groups(groups@)),
                    id@,
                    i as int,
                );
            }
            return Some(i);
        }
        i += 1;
    }
    proof {
        lemma_index_of_none(crate::groups::flat_group_ids(flat_groups(groups@)), id@);
    }
    None
}

/// Whether `ids` holds the scene id `id`.
fn holds_scene_id(ids: &Vec<SceneId>, id: &SceneId) -> (b: bool)
    ensures
        b == has_key(scene_id_views(ids@), id@),
{
    let mut i: usize = 0;
    while i < ids.len()
        invariant
            i <= ids.len(),
            forall|j: int| 0 <= j < i ==> scene_id_views(ids@)[j] != id@,
        decreases ids.len() - i,
    {
        if ids[i].same(id) {
            proof {
                lemma_index_of_is(scene_id_views(ids@), id@, i as int);
            }
            return true;
        }
        i += 1;
    }
    proof {
        lemma_index_of_none(scene_id_views(ids@), id@);
    }
    false
}

/// The device table of the hub.
pub struct Devices {
    state: DevicesState,
    next_activation: u64,
}

impl Devices {
    /// The devices, in the order they were first seen.
    pub closed spec fn table(&self) -> Seq<Device> {
        self.state@
    }

    /// The id the next activation of a scene gets.
    pub closed spec fn next_activation(&self) -> u64 {
        self.next_activation
    }

    /// No key occurs twice.
    pub open spec fn wf(&self) -> bool {
        devices_wf(self.table())
    }

    pub fn new() -> (r: Devices)
        ensures
            r.wf(),
            r.table() == Seq::<Device>::empty(),
            r.next_activation() == 0,
    {
        Devices { state: DevicesState::new(), next_activation: 0 }
    }

    /// The device table.
    pub fn get_state(&self) -> (r: &DevicesState)
        ensures
            r@ == self.table(),
    {
        &self.state
    }

    /// The device under `key`.
    pub fn get_device(&self, key: &DeviceKey) -> (r: Option<&Device>)
        ensures
            match r {
                Some(d) => device_at(self.table(), key@) == Some(*d),
                None => device_at(self.table(), key@) is None,
            },
    {
        self.state.get(key)
    }

    /// Puts `device` in the table, in the place of the device of its key
    /// or at the end, and returns the events this leads to.
    pub fn set_state(&mut self, device: &Device, skip_external: bool, emit_internal: bool) -> (events:
        Vec<Event>)
        requires
            old(self).wf(),
        ensures
            final(self).wf(),
            final(self).table() == table_after_set(old(self).table(), *device),
            final(self).next_activation() == old(self).next_activation(),
            events@ == set_events(
                device_at(old(self).table(), device.key@),
                *device,
                skip_external,
                emit_internal,
            ),
    {
        let mut events: Vec<Event> = Vec::new();
        let ghost before = self.state@;
        match find_device(&self.state.0, &device.key) {
            Some(i) => {
                push_set_events(
                    &mut events,
                    Some(&self.state.0[i]),
                    device,
                    skip_external,
                    emit_internal,
                );
                self.state.0.set(i, device.clone());
                proof {
                    lemma_same_keys(before, self.state@);
                }
            },
            None => {
                push_set_events(&mut events, None, device, skip_external, emit_internal);
                self.state.0.push(device.clone());
                proof {
                    lemma_first_index(device_keys(before), device.key@, 0);
                    assert forall|a: int, b: int|
                        0 <= a < b < device_keys(self.state@).len() implies device_keys(
                        self.state@,
                    )[a] != device_keys(self.state@)[b] by {
                        if b < before.len() {
                            assert(device_keys(before)[a] != device_keys(before)[b]);
                        } else {
                            assert(device_keys(before)[a] != device.key@);
                        }
                    }
                }
            },
        }
        events
    }

    /// Takes in what an integration reports of a device and returns the
    /// events this leads to.
    pub fn handle_external_state_update(&mut self, incoming: &Device, scenes: &Scenes) -> (events:
        Vec<Event>)
        requires
            old(self).wf(),
        ensures
            final(self).wf(),
            final(self).next_activation() == old(self).next_activation(),
            final(self).table() == table_after_set(
                old(self).table(),
                reported(*incoming, device_at(old(self).table(), incoming.key@), scenes.flattened()),
            ),
            events@ == report_events(
                *incoming,
                device_at(old(self).table(), incoming.key@),
                reported(*incoming, device_at(old(self).table(), incoming.key@), scenes.flattened()),
            ),
    {
        let ghost before = self.state@;
        let found = find_device(&self.state.0, &incoming.key);
        let (key, scene) = match found {
            Some(i) => {
                let c = &self.state.0[i];
                let scene = match &c.scene {
                    Some(b) => Some(b.clone()),
                    None => None,
                };
                (c.key.clone(), scene)
            },
            None => (incoming.key.clone(), None),
        };
        let stored = match incoming.data {
            DeviceData::Sensor(_) => Device {
                key,
                name: incoming.name.clone(),
                data: incoming.data,
                scene,
            },
            DeviceData::Managed(m) => {
                let base = Device {
                    key,
                    name: incoming.name.clone(),
                    data: DeviceData::Managed(
                        ManagedDevice {
                            state: m.state,
                            raw: Some(m.state),
                            capabilities: m.capabilities,
                        },
                    ),
                    scene,
                };
                project_device(&base, scenes)
            },
        };
        let differs = match found {
            Some(i) => match incoming.data {
                DeviceData::Managed(m) => match self.state.0[i].get_state() {
                    Some(s) => s != m.state,
                    None => true,
                },
                DeviceData::Sensor(_) => self.state.0[i].data != incoming.data,
            },
            None => true,
        };
        let drifted = match incoming.data {
            DeviceData::Managed(m) => match stored.get_state() {
                Some(s) => s != m.state,
                None => true,
            },
            DeviceData::Sensor(_) => false,
        };
        let mut events: Vec<Event> = Vec::new();
        if differs {
            let old_copy = match found {
                Some(i) => Some(self.state.0[i].clone()),
                None => None,
            };
            events.push(Event::InternalStateUpdate { old: old_copy, new: stored.clone() });
        }
        if drifted {
            events.push(Event::SetExternalState { device: stored.clone() });
        }
        assert(events@ =~= report_events(*incoming, device_at(before, incoming.key@), stored));
        match found {
            Some(i) => {
                self.state.0.set(i, stored);
                proof {
                    lemma_same_keys(before, self.state@);
                }
            },
            None => {
                self.state.0.push(stored);
                proof {
                    lemma_first_index(device_keys(before), incoming.key@, 0);
                    assert forall|a: int, b: int|
                        0 <= a < b < device_keys(self.state@).len() implies device_keys(
                        self.state@,
                    )[a] != device_keys(self.state@)[b] by {
                        if b < before.len() {
                            assert(device_keys(before)[a] != device_keys(before)[b]);
                        } else {
                            assert(device_keys(before)[a] != incoming.key@);
                        }
                    }
                }
            },
        }
        events
    }
}

/// The device bound to scene `id` by activation `activation_id`.
fn activate_device(d: &Device, id: &SceneId, activation_id: u64, scenes: &Scenes) -> (r: Device)
    ensures
        r == activated(*d, *id, activation_id, scenes.flattened()),
{
    match d.data {
        DeviceData::Managed(_) => {
            let bound = Device {
                key: d.key.clone(),
                name: d.name.clone(),
                data: d.data,
                scene: Some(SceneBinding { scene_id: id.clone(), activation_id }),
            };
            project_device(&bound, scenes)
        },
        DeviceData::Sensor(_) => d.clone(),
    }
}

/// Whether the scene `id` is in force on the devices its activation
/// concerns.
fn is_scene_active(
    devices: &Vec<Device>,
    id: &SceneId,
    device_keys: &Option<Vec<DeviceKey>>,
    group_keys: &Option<Vec<GroupId>>,
    groups: &Vec<FlattenedGroup>,
    scenes: &Scenes,
) -> (b: bool)
    ensures
        b == scene_active(
            devices@,
            id@,
            *device_keys,
            *group_keys,
            flat_groups(groups@),
            scenes.flattened(),
        ),
{
    let mut any = false;
    let mut unbound = false;
    let mut i: usize = 0;
    while i < devices.len()
        invariant
            i <= devices.len(),
            any == any_target(
                devices@,
                id@,
                *device_keys,
                *group_keys,
                flat_groups(groups@),
                scenes.flattened(),
                i as int,
            ),
            unbound == any_unbound(
                devices@,
                id@,
                *device_keys,
                *group_keys,
                flat_groups(groups@),
                scenes.flattened(),
                i as int,
            ),
        decreases devices.len() - i,
    {
        let d = &devices[i];
        let managed = match d.data {
            DeviceData::Managed(_) => true,
            DeviceData::Sensor(_) => false,
        };
        if managed && is_activation_target(id, device_keys, group_keys, groups, scenes, &d.key) {
            any = true;
            let bound = match &d.scene {
                Some(b) => b.scene_id.same(id),
                None => false,
            };
            if !bound {
                unbound = true;
            }
        }
        i += 1;
    }
    any && !unbound
}

impl Devices {
    /// Puts `fresh` in the place of the table and returns the events the
    /// changes lead to.
    fn replace_all(&mut self, fresh: Vec<Device>) -> (events: Vec<Event>)
        requires
            old(self).wf(),
            fresh@.len() == old(self).table().len(),
            forall|t: int|
                0 <= t < fresh@.len() ==> (#[trigger] fresh@[t]).key@ == old(self).table()[t].key@,
        ensures
            final(self).wf(),
            final(self).table() == fresh@,
            final(self).next_activation() == old(self).next_activation(),
            events@ == table_events(old(self).table(), fresh@, fresh@.len() as int),
    {
        let mut events: Vec<Event> = Vec::new();
        let mut i: usize = 0;
        while i < fresh.len()
            invariant
                i <= fresh.len(),
                fresh@.len() == self.state@.len(),
                events@ == table_events(self.state@, fresh@, i as int),
            decreases fresh.len() - i,
        {
            push_set_events(&mut events, Some(&self.state.0[i]), &fresh[i], false, true);
            i += 1;
        }
        proof {
            lemma_same_keys(self.state@, fresh@);
        }
        self.state = DevicesState(fresh);
        events
    }

    /// Binds the devices concerned to the scene `scene_id` and gives them
    /// the state the scene holds for them: the devices the request names,
    /// directly or through groups, or, where it names none, every device the
    /// scene governs. The activation gets a fresh id. A scene that is not
    /// defined, or a device or group that is unknown, refuses the request
    /// and nothing changes.
    pub fn activate_scene(
        &mut self,
        scene_id: &SceneId,
        device_keys: &Option<Vec<DeviceKey>>,
        group_keys: &Option<Vec<GroupId>>,
        groups: &Vec<FlattenedGroup>,
        scenes: &Scenes,
    ) -> (r: Result<Vec<Event>, HubError>)
        requires
            old(self).wf(),
        ensures
            final(self).wf(),
            match r {
                Ok(events) => {
                    &&& activation_error(
                        scenes.all_scenes(),
                        *scene_id,
                        old(self).table(),
                        *device_keys,
                        *group_keys,
                        flat_groups(groups@),
                    ) is None
                    &&& final(self).table() == activated_table(
                        old(self).table(),
                        *scene_id,
                        old(self).next_activation(),
                        *device_keys,
                        *group_keys,
                        flat_groups(groups@),
                        scenes.flattened(),
                    )
                    &&& final(self).next_activation() == next_id(old(self).next_activation())
                    &&& events@ == table_events(
                        old(self).table(),
                        final(self).table(),
                        old(self).table().len() as int,
                    )
                },
                Err(e) => {
                    &&& activation_error(
                        scenes.all_scenes(),
                        *scene_id,
                        old(self).table(),
                        *device_keys,
                        *group_keys,
                        flat_groups(groups@),
                    ) == Some(e)
                    &&& final(self).table() == old(self).table()
                    &&& final(self).next_activation() == old(self).next_activation()
                },
            },
    {
        if !scenes.has_scene(scene_id) {
            return Err(HubError::UnknownScene(scene_id.clone()));
        }
        match find_address_error(&self.state.0, device_keys, group_keys, groups) {
            Some(e) => {
                return Err(e);
            },
            None => {},
        }
        let activation_id = self.next_activation;
        let ghost target = activated_table(
            self.state@,
            *scene_id,
            activation_id,
            *device_keys,
            *group_keys,
            flat_groups(groups@),
            scenes.flattened(),
        );
        let mut fresh: Vec<Device> = Vec::new();
        let mut i: usize = 0;
        while i < self.state.0.len()
            invariant
                i <= self.state.0.len(),
                fresh@.len() == i,
                target == activated_table(
                    self.state@,
                    *scene_id,
                    activation_id,
                    *device_keys,
                    *group_keys,
                    flat_groups(groups@),
                    scenes.flattened(),
                ),
                forall|t: int| 0 <= t < i ==> (#[trigger] fresh@[t]) == target[t],
            decreases self.state.0.len() - i,
        {
            let d = &self.state.0[i];
            if is_activation_target(scene_id, device_keys, group_keys, groups, scenes, &d.key) {
                fresh.push(activate_device(d, scene_id, activation_id, scenes));
            } else {
                fresh.push(d.clone());
            }
            i += 1;
        }
        assert(fresh@ =~= target);
        let events = self.replace_all(fresh);
        self.next_activation = if activation_id == u64::MAX {
            0
        } else {
            activation_id + 1
        };
        Ok(events)
    }

    /// Activates the scene after the one in force: the first scene of
    /// `list` that every device concerned is bound to counts as in force,
    /// and the next one in the list is activated; from the last one the
    /// first, or with `nowrap` the last again; the first where none is in
    /// force. An empty list changes nothing.
    pub fn cycle_scenes(
        &mut self,
        list: &Vec<SceneDescriptor>,
        nowrap: bool,
        groups: &Vec<FlattenedGroup>,
        device_keys: &Option<Vec<DeviceKey>>,
        group_keys: &Option<Vec<GroupId>>,
        scenes: &Scenes,
    ) -> (r: Result<Vec<Event>, HubError>)
        requires
            old(self).wf(),
        ensures
            final(self).wf(),
            list@.len() == 0 ==> (r matches Ok(events) && events@.len() == 0)
                && final(self).table() == old(self).table() && final(self).next_activation()
                == old(self).next_activation(),
            list@.len() > 0 ==> ({
                let next = next_position(
                    active_from(
                        old(self).table(),
                        list@,
                        *device_keys,
                        *group_keys,
                        flat_groups(groups@),
                        scenes.flattened(),
                        0,
                    ),
                    list@.len() as int,
                    nowrap,
                );
                &&& 0 <= next < list@.len()
                &&& match r {
                    Ok(events) => {
                        &&& activation_error(
                            scenes.all_scenes(),
                            list@[next].scene_id,
                            old(self).table(),
                            *device_keys,
                            *group_keys,
                            flat_groups(groups@),
                        ) is None
                        &&& final(self).table() == activated_table(
                            old(self).table(),
                            list@[next].scene_id,
                            old(self).next_activation(),
                            *device_keys,
                            *group_keys,
                            flat_groups(groups@),
                            scenes.flattened(),
                        )
                        &&& final(self).next_activation() == next_id(old(self).next_activation())
                        &&& events@ == table_events(
                            old(self).table(),
                            final(self).table(),
                            old(self).table().len() as int,
                        )
                    },
                    Err(e) => {
                        &&& activation_error(
                            scenes.all_scenes(),
                            list@[next].scene_id,
                            old(self).table(),
                            *device_keys,
                            *group_keys,
                            flat_groups(groups@),
                        ) == Some(e)
                        &&& final(self).table() == old(self).table()
                        &&& final(self).next_activation() == old(self).next_activation()
                    },
                }
            }),
    {
        if list.len() == 0 {
            return Ok(Vec::new());
        }
        let mut current: Option<usize> = None;
        let mut i: usize = 0;
        while i < list.len() && current.is_none()
            invariant
                i <= list.len(),
                *self == *old(self),
                match current {
                    Some(c) => c < list.len() && active_from(
                        self.state@,
                        list@,
                        *device_keys,
                        *group_keys,
                        flat_groups(groups@),
                        scenes.flattened(),
                        0,
                    ) == Some(c as int),
                    None => active_from(
                        self.state@,
                        list@,
                        *device_keys,
                        *group_keys,
                        flat_groups(groups@),
                        scenes.flattened(),
                        0,
                    ) == active_from(
                        self.state@,
                        list@,
                        *device_keys,
                        *group_keys,
                        flat_groups(groups@),
                        scenes.flattened(),
                        i as int,
                    ),
                },
            decreases list.len() - i + if current is None { 1int } else { 0int },
        {
            if is_scene_active(
                &self.state.0,
                &list[i].scene_id,
                device_keys,
                group_keys,
                groups,
                scenes,
            ) {
                current = Some(i);
            } else {
                i += 1;
            }
        }
        let next: usize = match current {
            None => 0,
            Some(c) => if c + 1 < list.len() {
                c + 1
            } else if nowrap {
                c
            } else {
                0
            },
        };
        self.activate_scene(&list[next].scene_id, device_keys, group_keys, groups, scenes)
    }

    /// Moves the brightness of the controllable devices the request names,
    /// directly or through groups, by `step` thousandths, held within the
    /// range; power does not change. A device or group that is unknown
    /// refuses the request and nothing changes.
    pub fn dim(
        &mut self,
        device_keys: &Option<Vec<DeviceKey>>,
        group_keys: &Option<Vec<GroupId>>,
        step: i32,
        groups: &Vec<FlattenedGroup>,
    ) -> (r: Result<Vec<Event>, HubError>)
        requires
            old(self).wf(),
        ensures
            final(self).wf(),
            final(self).next_activation() == old(self).next_activation(),
            match r {
                Ok(events) => {
                    &&& address_error(
                        old(self).table(),
                        *device_keys,
                        *group_keys,
                        flat_groups(groups@),
                    ) is None
                    &&& final(self).table() == dimmed_table(
                        old(self).table(),
                        step,
                        *device_keys,
                        *group_keys,
                        flat_groups(groups@),
                    )
                    &&& events@ == table_events(
                        old(self).table(),
                        final(self).table(),
                        old(self).table().len() as int,
                    )
                },
                Err(e) => {
                    &&& address_error(
                        old(self).table(),
                        *device_keys,
                        *group_keys,
                        flat_groups(groups@),
                    ) == Some(e)
                    &&& final(self).table() == old(self).table()
                },
            },
    {
        match find_address_error(&self.state.0, device_keys, group_keys, groups) {
            Some(e) => {
                return Err(e);
            },
            None => {},
        }
        let ghost target = dimmed_table(
            self.state@,
            step,
            *device_keys,
            *group_keys,
            flat_groups(groups@),
        );
        let mut fresh: Vec<Device> = Vec::new();
        let mut i: usize = 0;
        while i < self.state.0.len()
            invariant
                i <= self.state.0.len(),
                fresh@.len() == i,
                target == dimmed_table(
                    self.state@,
                    step,
                    *device_keys,
                    *group_keys,
                    flat_groups(groups@),
                ),
                forall|t: int| 0 <= t < i ==> (#[trigger] fresh@[t]) == target[t],
            decreases self.state.0.len() - i,
        {
            let d = &self.state.0[i];
            match d.data {
                DeviceData::Managed(m) => {
                    if is_addressed(device_keys, group_keys, groups, &d.key) {
                        fresh.push(d.with_state(m.state.dimmed(step)));
                    } else {
                        fresh.push(d.clone());
                    }
                },
                DeviceData::Sensor(_) => {
                    fresh.push(d.clone());
                },
            }
            i += 1;
        }
        assert(fresh@ =~= target);
        Ok(self.replace_all(fresh))
    }

    /// Gives every device bound to one of the scenes `affected` the state
    /// its scene now holds for it, and returns the events the changes lead
    /// to.
    pub fn invalidate(&mut self, affected: &Vec<SceneId>, scenes: &Scenes) -> (events: Vec<Event>)
        requires
            old(self).wf(),
        ensures
            final(self).wf(),
            final(self).next_activation() == old(self).next_activation(),
            final(self).table() == reprojected_table(
                old(self).table(),
                affected@,
                scenes.flattened(),
            ),
            events@ == table_events(
                old(self).table(),
                final(self).table(),
                old(self).table().len() as int,
            ),
    {
        let ghost target = reprojected_table(self.state@, affected@, scenes.flattened());
        let mut fresh: Vec<Device> = Vec::new();
        let mut i: usize = 0;
        while i < self.state.0.len()
            invariant
                i <= self.state.0.len(),
                fresh@.len() == i,
                target == reprojected_table(self.state@, affected@, scenes.flattened()),
                forall|t: int| 0 <= t < i ==> (#[trigger] fresh@[t]) == target[t],
            decreases self.state.0.len() - i,
        {
            let d = &self.state.0[i];
            let bound = match &d.scene {
                Some(b) => holds_scene_id(affected, &b.scene_id),
                None => false,
            };
            if bound {
                fresh.push(project_device(d, scenes));
            } else {
                fresh.push(d.clone());
            }
            i += 1;
        }
        assert(fresh@ =~= target);
        self.replace_all(fresh)
    }

    /// Takes away every binding to a scene that is not defined.
    pub fn retain_known_scenes(&mut self, scenes: &Scenes)
        requires
            old(self).wf(),
        ensures
            final(self).wf(),
            final(self).next_activation() == old(self).next_activation(),
            final(self).table() == known_scenes_table(
                old(self).table(),
                crate::scenes::scene_ids(scenes.all_scenes()),
            ),
            bindings_known(final(self).table(), crate::scenes::scene_ids(scenes.all_scenes())),
    {
        let ghost ids = crate::scenes::scene_ids(scenes.all_scenes());
        let ghost target = known_scenes_table(self.state@, ids);
        let ghost before = self.state@;
        let mut fresh: Vec<Device> = Vec::new();
        let mut i: usize = 0;
        while i < self.state.0.len()
            invariant
                i <= self.state.0.len(),
                fresh@.len() == i,
                ids == crate::scenes::scene_ids(scenes.all_scenes()),
                target == known_scenes_table(self.state@, ids),
                forall|t: int| 0 <= t < i ==> (#[trigger] fresh@[t]) == target[t],
            decreases self.state.0.len() - i,
        {
            let d = &self.state.0[i];
            let known = match &d.scene {
                Some(b) => scenes.has_scene(&b.scene_id),
                None => true,
            };
            if known {
                fresh.push(d.clone());
            } else {
                fresh.push(
                    Device { key: d.key.clone(), name: d.name.clone(), data: d.data, scene: None },
                );
            }
            i += 1;
        }
        assert(fresh@ =~= target);
        proof {
            lemma_same_keys(before, fresh@);
        }
        self.state = DevicesState(fresh);
    }
}

/// The table with every device named in `keys` projected anew.
pub open spec fn keyed_projection_table(devices: Seq<Device>, keys: Seq<DeviceKey>, flattened: Seq<FlatScene>) -> Seq<
    Device,
> {
    Seq::new(
        devices.len(),
        |t: int|
            if has_key(key_views(keys), devices[t].key@) {
                project(devices[t], flattened)
            } else {
                devices[t]
            },
    )
}

/// The device without its binding where it is bound to a scene that is
/// not defined.
pub fn known_scene_device(d: &Device, scenes: &Scenes) -> (r: Device)
    ensures
        r == with_known_scene(*d, crate::scenes::scene_ids(scenes.all_scenes())),
{
    let known = match &d.scene {
        Some(b) => scenes.has_scene(&b.scene_id),
        None => true,
    };
    if known {
        d.clone()
    } else {
        Device { key: d.key.clone(), name: d.name.clone(), data: d.data, scene: None }
    }
}

impl Devices {
    /// Gives every device named in `keys` the state its scene now holds
    /// for it, and returns the events the changes lead to.
    pub fn reproject_keys(&mut self, keys: &Vec<DeviceKey>, scenes: &Scenes) -> (events: Vec<Event>)
        requires
            old(self).wf(),
        ensures
            final(self).wf(),
            final(self).next_activation() == old(self).next_activation(),
            final(self).table() == keyed_projection_table(
                old(self).table(),
                keys@,
                scenes.flattened(),
            ),
            events@ == table_events(
                old(self).table(),
                final(self).table(),
                old(self).table().len() as int,
            ),
    {
        let ghost target = keyed_projection_table(self.state@, keys@, scenes.flattened());
        let mut fresh: Vec<Device> = Vec::new();
        let mut i: usize = 0;
        while i < self.state.0.len()
            invariant
                i <= self.state.0.len(),
                fresh@.len() == i,
                target == keyed_projection_table(self.state@, keys@, scenes.flattened()),
                forall|t: int| 0 <= t < i ==> (#[trigger] fresh@[t]) == target[t],
            decreases self.state.0.len() - i,
        {
            let d = &self.state.0[i];
            if contains_key(keys, &d.key) {
                fresh.push(project_device(d, scenes));
            } else {
                fresh.push(d.clone());
            }
            i += 1;
        }
        assert(fresh@ =~= target);
        self.replace_all(fresh)
    }
}

/// Whether the keys of `before` are those of the first devices of
/// `after`, in order: no device is forgotten and none changes its
/// identity.
pub open spec fn keys_stable(before: Seq<Device>, after: Seq<Device>) -> bool {
    &&& before.len() <= after.len()
    &&& forall|t: int| 0 <= t < before.len() ==> (#[trigger] after[t]).key@ == before[t].key@
}

/// Putting a device in the table forgets none and changes no identity.
pub(crate) proof fn lemma_set_keeps_keys(devices: Seq<Device>, d: Device)
    ensures
        keys_stable(devices, table_after_set(devices, d)),
{
    lemma_first_index(device_keys(devices), d.key@, 0);
    match device_index(devices, d.key@) {
        Some(i) => {
            assert(device_keys(devices)[i] == d.key@);
        },
        None => {},
    }
}

/// Putting a device whose binding is known in a table of known bindings
/// leaves the bindings known.
pub(crate) proof fn lemma_set_keeps_bindings(devices: Seq<Device>, d: Device, scenes: Seq<Seq<char>>)
    requires
        bindings_known(devices, scenes),
        d.scene matches Some(b) ==> has_key(scenes, b.scene_id@),
    ensures
        bindings_known(table_after_set(devices, d), scenes),
{
    lemma_first_index(device_keys(devices), d.key@, 0);
    let after = table_after_set(devices, d);
    assert forall|t: int| 0 <= t < after.len() implies ((#[trigger] after[t]).scene matches Some(
        b,
    ) ==> has_key(scenes, b.scene_id@)) by {
        if t < devices.len() && after[t] != d {
            assert(after[t] == devices[t]);
        }
    }
}

/// Projecting a device touches neither its key nor its binding.
pub(crate) proof fn lemma_project_keeps(d: Device, flattened: Seq<FlatScene>)
    ensures
        project(d, flattened).key == d.key,
        project(d, flattened).scene == d.scene,
        project(d, flattened).name == d.name,
{
}

/// Once the devices bound to an affected scene were projected anew, each
/// of them that is controllable shows the state its scene holds for it;
/// where the scene holds none, the device is as it was.
pub proof fn reprojected_devices_show_their_scene(
    devices: Seq<Device>,
    affected: Seq<SceneId>,
    flattened: Seq<FlatScene>,
    t: int,
)
    requires
        0 <= t < devices.len(),
        bound_to_affected(devices[t], affected),
    ensures
        ({
            let before = devices[t];
            let after = reprojected_table(devices, affected, flattened)[t];
            &&& after.key == before.key
            &&& after.scene == before.scene
            &&& match projected(flattened, before.scene->0.scene_id@, before.key@) {
                Some(s) => before.data is Managed ==> after.spec_state() == Some(
                    s.spec_device_state(),
                ),
                None => after == before,
            }
        }),
{
}

/// A list of scenes cycled without wrapping stays at its last scene.
pub proof fn nowrap_stays_at_last(len: int)
    requires
        len > 0,
    ensures
        next_position(Some(len - 1), len, true) == len - 1,
        next_position(Some(len - 1), len, false) == 0,
{
}

/// Dimming leaves the brightness within the range, and a device at either
/// end that is pushed further stays there.
pub proof fn dimming_stays_in_range(b: u16, step: i32)
    ensures
        crate::device::spec_dim_brightness(b, step) <= crate::device::BRIGHTNESS_MAX,
        b == crate::device::BRIGHTNESS_MAX && step >= 0 ==> crate::device::spec_dim_brightness(
            b,
            step,
        ) == crate::device::BRIGHTNESS_MAX,
        b == 0 && step <= 0 ==> crate::device::spec_dim_brightness(b, step) == 0,
{
}

/// A pinned device stays as it is when it is projected, whatever scene it
/// is bound to.
pub proof fn pinned_devices_stay_as_they_are(
    w: crate::scenes::SceneWorld,
    overrides: Seq<DeviceKey>,
    d: Device,
)
    requires
        has_key(key_views(overrides), d.key@),
    ensures
        project(d, crate::scenes::flatten_scenes(w, overrides)) == d,
{
    match d.scene {
        Some(b) => {
            crate::scenes::pinned_devices_are_in_no_flattened_scene(
                w,
                overrides,
                d.key@,
                b.scene_id@,
            );
        },
        None => {},
    }
}

/// Projecting a known device gives it the state that the scene it is bound
/// to comes to for it, and leaves it as it is where the scene comes to
/// nothing.
pub proof fn projection_is_resolution(
    w: crate::scenes::SceneWorld,
    overrides: Seq<DeviceKey>,
    d: Device,
)
    requires
        crate::scenes::known_among(w.devices, w.devices.len() as int, d.key@),
    ensures
        project(d, crate::scenes::flatten_scenes(w, overrides)) == match crate::scenes::device_scene_state(
            w,
            overrides,
            d,
        ) {
            Some(s) => d.spec_with_state(s),
            None => d,
        },
{
    match d.scene {
        Some(b) => {
            crate::scenes::flattened_state_is_resolved_state(w, overrides, b.scene_id@, d.key@);
        },
        None => {},
    }
}

/// Once the devices bound to an affected scene were projected anew and the
/// scenes have settled, which is to say that flattened against the table as
/// it now is they come to what they came to before, each such device that
/// is controllable shows the state its scene comes to when it is resolved
/// afresh.
///
/// Where a scene reads the state of a device that the projection has just
/// changed, the scenes have not settled: the change of that device brings
/// the next round.
pub proof fn settled_devices_show_the_resolved_state(
    w: crate::scenes::SceneWorld,
    overrides: Seq<DeviceKey>,
    affected: Seq<SceneId>,
    t: int,
)
    requires
        0 <= t < w.devices.len(),
        bound_to_affected(w.devices[t], affected),
        w.devices[t].data is Managed,
        crate::scenes::flatten_scenes(
            crate::scenes::SceneWorld {
                devices: reprojected_table(
                    w.devices,
                    affected,
                    crate::scenes::flatten_scenes(w, overrides),
                ),
                ..w
            },
            overrides,
        ) == crate::scenes::flatten_scenes(w, overrides),
    ensures
        ({
            let after = reprojected_table(
                w.devices,
                affected,
                crate::scenes::flatten_scenes(w, overrides),
            );
            let settled = crate::scenes::SceneWorld { devices: after, ..w };
            crate::scenes::device_scene_state(settled, overrides, after[t]) matches Some(s)
                ==> after[t].spec_state() == Some(s)
        }),
{
    let flattened = crate::scenes::flatten_scenes(w, overrides);
    let after = reprojected_table(w.devices, affected, flattened);
    let settled = crate::scenes::SceneWorld { devices: after, ..w };
    let d = after[t];
    assert(d == project(w.devices[t], flattened));
    assert(project(d, flattened) == d);
    assert(crate::scenes::known_among(after, after.len() as int, d.key@)) by {
        assert(0 <= t < after.len() && after[t].key@ == d.key@);
    }
    projection_is_resolution(settled, overrides, d);
}

/// Projecting a device once more changes nothing.
pub proof fn projecting_once_more_changes_nothing(d: Device, flattened: Seq<FlatScene>)
    ensures
        project(project(d, flattened), flattened) == project(d, flattened),
{
}

/// Projecting the devices bound to affected scenes once more changes
/// nothing.
pub proof fn reprojecting_once_more_changes_nothing(
    devices: Seq<Device>,
    affected: Seq<SceneId>,
    flattened: Seq<FlatScene>,
)
    ensures
        reprojected_table(reprojected_table(devices, affected, flattened), affected, flattened)
            == reprojected_table(devices, affected, flattened),
{
    let once = reprojected_table(devices, affected, flattened);
    let twice = reprojected_table(once, affected, flattened);
    assert forall|t: int| 0 <= t < devices.len() implies twice[t] == once[t] by {
        lemma_project_keeps(devices[t], flattened);
    }
    assert(twice =~= once);
}

/// Where the scenes read the state of no device, once the devices bound to
/// an affected scene were projected anew each such device that is
/// controllable shows the state its scene comes to when it is resolved
/// afresh against the table as it then is.
pub proof fn reprojected_devices_show_the_resolved_state(
    w: crate::scenes::SceneWorld,
    overrides: Seq<DeviceKey>,
    affected: Seq<SceneId>,
    t: int,
)
    requires
        crate::scenes::reads_no_device(w),
        0 <= t < w.devices.len(),
        bound_to_affected(w.devices[t], affected),
        w.devices[t].data is Managed,
    ensures
        ({
            let after = reprojected_table(
                w.devices,
                affected,
                crate::scenes::flatten_scenes(w, overrides),
            );
            let settled = crate::scenes::SceneWorld { devices: after, ..w };
            crate::scenes::device_scene_state(settled, overrides, after[t]) matches Some(s)
                ==> after[t].spec_state() == Some(s)
        }),
{
    let flattened = crate::scenes::flatten_scenes(w, overrides);
    let after = reprojected_table(w.devices, affected, flattened);
    assert forall|u: int| 0 <= u < after.len() implies (#[trigger] after[u]).key
        == w.devices[u].key by {
        lemma_project_keeps(w.devices[u], flattened);
    }
    crate::scenes::scenes_without_device_links_have_settled(w, after, overrides);
    settled_devices_show_the_resolved_state(w, overrides, affected, t);
}

} // verus!
