//! Scenes: their definitions, the devices pinned out of their control, and
//! what each scene comes to for each device once its links are followed.

use vstd::prelude::*;

use crate::device::{Device, DeviceData, DeviceKey, DeviceState};
use crate::device_table::{device_at, device_named, find_device, find_device_named, DevicesState};
use crate::groups::{
    clone_keys, contains_key, flat_group_ids, flat_group_index, flat_groups, group_links,
    key_views, FlatGroup, FlattenedGroup, Groups,
};
use crate::ids::SceneId;
use crate::scene::{
    Scene, SceneConfig, SceneDeviceConfig, SceneDeviceEntry, SceneDeviceLink, SceneDeviceState,
    SceneGroupEntry,
};
use crate::table::{
    distinct, has_key, index_of, lemma_first_index, lemma_index_of_is, lemma_index_of_none,
};
use crate::visit::{lemma_visit, only, only_marks, unvisited};

verus! {

/// What a scene comes to for one device.
#[derive(Debug, PartialEq, Eq)]
pub struct FlattenedEntry {
    pub key: DeviceKey,
    pub state: SceneDeviceState,
}

/// A scene with its links followed: a state for each known device it
/// governs, in the order of the device table.
#[derive(Debug, PartialEq, Eq)]
pub struct FlattenedScene {
    pub id: SceneId,
    pub name: String,
    pub devices: Vec<FlattenedEntry>,
}

/// The mathematical value of a flattened scene.
pub struct FlatScene {
    pub id: SceneId,
    pub name: String,
    pub devices: Seq<FlattenedEntry>,
}

impl View for FlattenedScene {
    type V = FlatScene;

    open spec fn view(&self) -> FlatScene {
        FlatScene { id: self.id, name: self.name, devices: self.devices@ }
    }
}

/// The values of a sequence of flattened scenes.
pub open spec fn flat_scenes(scenes: Seq<FlattenedScene>) -> Seq<FlatScene> {
    Seq::new(scenes.len(), |i: int| scenes[i]@)
}

/// What scene resolution reads: the scenes, the materialized groups and the
/// device table.
pub struct SceneWorld {
    pub scenes: Seq<Scene>,
    pub groups: Seq<FlatGroup>,
    pub devices: Seq<Device>,
}

/// The ids of the scenes, in order.
pub open spec fn scene_ids(scenes: Seq<Scene>) -> Seq<Seq<char>> {
    Seq::new(scenes.len(), |i: int| scenes[i].id@)
}

/// The position of the scene under `id`.
pub open spec fn scene_index(scenes: Seq<Scene>, id: Seq<char>) -> Option<int> {
    index_of(scene_ids(scenes), id)
}

/// Whether the materialized group under `id` holds the device `k`.
pub open spec fn group_has(groups: Seq<FlatGroup>, id: Seq<char>, k: (Seq<char>, Seq<char>)) -> bool {
    match flat_group_index(groups, id) {
        Some(i) => has_key(key_views(groups[i].device_keys), k),
        None => false,
    }
}

/// How many bindings a scene holds, of devices and of groups.
pub open spec fn slot_count(config: SceneConfig) -> nat {
    config.device_entries().len() + config.group_entries().len()
}

/// The binding in slot `p` of a scene, where it applies to device `k`.
///
/// Slots are numbered by precedence. A scene is read as a table that is
/// filled with its device bindings first and with its group bindings for
/// every device of the group after that, each in the order of definition,
/// a later binding taking the place of an earlier one for the same device.
/// So the group bindings come first, the one defined last first, then the
/// device bindings, the one defined last first.
pub open spec fn slot(config: SceneConfig, groups: Seq<FlatGroup>, k: (Seq<char>, Seq<char>), p: int) -> Option<
    SceneDeviceConfig,
> {
    let d = config.device_entries();
    let g = config.group_entries();
    if 0 <= p < g.len() {
        let e = g[g.len() - 1 - p];
        if group_has(groups, e.group_id@, k) {
            Some(e.config)
        } else {
            None
        }
    } else if g.len() <= p < g.len() + d.len() {
        let e = d[d.len() - 1 - (p - g.len())];
        if e.key@ == k {
            Some(e.config)
        } else {
            None
        }
    } else {
        None
    }
}

/// The device a link names: by id where it gives one, else by display name.
pub open spec fn link_target(devices: Seq<Device>, link: SceneDeviceLink) -> Option<Device> {
    match link.device_id {
        Some(id) => device_at(devices, (link.integration_id@, id@)),
        None => match link.name {
            Some(name) => device_named(devices, link.integration_id@, name@),
            None => None,
        },
    }
}

/// What a device link comes to: the current state of the device it names,
/// with the link's own brightness where it gives one. A link to a device
/// that is unknown, or is a sensor, comes to nothing.
pub open spec fn link_state(devices: Seq<Device>, link: SceneDeviceLink) -> Option<SceneDeviceState> {
    match link_target(devices, link) {
        Some(d) => match d.data {
            DeviceData::Managed(m) => {
                let s = SceneDeviceState::spec_from_device_state(m.state);
                match link.brightness {
                    Some(b) => Some(SceneDeviceState { brightness: Some(b), ..s }),
                    None => Some(s),
                }
            },
            DeviceData::Sensor(_) => None,
        },
        None => None,
    }
}

/// What the scene at `j` comes to for device `k`, its slots tried from `p`
/// on in order of precedence: the first binding that comes to a state
/// decides. A state is itself; a device link is the linked device's current
/// state; a scene link is what the linked scene comes to for `k`. `marks`
/// holds the scenes on the path of links followed so far: a link to one of
/// them, or to a scene that is not defined, comes to nothing.
pub open spec fn resolve(w: SceneWorld, k: (Seq<char>, Seq<char>), j: int, p: int, marks: Seq<bool>) -> Option<
    SceneDeviceState,
>
    decreases unvisited(marks), slot_count(w.scenes[j].config) - p,
    when 0 <= j < w.scenes.len()
{
    if marks.len() != w.scenes.len() || p < 0 || p >= slot_count(w.scenes[j].config) {
        None
    } else {
        let here = match slot(w.scenes[j].config, w.groups, k, p) {
            None => None,
            Some(SceneDeviceConfig::SceneDeviceState(s)) => Some(s),
            Some(SceneDeviceConfig::SceneDeviceLink(l)) => link_state(w.devices, l),
            Some(SceneDeviceConfig::SceneLink(d)) => match scene_index(w.scenes, d.scene_id@) {
                Some(t) => if 0 <= t < marks.len() && !marks[t] {
                    proof {
                        lemma_visit(marks, t);
                    }
                    resolve(w, k, t, 0, marks.update(t, true))
                } else {
                    None
                },
                None => None,
            },
        };
        match here {
            Some(s) => Some(s),
            None => resolve(w, k, j, p + 1, marks),
        }
    }
}

/// What the scene at `j` comes to for device `k`; nothing for a device
/// pinned out of scene control.
pub open spec fn scene_state(w: SceneWorld, overrides: Seq<DeviceKey>, j: int, k: (Seq<char>, Seq<char>)) -> Option<
    SceneDeviceState,
> {
    if has_key(key_views(overrides), k) {
        None
    } else {
        resolve(w, k, j, 0, only(w.scenes.len(), j))
    }
}

/// The entries of the flattened scene at `j` for the first `n` devices of
/// the table.
pub open spec fn flat_entries(w: SceneWorld, overrides: Seq<DeviceKey>, j: int, n: int) -> Seq<
    FlattenedEntry,
>
    decreases n,
{
    if n <= 0 {
        Seq::empty()
    } else {
        let rest = flat_entries(w, overrides, j, n - 1);
        let d = w.devices[n - 1];
        match scene_state(w, overrides, j, d.key@) {
            Some(s) => rest.push(FlattenedEntry { key: d.key, state: s }),
            None => rest,
        }
    }
}

/// Every scene flattened, in the order of the scenes.
pub open spec fn flatten_scenes(w: SceneWorld, overrides: Seq<DeviceKey>) -> Seq<FlatScene> {
    Seq::new(
        w.scenes.len(),
        |j: int|
            FlatScene {
                id: w.scenes[j].id,
                name: w.scenes[j].config.name,
                devices: flat_entries(w, overrides, j, w.devices.len() as int),
            },
    )
}

/// The ids of flattened scenes, in order.
pub open spec fn flat_scene_ids(scenes: Seq<FlatScene>) -> Seq<Seq<char>> {
    Seq::new(scenes.len(), |i: int| scenes[i].id@)
}

/// The flattened scene under `id`.
pub open spec fn flat_scene_index(scenes: Seq<FlatScene>, id: Seq<char>) -> Option<int> {
    index_of(flat_scene_ids(scenes), id)
}

/// Key and state of each entry, in order.
pub open spec fn entry_views(entries: Seq<FlattenedEntry>) -> Seq<
    ((Seq<char>, Seq<char>), SceneDeviceState),
> {
    Seq::new(entries.len(), |i: int| (entries[i].key@, entries[i].state))
}

/// The keys of the entries, in order.
pub open spec fn entry_keys(entries: Seq<FlattenedEntry>) -> Seq<(Seq<char>, Seq<char>)> {
    Seq::new(entries.len(), |i: int| entries[i].key@)
}

/// The state a flattened scene holds for device `k`.
pub open spec fn entry_state(entries: Seq<FlattenedEntry>, k: (Seq<char>, Seq<char>)) -> Option<
    SceneDeviceState,
> {
    match index_of(entry_keys(entries), k) {
        Some(i) => Some(entries[i].state),
        None => None,
    }
}

/// The state the flattened scene under `id` holds for device `k`.
pub open spec fn projected(flattened: Seq<FlatScene>, id: Seq<char>, k: (Seq<char>, Seq<char>)) -> Option<
    SceneDeviceState,
> {
    match flat_scene_index(flattened, id) {
        Some(j) => entry_state(flattened[j].devices, k),
        None => None,
    }
}

/// Whether the scene at `j` of `after` is new or comes to something else
/// than the scene of that id did in `before`.
pub open spec fn scene_changed(before: Seq<FlatScene>, after: Seq<FlatScene>, j: int) -> bool {
    match flat_scene_index(before, after[j].id@) {
        Some(i) => entry_views(before[i].devices) != entry_views(after[j].devices),
        None => true,
    }
}

/// The ids of the first `n` scenes of `after` that changed, in order.
pub open spec fn changed_scenes(before: Seq<FlatScene>, after: Seq<FlatScene>, n: int) -> Seq<
    SceneId,
>
    decreases n,
{
    if n <= 0 {
        Seq::empty()
    } else {
        let rest = changed_scenes(before, after, n - 1);
        if scene_changed(before, after, n - 1) {
            rest.push(after[n - 1].id)
        } else {
            rest
        }
    }
}

/// The position of the scene under `id` in `scenes`.
pub fn find_scene_index(scenes: &Vec<Scene>, id: &SceneId) -> (r: Option<usize>)
    ensures
        match r {
            Some(i) => scene_index(scenes@, id@) == Some(i as int) && i < scenes.len(),
            None => scene_index(scenes@, id@) is None,
        },
{
    let mut i: usize = 0;
    while i < scenes.len()
        invariant
            i <= scenes.len(),
            forall|j: int| 0 <= j < i ==> scene_ids(scenes@)[j] != id@,
        decreases scenes.len() - i,
    {
        if scenes[i].id.same(id) {
            proof {
                lemma_index_of_is(scene_ids(scenes@), id@, i as int);
            }
            return Some(i);
        }
        i += 1;
    }
    proof {
        lemma_index_of_none(scene_ids(scenes@), id@);
    }
    None
}

/// Whether the materialized group under `id` holds `key`.
pub fn group_holds(groups: &Vec<FlattenedGroup>, id: &crate::ids::GroupId, key: &DeviceKey) -> (b: bool)
    ensures
        b == group_has(flat_groups(groups@), id@, key@),
{
    let mut i: usize = 0;
    while i < groups.len()
        invariant
            i <= groups.len(),
            forall|j: int| 0 <= j < i ==> flat_group_ids(flat_groups(groups@))[j] != id@,
        decreases groups.len() - i,
    {
        if groups[i].id.same(id) {
            proof {
                lemma_index_of_is(flat_group_ids(flat_groups(groups@)), id@, i as int);
            }
            return contains_key(&groups[i].device_keys, key);
        }
        i += 1;
    }
    proof {
        lemma_index_of_none(flat_group_ids(flat_groups(groups@)), id@);
    }
    false
}

/// How many bindings `config` holds.
fn count_slots(config: &SceneConfig) -> (r: (usize, usize))
    ensures
        r.0 == config.device_entries().len(),
        r.1 == config.group_entries().len(),
{
    let d = match &config.devices {
        Some(v) => v.len(),
        None => 0,
    };
    let g = match &config.groups {
        Some(v) => v.len(),
        None => 0,
    };
    (d, g)
}

/// The binding in slot `p`, where it applies to `key`.
fn slot_config<'a>(
    config: &'a SceneConfig,
    groups: &Vec<FlattenedGroup>,
    key: &DeviceKey,
    p: u128,
    d: usize,
    g: usize,
) -> (r: Option<&'a SceneDeviceConfig>)
    requires
        d == config.device_entries().len(),
        g == config.group_entries().len(),
        p < d + g,
    ensures
        match r {
            Some(c) => slot(*config, flat_groups(groups@), key@, p as int) == Some(*c),
            None => slot(*config, flat_groups(groups@), key@, p as int) is None,
        },
{
    if p < g as u128 {
        match &config.groups {
            Some(v) => {
                let e = &v[g - 1 - p as usize];
                if group_holds(groups, &e.group_id, key) {
                    Some(&e.config)
                } else {
                    None
                }
            },
            None => None,
        }
    } else {
        match &config.devices {
            Some(v) => {
                let e = &v[d - 1 - (p - g as u128) as usize];
                if e.key.same(key) {
                    Some(&e.config)
                } else {
                    None
                }
            },
            None => None,
        }
    }
}

/// What a device link comes to.
pub fn resolve_link(devices: &Vec<Device>, link: &SceneDeviceLink) -> (r: Option<SceneDeviceState>)
    ensures
        r == link_state(devices@, *link),
{
    let target: Option<usize> = match &link.device_id {
        Some(id) => {
            let key = DeviceKey { integration_id: link.integration_id.clone(), device_id: id.clone() };
            find_device(devices, &key)
        },
        None => match &link.name {
            Some(name) => find_device_named(devices, &link.integration_id, name),
            None => None,
        },
    };
    match target {
        Some(i) => match devices[i].data {
            DeviceData::Managed(m) => {
                let s = SceneDeviceState::from_device_state(&m.state);
                match link.brightness {
                    Some(b) => Some(
                        SceneDeviceState {
                            power: s.power,
                            color: s.color,
                            brightness: Some(b),
                            transition_ms: s.transition_ms,
                        },
                    ),
                    None => Some(s),
                }
            },
            DeviceData::Sensor(_) => None,
        },
        None => None,
    }
}

/// Follows the bindings of the scene at `j` for `key`.
fn resolve_state(
    scenes: &Vec<Scene>,
    groups: &Vec<FlattenedGroup>,
    devices: &Vec<Device>,
    key: &DeviceKey,
    j: usize,
    marks: &mut Vec<bool>,
) -> (r: Option<SceneDeviceState>)
    requires
        j < scenes.len(),
        old(marks)@.len() == scenes.len(),
    ensures
        final(marks)@ == old(marks)@,
        r == resolve(
            SceneWorld { scenes: scenes@, groups: flat_groups(groups@), devices: devices@ },
            key@,
            j as int,
            0,
            old(marks)@,
        ),
    decreases unvisited(old(marks)@),
{
    let ghost m0 = marks@;
    let ghost w = SceneWorld { scenes: scenes@, groups: flat_groups(groups@), devices: devices@ };
    let config = &scenes[j].config;
    let (d, g) = count_slots(config);
    let mut p: u128 = 0;
    while p < d as u128 + g as u128
        invariant
            j < scenes.len(),
            config == &scenes@[j as int].config,
            d == config.device_entries().len(),
            g == config.group_entries().len(),
            p <= d + g,
            marks@ == m0,
            m0 == old(marks)@,
            m0.len() == scenes.len(),
            w == (SceneWorld { scenes: scenes@, groups: flat_groups(groups@), devices: devices@ }),
            resolve(w, key@, j as int, 0, m0) == resolve(w, key@, j as int, p as int, m0),
        decreases d + g - p,
    {
        let here: Option<SceneDeviceState> = match slot_config(config, groups, key, p, d, g) {
            None => None,
            Some(SceneDeviceConfig::SceneDeviceState(s)) => Some(*s),
            Some(SceneDeviceConfig::SceneDeviceLink(l)) => resolve_link(devices, l),
            Some(SceneDeviceConfig::SceneLink(desc)) => match find_scene_index(
                scenes,
                &desc.scene_id,
            ) {
                Some(t) => {
                    if marks[t] {
                        None
                    } else {
                        proof {
                            lemma_visit(m0, t as int);
                        }
                        marks.set(t, true);
                        let sub = resolve_state(scenes, groups, devices, key, t, marks);
                        marks.set(t, false);
                        assert(marks@ =~= m0);
                        sub
                    }
                },
                None => None,
            },
        };
        if here.is_some() {
            return here;
        }
        p += 1;
    }
    None
}

/// The first binding from slot `p` on that applies to device `k`.
pub open spec fn first_slot(config: SceneConfig, groups: Seq<FlatGroup>, k: (Seq<char>, Seq<char>), p: int) -> Option<
    SceneDeviceConfig,
>
    decreases slot_count(config) - p,
{
    if p < 0 || p >= slot_count(config) {
        None
    } else {
        match slot(config, groups, k, p) {
            Some(c) => Some(c),
            None => first_slot(config, groups, k, p + 1),
        }
    }
}

/// The devices the group under `id` links to; none where no such group
/// is.
pub open spec fn linked_devices(links: Seq<FlatGroup>, id: Seq<char>) -> Seq<DeviceKey> {
    match flat_group_index(links, id) {
        Some(i) => links[i].device_keys,
        None => Seq::empty(),
    }
}

/// The keys of device bindings, in order.
pub open spec fn device_bound_keys(entries: Seq<SceneDeviceEntry>) -> Seq<DeviceKey> {
    Seq::new(entries.len(), |i: int| entries[i].key)
}

/// The devices that the first `n` group bindings reach, in order.
pub open spec fn group_bound_keys(entries: Seq<SceneGroupEntry>, links: Seq<FlatGroup>, n: int) -> Seq<
    DeviceKey,
>
    decreases n,
{
    if n <= 0 {
        Seq::empty()
    } else {
        group_bound_keys(entries, links, n - 1) + linked_devices(links, entries[n - 1].group_id@)
    }
}

/// Every device a scene binds, in the order its bindings reach them and as
/// often as they do: the devices of its device bindings, then the devices
/// its bound groups link to.
pub open spec fn bound_keys(config: SceneConfig, links: Seq<FlatGroup>) -> Seq<DeviceKey> {
    device_bound_keys(config.device_entries()) + group_bound_keys(
        config.group_entries(),
        links,
        config.group_entries().len() as int,
    )
}

/// The keys of entries, in order.
pub open spec fn config_keys(entries: Seq<SceneDeviceEntry>) -> Seq<(Seq<char>, Seq<char>)> {
    Seq::new(entries.len(), |i: int| entries[i].key@)
}

/// For the first `n` of `keys`, each once and in order, the binding of
/// highest precedence that the scene holds for it.
pub open spec fn devices_config(config: SceneConfig, links: Seq<FlatGroup>, keys: Seq<DeviceKey>, n: int) -> Seq<
    SceneDeviceEntry,
>
    decreases n,
{
    if n <= 0 {
        Seq::empty()
    } else {
        let rest = devices_config(config, links, keys, n - 1);
        let k = keys[n - 1];
        if has_key(config_keys(rest), k@) {
            rest
        } else {
            match first_slot(config, links, k@, 0) {
                Some(c) => rest.push(SceneDeviceEntry { key: k, config: c }),
                None => rest,
            }
        }
    }
}

/// The bindings of a scene by device: one entry for each device the scene
/// binds, directly or through a group, with the binding of highest
/// precedence, whether the device is known or not.
pub open spec fn scene_devices_config(config: SceneConfig, links: Seq<FlatGroup>) -> Seq<
    SceneDeviceEntry,
> {
    devices_config(config, links, bound_keys(config, links), bound_keys(config, links).len() as int)
}

/// The overrides once device `key` is pinned (`flag`) or released.
pub open spec fn overrides_after(overrides: Seq<DeviceKey>, key: DeviceKey, flag: bool) -> Seq<
    DeviceKey,
> {
    match index_of(key_views(overrides), key@) {
        Some(i) => if flag {
            overrides
        } else {
            overrides.remove(i)
        },
        None => if flag {
            overrides.push(key)
        } else {
            overrides
        },
    }
}

/// The stored scenes once `config` is stored under `id`: in the place of
/// the scene of that id, or at the end.
pub open spec fn scenes_after_store(scenes: Seq<Scene>, id: SceneId, config: SceneConfig) -> Seq<
    Scene,
> {
    match scene_index(scenes, id@) {
        Some(i) => scenes.update(i, Scene { id, config }),
        None => scenes.push(Scene { id, config }),
    }
}

/// The stored scenes without the scene under `id`.
pub open spec fn scenes_after_delete(scenes: Seq<Scene>, id: Seq<char>) -> Seq<Scene> {
    match scene_index(scenes, id) {
        Some(i) => scenes.remove(i),
        None => scenes,
    }
}

/// The stored scenes with the scene under `id` called `name`.
pub open spec fn scenes_after_rename(scenes: Seq<Scene>, id: Seq<char>, name: String) -> Seq<Scene> {
    match scene_index(scenes, id) {
        Some(i) => scenes.update(
            i,
            Scene { id: scenes[i].id, config: SceneConfig { name, ..scenes[i].config } },
        ),
        None => scenes,
    }
}

/// The state a device takes from the scene it is bound to, as resolved
/// against `w`.
pub open spec fn device_scene_state(w: SceneWorld, overrides: Seq<DeviceKey>, device: Device) -> Option<
    DeviceState,
> {
    match device.scene {
        Some(b) => match scene_index(w.scenes, b.scene_id@) {
            Some(j) => match scene_state(w, overrides, j, device.key@) {
                Some(s) => Some(s.spec_device_state()),
                None => None,
            },
            None => None,
        },
        None => None,
    }
}

/// Whether two lists of entries hold the same keys and states in the same
/// order.
fn same_entries(a: &Vec<FlattenedEntry>, b: &Vec<FlattenedEntry>) -> (r: bool)
    ensures
        r == (entry_views(a@) == entry_views(b@)),
{
    if a.len() != b.len() {
        assert(entry_views(a@).len() != entry_views(b@).len());
        return false;
    }
    let mut i: usize = 0;
    while i < a.len()
        invariant
            i <= a.len(),
            a.len() == b.len(),
            forall|j: int| 0 <= j < i ==> entry_views(a@)[j] == entry_views(b@)[j],
        decreases a.len() - i,
    {
        if !(a[i].key.same(&b[i].key) && a[i].state == b[i].state) {
            assert(entry_views(a@)[i as int] != entry_views(b@)[i as int]);
            return false;
        }
        i += 1;
    }
    assert(entry_views(a@) =~= entry_views(b@));
    true
}

/// The flattened scene under `id`.
pub fn find_flattened(flattened: &Vec<FlattenedScene>, id: &SceneId) -> (r: Option<usize>)
    ensures
        match r {
            Some(i) => flat_scene_index(flat_scenes(flattened@), id@) == Some(i as int)
                && i < flattened.len(),
            None => flat_scene_index(flat_scenes(flattened@), id@) is None,
        },
{
    let mut i: usize = 0;
    while i < flattened.len()
        invariant
            i <= flattened.len(),
            forall|j: int| 0 <= j < i ==> flat_scene_ids(flat_scenes(flattened@))[j] != id@,
        decreases flattened.len() - i,
    {
        if flattened[i].id.same(id) {
            proof {
                lemma_index_of_is(flat_scene_ids(flat_scenes(flattened@)), id@, i as int);
            }
            return Some(i);
        }
        i += 1;
    }
    proof {
        lemma_index_of_none(flat_scene_ids(flat_scenes(flattened@)), id@);
    }
    None
}

/// The state `entries` hold for `key`.
pub fn find_entry(entries: &Vec<FlattenedEntry>, key: &DeviceKey) -> (r: Option<SceneDeviceState>)
    ensures
        r == entry_state(entries@, key@),
{
    let mut i: usize = 0;
    while i < entries.len()
        invariant
            i <= entries.len(),
            forall|j: int| 0 <= j < i ==> entry_keys(entries@)[j] != key@,
        decreases entries.len() - i,
    {
        if entries[i].key.same(key) {
            proof {
                lemma_index_of_is(entry_keys(entries@), key@, i as int);
            }
            return Some(entries[i].state);
        }
        i += 1;
    }
    proof {
        lemma_index_of_none(entry_keys(entries@), key@);
    }
    None
}

/// Whether `entries` hold an entry for `key`.
fn holds_entry(entries: &Vec<SceneDeviceEntry>, key: &DeviceKey) -> (b: bool)
    ensures
        b == has_key(config_keys(entries@), key@),
{
    let mut i: usize = 0;
    while i < entries.len()
        invariant
            i <= entries.len(),
            forall|j: int| 0 <= j < i ==> config_keys(entries@)[j] != key@,
        decreases entries.len() - i,
    {
        if entries[i].key.same(key) {
            proof {
                lemma_index_of_is(config_keys(entries@), key@, i as int);
            }
            return true;
        }
        i += 1;
    }
    proof {
        lemma_index_of_none(config_keys(entries@), key@);
    }
    false
}

/// The devices the group under `id` links to.
fn devices_linked<'a>(links: &'a Vec<FlattenedGroup>, id: &crate::ids::GroupId) -> (r: Option<
    &'a Vec<DeviceKey>,
>)
    ensures
        match r {
            Some(keys) => keys@ == linked_devices(flat_groups(links@), id@),
            None => linked_devices(flat_groups(links@), id@).len() == 0,
        },
{
    let mut i: usize = 0;
    while i < links.len()
        invariant
            i <= links.len(),
            forall|j: int| 0 <= j < i ==> flat_group_ids(flat_groups(links@))[j] != id@,
        decreases links.len() - i,
    {
        if links[i].id.same(id) {
            proof {
                lemma_index_of_is(flat_group_ids(flat_groups(links@)), id@, i as int);
            }
            return Some(&links[i].device_keys);
        }
        i += 1;
    }
    proof {
        lemma_index_of_none(flat_group_ids(flat_groups(links@)), id@);
    }
    None
}

/// Every device `config` binds, in the order its bindings reach them.
fn keys_bound(config: &SceneConfig, links: &Vec<FlattenedGroup>) -> (keys: Vec<DeviceKey>)
    ensures
        keys@ == bound_keys(*config, flat_groups(links@)),
{
    let mut keys: Vec<DeviceKey> = Vec::new();
    match &config.devices {
        Some(entries) => {
            let mut i: usize = 0;
            while i < entries.len()
                invariant
                    i <= entries.len(),
                    keys@.len() == i,
                    forall|t: int| 0 <= t < i ==> (#[trigger] keys@[t]) == entries@[t].key,
                decreases entries.len() - i,
            {
                keys.push(entries[i].key.clone());
                i += 1;
            }
        },
        None => {},
    }
    assert(keys@ =~= device_bound_keys(config.device_entries()));
    let ghost direct = keys@;
    match &config.groups {
        Some(entries) => {
            let mut i: usize = 0;
            while i < entries.len()
                invariant
                    i <= entries.len(),
                    keys@ == direct + group_bound_keys(entries@, flat_groups(links@), i as int),
                decreases entries.len() - i,
            {
                let ghost before = keys@;
                match devices_linked(links, &entries[i].group_id) {
                    Some(linked) => {
                        let mut more = clone_keys(linked);
                        keys.append(&mut more);
                    },
                    None => {},
                }
                assert(keys@ =~= direct + group_bound_keys(
                    entries@,
                    flat_groups(links@),
                    i as int + 1,
                ));
                i += 1;
            }
        },
        None => {
            assert(keys@ =~= direct + group_bound_keys(
                config.group_entries(),
                flat_groups(links@),
                0,
            ));
        },
    }
    keys
}

/// Copies flattened scenes.
pub fn clone_scenes(scenes: &Vec<FlattenedScene>) -> (r: Vec<FlattenedScene>)
    ensures
        flat_scenes(r@) == flat_scenes(scenes@),
{
    let mut out: Vec<FlattenedScene> = Vec::new();
    let mut i: usize = 0;
    while i < scenes.len()
        invariant
            i <= scenes.len(),
            out@.len() == i,
            forall|t: int| 0 <= t < i ==> (#[trigger] out@[t])@ == scenes@[t]@,
        decreases scenes.len() - i,
    {
        let scene = &scenes[i];
        let mut entries: Vec<FlattenedEntry> = Vec::new();
        let mut j: usize = 0;
        while j < scene.devices.len()
            invariant
                j <= scene.devices.len(),
                entries@.len() == j,
                forall|t: int| 0 <= t < j ==> (#[trigger] entries@[t]) == scene.devices@[t],
            decreases scene.devices.len() - j,
        {
            let e = &scene.devices[j];
            entries.push(FlattenedEntry { key: e.key.clone(), state: e.state });
            j += 1;
        }
        assert(entries@ =~= scene.devices@);
        out.push(FlattenedScene { id: scene.id.clone(), name: scene.name.clone(), devices: entries });
        i += 1;
    }
    assert(flat_scenes(out@) =~= flat_scenes(scenes@));
    out
}

/// The manager of the scenes: another name of `Scenes`.
pub type ScenesManager = Scenes;

/// The scenes of the hub.
///
/// Stored scenes come before configured ones, so that a stored scene
/// shadows a configured scene of the same id.
pub struct Scenes {
    scenes: Vec<Scene>,
    stored: usize,
    overrides: Vec<DeviceKey>,
    flattened: Vec<FlattenedScene>,
    source: Ghost<(Seq<FlatGroup>, Seq<Device>)>,
}

impl Scenes {
    /// All scenes: the stored ones, then the configured ones.
    pub closed spec fn all_scenes(&self) -> Seq<Scene> {
        self.scenes@
    }

    /// How many of the scenes are stored ones.
    pub closed spec fn stored_count(&self) -> int {
        self.stored as int
    }

    /// The scenes that came from the store.
    pub open spec fn db_scenes(&self) -> Seq<Scene> {
        self.all_scenes().take(self.stored_count())
    }

    /// The scenes that came from the configuration.
    pub open spec fn config_scenes(&self) -> Seq<Scene> {
        self.all_scenes().skip(self.stored_count())
    }

    /// The devices pinned out of scene control.
    pub closed spec fn overrides(&self) -> Seq<DeviceKey> {
        self.overrides@
    }

    /// The flattened scenes.
    pub closed spec fn flattened(&self) -> Seq<FlatScene> {
        flat_scenes(self.flattened@)
    }

    /// The groups and devices the flattened scenes were last computed
    /// from.
    pub closed spec fn source(&self) -> (Seq<FlatGroup>, Seq<Device>) {
        self.source@
    }

    /// The stored scenes are among the scenes, and no device is pinned
    /// twice.
    pub open spec fn wf(&self) -> bool {
        &&& 0 <= self.stored_count() <= self.all_scenes().len()
        &&& distinct(key_views(self.overrides()))
    }

    /// What the scenes resolve against, given groups and devices.
    pub open spec fn world(&self, groups: Seq<FlatGroup>, devices: Seq<Device>) -> SceneWorld {
        SceneWorld { scenes: self.all_scenes(), groups, devices }
    }

    /// The flattened scenes are what the scenes, the overrides and the
    /// recorded groups and devices come to.
    pub open spec fn current(&self) -> bool {
        self.flattened() == flatten_scenes(
            self.world(self.source().0, self.source().1),
            self.overrides(),
        )
    }

    /// Whether a scene of this id is defined.
    pub open spec fn spec_has_scene(&self, id: Seq<char>) -> bool {
        scene_index(self.all_scenes(), id) is Some
    }

    fn flatten_all(&self, devices: &Vec<Device>, groups: &Vec<FlattenedGroup>) -> (out: Vec<
        FlattenedScene,
    >)
        ensures
            flat_scenes(out@) == flatten_scenes(
                self.world(flat_groups(groups@), devices@),
                self.overrides(),
            ),
    {
        let ghost w = self.world(flat_groups(groups@), devices@);
        let mut out: Vec<FlattenedScene> = Vec::new();
        let mut j: usize = 0;
        while j < self.scenes.len()
            invariant
                j <= self.scenes.len(),
                w == self.world(flat_groups(groups@), devices@),
                out@.len() == j,
                forall|t: int|
                    0 <= t < j ==> (#[trigger] out@[t])@ == flatten_scenes(w, self.overrides())[t],
            decreases self.scenes.len() - j,
        {
            let mut marks = only_marks(self.scenes.len(), j);
            let mut entries: Vec<FlattenedEntry> = Vec::new();
            let mut i: usize = 0;
            while i < devices.len()
                invariant
                    j < self.scenes.len(),
                    i <= devices.len(),
                    w == self.world(flat_groups(groups@), devices@),
                    marks@ == only(self.scenes@.len(), j as int),
                    entries@ == flat_entries(w, self.overrides(), j as int, i as int),
                decreases devices.len() - i,
            {
                let key = &devices[i].key;
                if !contains_key(&self.overrides, key) {
                    match resolve_state(&self.scenes, groups, devices, key, j, &mut marks) {
                        Some(s) => {
                            entries.push(FlattenedEntry { key: key.clone(), state: s });
                        },
                        None => {},
                    }
                }
                i += 1;
            }
            out.push(
                FlattenedScene {
                    id: self.scenes[j].id.clone(),
                    name: self.scenes[j].config.name.clone(),
                    devices: entries,
                },
            );
            j += 1;
        }
        assert(flat_scenes(out@) =~= flatten_scenes(w, self.overrides()));
        out
    }

    /// Takes the configured scenes. Nothing is stored, nothing pinned, and
    /// no device is known yet.
    pub fn new(config: Vec<Scene>) -> (r: Scenes)
        ensures
            r.wf(),
            r.all_scenes() == config@,
            r.stored_count() == 0,
            r.overrides() == Seq::<DeviceKey>::empty(),
            r.source() == (Seq::<FlatGroup>::empty(), Seq::<Device>::empty()),
            r.current(),
    {
        let mut r = Scenes {
            scenes: config,
            stored: 0,
            overrides: Vec::new(),
            flattened: Vec::new(),
            source: Ghost((Seq::empty(), Seq::empty())),
        };
        let devices: Vec<Device> = Vec::new();
        let groups: Vec<FlattenedGroup> = Vec::new();
        let flattened = r.flatten_all(&devices, &groups);
        assert(flat_groups(groups@) =~= Seq::<FlatGroup>::empty());
        r.flattened = flattened;
        r
    }

    /// The definition of the scene under `id`.
    pub fn find_scene(&self, id: &SceneId) -> (r: Option<&SceneConfig>)
        ensures
            match r {
                Some(c) => scene_index(self.all_scenes(), id@) matches Some(j) && *c
                    == self.all_scenes()[j].config,
                None => scene_index(self.all_scenes(), id@) is None,
            },
    {
        match find_scene_index(&self.scenes, id) {
            Some(j) => Some(&self.scenes[j].config),
            None => None,
        }
    }

    /// Whether a scene of this id is defined.
    pub fn has_scene(&self, id: &SceneId) -> (b: bool)
        ensures
            b == self.spec_has_scene(id@),
    {
        find_scene_index(&self.scenes, id).is_some()
    }

    /// The bindings of the scene under `id` by device: one entry for each
    /// device the scene binds, directly or through a group, whether the
    /// device is known or not, with the binding of highest precedence; `None`
    /// where there is no such scene.
    pub fn find_scene_devices_config(&self, id: &SceneId, groups: &Groups) -> (r: Option<
        Vec<SceneDeviceEntry>,
    >)
        requires
            groups.wf(),
        ensures
            match r {
                Some(v) => scene_index(self.all_scenes(), id@) matches Some(j) && v@
                    == scene_devices_config(
                    self.all_scenes()[j].config,
                    group_links(groups.config()),
                ),
                None => scene_index(self.all_scenes(), id@) is None,
            },
    {
        let j = match find_scene_index(&self.scenes, id) {
            Some(j) => j,
            None => {
                return None;
            },
        };
        let config = &self.scenes[j].config;
        let links = groups.get_group_links();
        let keys = keys_bound(config, links);
        let (d, g) = count_slots(config);
        let mut out: Vec<SceneDeviceEntry> = Vec::new();
        let mut i: usize = 0;
        while i < keys.len()
            invariant
                i <= keys.len(),
                config == &self.scenes@[j as int].config,
                d == config.device_entries().len(),
                g == config.group_entries().len(),
                out@ == devices_config(*config, flat_groups(links@), keys@, i as int),
            decreases keys.len() - i,
        {
            let key = &keys[i];
            if !holds_entry(&out, key) {
                let mut p: u128 = 0;
                let mut found: Option<&SceneDeviceConfig> = None;
                while p < d as u128 + g as u128 && found.is_none()
                    invariant
                        p <= d + g,
                        d == config.device_entries().len(),
                        g == config.group_entries().len(),
                        match found {
                            Some(c) => first_slot(*config, flat_groups(links@), key@, 0) == Some(
                                *c,
                            ),
                            None => first_slot(*config, flat_groups(links@), key@, 0)
                                == first_slot(*config, flat_groups(links@), key@, p as int),
                        },
                    decreases d + g - p + if found is None { 1int } else { 0int },
                {
                    found = slot_config(config, links, key, p, d, g);
                    if found.is_none() {
                        p += 1;
                    }
                }
                match found {
                    Some(c) => {
                        out.push(SceneDeviceEntry { key: key.clone(), config: c.clone() });
                    },
                    None => {},
                }
            }
            i += 1;
        }
        Some(out)
    }

    /// The state the device takes from the scene it is bound to, resolved
    /// against the devices and groups given; `None` for a device that is
    /// bound to no scene or to one that is not defined, that is pinned, or
    /// for which the scene comes to nothing.
    pub fn find_scene_device_state(
        &self,
        device: &Device,
        devices: &DevicesState,
        groups: &Vec<FlattenedGroup>,
    ) -> (r: Option<DeviceState>)
        ensures
            r == device_scene_state(
                self.world(flat_groups(groups@), devices@),
                self.overrides(),
                *device,
            ),
    {
        let binding = match &device.scene {
            Some(b) => b,
            None => {
                return None;
            },
        };
        let j = match find_scene_index(&self.scenes, &binding.scene_id) {
            Some(j) => j,
            None => {
                return None;
            },
        };
        if contains_key(&self.overrides, &device.key) {
            return None;
        }
        let mut marks = only_marks(self.scenes.len(), j);
        match resolve_state(&self.scenes, groups, &devices.0, &device.key, j, &mut marks) {
            Some(s) => Some(s.to_device_state()),
            None => None,
        }
    }

    /// Whether the device is pinned out of scene control.
    pub fn has_override(&self, device: &Device) -> (b: bool)
        ensures
            b == has_key(key_views(self.overrides()), device.key@),
    {
        contains_key(&self.overrides, &device.key)
    }

    /// Pins the device out of scene control (`flag`) or releases it. The
    /// flattened scenes are not touched.
    pub fn store_scene_override(&mut self, device: &Device, flag: bool)
        requires
            old(self).wf(),
        ensures
            final(self).wf(),
            final(self).overrides() == overrides_after(old(self).overrides(), device.key, flag),
            has_key(key_views(final(self).overrides()), device.key@) == flag,
            final(self).all_scenes() == old(self).all_scenes(),
            final(self).stored_count() == old(self).stored_count(),
            final(self).flattened() == old(self).flattened(),
            final(self).source() == old(self).source(),
    {
        let mut i: usize = 0;
        let mut found: Option<usize> = None;
        while i < self.overrides.len() && found.is_none()
            invariant
                i <= self.overrides.len(),
                *self == *old(self),
                match found {
                    Some(t) => index_of(key_views(self.overrides@), device.key@) == Some(t as int)
                        && t < self.overrides.len(),
                    None => forall|j: int|
                        0 <= j < i ==> key_views(self.overrides@)[j] != device.key@,
                },
            decreases self.overrides.len() - i + if found is None { 1int } else { 0int },
        {
            if self.overrides[i].same(&device.key) {
                proof {
                    lemma_index_of_is(key_views(self.overrides@), device.key@, i as int);
                }
                found = Some(i);
            } else {
                i += 1;
            }
        }
        proof {
            lemma_overrides_after(self.overrides@, device.key, flag);
        }
        match found {
            Some(t) => {
                if !flag {
                    self.overrides.remove(t);
                }
            },
            None => {
                proof {
                    lemma_index_of_none(key_views(self.overrides@), device.key@);
                }
                if flag {
                    self.overrides.push(device.key.clone());
                }
            },
        }
    }

    /// Puts `snapshot` in the place of the stored scenes. The configured
    /// scenes stay. The flattened scenes are not touched.
    pub fn refresh_db_scenes(&mut self, snapshot: Vec<Scene>)
        requires
            old(self).wf(),
        ensures
            final(self).wf(),
            final(self).db_scenes() == snapshot@,
            final(self).config_scenes() == old(self).config_scenes(),
            final(self).overrides() == old(self).overrides(),
            final(self).flattened() == old(self).flattened(),
            final(self).source() == old(self).source(),
    {
        let mut config = self.scenes.split_off(self.stored);
        let mut scenes = snapshot;
        let n = scenes.len();
        scenes.append(&mut config);
        self.scenes = scenes;
        self.stored = n;
        assert(self.db_scenes() =~= snapshot@);
        assert(self.config_scenes() =~= old(self).config_scenes());
    }

    /// Stores `config` under `id` among the stored scenes.
    pub fn store_db_scene(&mut self, id: SceneId, config: SceneConfig)
        requires
            old(self).wf(),
        ensures
            final(self).wf(),
            final(self).db_scenes() == scenes_after_store(old(self).db_scenes(), id, config),
            final(self).config_scenes() == old(self).config_scenes(),
            final(self).overrides() == old(self).overrides(),
            final(self).flattened() == old(self).flattened(),
            final(self).source() == old(self).source(),
            ids_kept(old(self).all_scenes(), final(self).all_scenes()),
    {
        let ghost before = self.scenes@;
        proof {
            lemma_index_in_prefix(before, self.stored as int, id@);
        }
        let found = match find_scene_index(&self.scenes, &id) {
            Some(i) => if i < self.stored {
                Some(i)
            } else {
                None
            },
            None => None,
        };
        match found {
            Some(i) => {
                proof {
                    lemma_first_index(scene_ids(before), id@, 0);
                }
                self.scenes.set(i, Scene { id, config });
                proof {
                    assert(scene_ids(self.scenes@) =~= scene_ids(before));
                }
            },
            None => {
                self.scenes.insert(self.stored, Scene { id, config });
                proof {
                    lemma_insert_keeps_ids(before, self.stored as int, Scene { id, config });
                }
                let len = self.scenes.len();
                assert(self.stored < len);
                self.stored = self.stored + 1;
            },
        }
        assert(self.db_scenes() =~= scenes_after_store(old(self).db_scenes(), id, config));
        assert(self.config_scenes() =~= old(self).config_scenes());
    }

    /// Removes the stored scene under `id`, if there is one.
    pub fn delete_db_scene(&mut self, id: &SceneId)
        requires
            old(self).wf(),
        ensures
            final(self).wf(),
            final(self).db_scenes() == scenes_after_delete(old(self).db_scenes(), id@),
            final(self).config_scenes() == old(self).config_scenes(),
            final(self).overrides() == old(self).overrides(),
            final(self).flattened() == old(self).flattened(),
            final(self).source() == old(self).source(),
    {
        let ghost before = self.scenes@;
        proof {
            lemma_index_in_prefix(before, self.stored as int, id@);
        }
        match find_scene_index(&self.scenes, id) {
            Some(i) => {
                if i < self.stored {
                    self.scenes.remove(i);
                    self.stored = self.stored - 1;
                }
            },
            None => {},
        }
        assert(self.db_scenes() =~= scenes_after_delete(old(self).db_scenes(), id@));
        assert(self.config_scenes() =~= old(self).config_scenes());
    }

    /// Gives the stored scene under `id`, if there is one, the name `name`.
    pub fn rename_db_scene(&mut self, id: &SceneId, name: String)
        requires
            old(self).wf(),
        ensures
            final(self).wf(),
            final(self).db_scenes() == scenes_after_rename(old(self).db_scenes(), id@, name),
            final(self).config_scenes() == old(self).config_scenes(),
            final(self).overrides() == old(self).overrides(),
            final(self).flattened() == old(self).flattened(),
            final(self).source() == old(self).source(),
            ids_kept(old(self).all_scenes(), final(self).all_scenes()),
    {
        let ghost before = self.scenes@;
        proof {
            lemma_index_in_prefix(before, self.stored as int, id@);
        }
        match find_scene_index(&self.scenes, id) {
            Some(i) => {
                if i < self.stored {
                    let old_scene = self.scenes.remove(i);
                    let Scene { id: old_id, config: old_config } = old_scene;
                    let SceneConfig { name: _, devices, groups } = old_config;
                    self.scenes.insert(
                        i,
                        Scene { id: old_id, config: SceneConfig { name, devices, groups } },
                    );
                    proof {
                        assert(scene_ids(self.scenes@) =~= scene_ids(before));
                    }
                }
            },
            None => {},
        }
        assert(self.db_scenes() =~= scenes_after_rename(old(self).db_scenes(), id@, name));
        assert(self.config_scenes() =~= old(self).config_scenes());
    }

    /// Flattens every scene anew against `devices` and `groups`.
    pub fn force_invalidate(&mut self, devices: &DevicesState, groups: &Vec<FlattenedGroup>)
        ensures
            final(self).all_scenes() == old(self).all_scenes(),
            final(self).stored_count() == old(self).stored_count(),
            final(self).overrides() == old(self).overrides(),
            final(self).source() == (flat_groups(groups@), devices@),
            final(self).current(),
    {
        let flattened = self.flatten_all(&devices.0, groups);
        self.flattened = flattened;
        self.source = Ghost((flat_groups(groups@), devices@));
    }

    /// Flattens every scene anew against `devices` and `groups` and returns
    /// the ids of the scenes that no longer come to what they did.
    pub fn invalidate(&mut self, devices: &DevicesState, groups: &Vec<FlattenedGroup>) -> (changed:
        Vec<SceneId>)
        ensures
            final(self).all_scenes() == old(self).all_scenes(),
            final(self).stored_count() == old(self).stored_count(),
            final(self).overrides() == old(self).overrides(),
            final(self).source() == (flat_groups(groups@), devices@),
            final(self).current(),
            changed@ == changed_scenes(
                old(self).flattened(),
                final(self).flattened(),
                final(self).flattened().len() as int,
            ),
    {
        let fresh = self.flatten_all(&devices.0, groups);
        let mut changed: Vec<SceneId> = Vec::new();
        let mut j: usize = 0;
        while j < fresh.len()
            invariant
                j <= fresh.len(),
                changed@ == changed_scenes(
                    flat_scenes(self.flattened@),
                    flat_scenes(fresh@),
                    j as int,
                ),
            decreases fresh.len() - j,
        {
            let differs = match find_flattened(&self.flattened, &fresh[j].id) {
                Some(i) => !same_entries(&self.flattened[i].devices, &fresh[j].devices),
                None => true,
            };
            if differs {
                changed.push(fresh[j].id.clone());
            }
            j += 1;
        }
        self.flattened = fresh;
        self.source = Ghost((flat_groups(groups@), devices@));
        changed
    }

    /// The flattened scenes.
    pub fn get_flattened_scenes(&self) -> (r: &Vec<FlattenedScene>)
        ensures
            flat_scenes(r@) == self.flattened(),
    {
        &self.flattened
    }

    /// The state the flattened scene under `id` holds for `key`.
    pub fn projected_state(&self, id: &SceneId, key: &DeviceKey) -> (r: Option<SceneDeviceState>)
        ensures
            r == projected(self.flattened(), id@, key@),
    {
        match find_flattened(&self.flattened, id) {
            Some(j) => find_entry(&self.flattened[j].devices, key),
            None => None,
        }
    }
}

/// Every id defined among `before` is defined among `after`.
pub open spec fn ids_kept(before: Seq<Scene>, after: Seq<Scene>) -> bool {
    forall|s: Seq<char>| has_key(scene_ids(before), s) ==> has_key(scene_ids(after), s)
}

/// Where the scene under `id` is found among all scenes tells where it is
/// among the first `n` of them.
proof fn lemma_index_in_prefix(all: Seq<Scene>, n: int, id: Seq<char>)
    requires
        0 <= n <= all.len(),
    ensures
        match scene_index(all, id) {
            Some(i) => if i < n {
                scene_index(all.take(n), id) == Some(i)
            } else {
                scene_index(all.take(n), id) is None
            },
            None => scene_index(all.take(n), id) is None,
        },
{
    lemma_first_index(scene_ids(all), id, 0);
    let part = all.take(n);
    assert forall|j: int| 0 <= j < part.len() implies scene_ids(part)[j] == scene_ids(all)[j] by {}
    match scene_index(all, id) {
        Some(i) => {
            if i < n {
                lemma_index_of_is(scene_ids(part), id, i);
            } else {
                lemma_index_of_none(scene_ids(part), id);
            }
        },
        None => {
            lemma_index_of_none(scene_ids(part), id);
        },
    }
}

/// A scene put in between the others takes no id away.
proof fn lemma_insert_keeps_ids(all: Seq<Scene>, at: int, scene: Scene)
    requires
        0 <= at <= all.len(),
    ensures
        ids_kept(all, all.insert(at, scene)),
{
    let after = all.insert(at, scene);
    assert forall|s: Seq<char>| has_key(scene_ids(all), s) implies has_key(
        scene_ids(after),
        s,
    ) by {
        crate::table::lemma_has_key(scene_ids(all), s);
        let i = choose|i: int| 0 <= i < scene_ids(all).len() && scene_ids(all)[i] == s;
        let j = if i < at {
            i
        } else {
            i + 1
        };
        assert(scene_ids(after)[j] == s);
        crate::table::lemma_has_key(scene_ids(after), s);
    }
}

/// Pinning or releasing a device leaves no device pinned twice, and the
/// device is pinned afterwards exactly if it was pinned.
proof fn lemma_overrides_after(overrides: Seq<DeviceKey>, key: DeviceKey, flag: bool)
    requires
        distinct(key_views(overrides)),
    ensures
        distinct(key_views(overrides_after(overrides, key, flag))),
        has_key(key_views(overrides_after(overrides, key, flag)), key@) == flag,
{
    let before = key_views(overrides);
    let after = key_views(overrides_after(overrides, key, flag));
    lemma_first_index(before, key@, 0);
    match index_of(before, key@) {
        Some(i) => {
            if !flag {
                assert forall|a: int| 0 <= a < after.len() implies after[a] != key@ by {
                    let a0 = if a < i {
                        a
                    } else {
                        a + 1
                    };
                    assert(after[a] == before[a0]);
                    if a0 != i {
                        if a0 < i {
                            assert(before[a0] != before[i]);
                        } else {
                            assert(before[i] != before[a0]);
                        }
                    }
                }
                assert forall|a: int, b: int| 0 <= a < b < after.len() implies after[a]
                    != after[b] by {
                    let a0 = if a < i {
                        a
                    } else {
                        a + 1
                    };
                    let b0 = if b < i {
                        b
                    } else {
                        b + 1
                    };
                    assert(after[a] == before[a0]);
                    assert(after[b] == before[b0]);
                    assert(before[a0] != before[b0]);
                }
                lemma_index_of_none(after, key@);
            }
        },
        None => {
            if flag {
                assert forall|a: int, b: int| 0 <= a < b < after.len() implies after[a]
                    != after[b] by {
                    if b < before.len() {
                        assert(before[a] != before[b]);
                    } else {
                        assert(after[a] == before[a]);
                        assert(before[a] != key@);
                    }
                }
                assert(after[before.len() as int] == key@);
                crate::table::lemma_has_key(after, key@);
            }
        },
    }
}

/// Pinning a device twice is pinning it once.
pub proof fn pinning_twice_is_pinning_once(overrides: Seq<DeviceKey>, key: DeviceKey)
    requires
        distinct(key_views(overrides)),
    ensures
        overrides_after(overrides_after(overrides, key, true), key, true) == overrides_after(
            overrides,
            key,
            true,
        ),
{
    lemma_overrides_after(overrides, key, true);
}

/// Releasing a device twice is releasing it once.
pub proof fn releasing_twice_is_releasing_once(overrides: Seq<DeviceKey>, key: DeviceKey)
    requires
        distinct(key_views(overrides)),
    ensures
        overrides_after(overrides_after(overrides, key, false), key, false) == overrides_after(
            overrides,
            key,
            false,
        ),
{
    lemma_overrides_after(overrides, key, false);
}

/// Scenes that hold the same stored and configured scenes hold the same
/// scenes, and with the same overrides they come to the same whatever the
/// groups and devices: taking the stored scenes from a store that holds
/// them as the hub does changes nothing.
pub proof fn same_scenes_flatten_alike(
    a: Scenes,
    b: Scenes,
    groups: Seq<FlatGroup>,
    devices: Seq<Device>,
)
    requires
        a.wf(),
        b.wf(),
        a.db_scenes() == b.db_scenes(),
        a.config_scenes() == b.config_scenes(),
        a.overrides() == b.overrides(),
    ensures
        a.all_scenes() == b.all_scenes(),
        flatten_scenes(a.world(groups, devices), a.overrides()) == flatten_scenes(
            b.world(groups, devices),
            b.overrides(),
        ),
{
    assert(a.all_scenes() =~= a.db_scenes() + a.config_scenes());
    assert(b.all_scenes() =~= b.db_scenes() + b.config_scenes());
}

/// The flattened scenes are a function of the scenes, the overrides, and
/// the groups and devices they were computed from: scenes that agree in
/// these and are up to date agree in their flattened scenes.
pub proof fn flattened_scenes_are_a_function_of_their_inputs(a: Scenes, b: Scenes)
    requires
        a.current(),
        b.current(),
        a.all_scenes() == b.all_scenes(),
        a.overrides() == b.overrides(),
        a.source() == b.source(),
    ensures
        a.flattened() == b.flattened(),
{
}

/// Whether every binding of the scene at `j` that applies to device `k`
/// is a link to the scene at `to`.
pub open spec fn links_only_to(w: SceneWorld, k: (Seq<char>, Seq<char>), j: int, to: int) -> bool {
    forall|p: int|
        0 <= p < slot_count(w.scenes[j].config) ==> match #[trigger] slot(
            w.scenes[j].config,
            w.groups,
            k,
            p,
        ) {
            None => true,
            Some(SceneDeviceConfig::SceneLink(d)) => scene_index(w.scenes, d.scene_id@) == Some(to),
            Some(_) => false,
        }
}

/// A scene whose bindings for a device are links to a scene on the path
/// comes to nothing for it.
proof fn lemma_links_to_the_path(w: SceneWorld, k: (Seq<char>, Seq<char>), j: int, to: int, p: int, marks: Seq<bool>)
    requires
        0 <= j < w.scenes.len(),
        0 <= p,
        marks.len() == w.scenes.len(),
        links_only_to(w, k, j, to),
        0 <= to < marks.len() ==> marks[to],
    ensures
        resolve(w, k, j, p, marks) is None,
    decreases slot_count(w.scenes[j].config) - p,
{
    if p < slot_count(w.scenes[j].config) {
        lemma_links_to_the_path(w, k, j, to, p + 1, marks);
        let _ = slot(w.scenes[j].config, w.groups, k, p);
    }
}

/// A scene whose bindings for a device are links to a scene that comes to
/// nothing for it comes to nothing itself.
proof fn lemma_links_to_nothing(w: SceneWorld, k: (Seq<char>, Seq<char>), j: int, to: int, p: int, marks: Seq<bool>)
    requires
        0 <= j < w.scenes.len(),
        0 <= p,
        marks.len() == w.scenes.len(),
        links_only_to(w, k, j, to),
        0 <= to < marks.len(),
        !marks[to],
        resolve(w, k, to, 0, marks.update(to, true)) is None,
    ensures
        resolve(w, k, j, p, marks) is None,
    decreases slot_count(w.scenes[j].config) - p,
{
    if p < slot_count(w.scenes[j].config) {
        lemma_links_to_nothing(w, k, j, to, p + 1, marks);
        let _ = slot(w.scenes[j].config, w.groups, k, p);
    }
}

/// Two scenes that, for a device, only link to each other come to nothing
/// for it: the walk ends where it would close the circle.
pub proof fn scenes_that_link_in_a_circle_come_to_nothing(
    w: SceneWorld,
    overrides: Seq<DeviceKey>,
    k: (Seq<char>, Seq<char>),
    x: int,
    y: int,
)
    requires
        0 <= x < w.scenes.len(),
        0 <= y < w.scenes.len(),
        links_only_to(w, k, x, y),
        links_only_to(w, k, y, x),
    ensures
        scene_state(w, overrides, x, k) is None,
{
    let marks = only(w.scenes.len(), x);
    if x == y {
        lemma_links_to_the_path(w, k, x, x, 0, marks);
    } else {
        lemma_links_to_the_path(w, k, y, x, 0, marks.update(y, true));
        lemma_links_to_nothing(w, k, x, y, 0, marks);
    }
}

/// No entry of a flattened scene is for a pinned device.
proof fn lemma_no_entry_for_pinned(w: SceneWorld, overrides: Seq<DeviceKey>, j: int, n: int, k: (Seq<char>, Seq<char>))
    requires
        has_key(key_views(overrides), k),
    ensures
        forall|t: int|
            0 <= t < flat_entries(w, overrides, j, n).len() ==> entry_keys(
                flat_entries(w, overrides, j, n),
            )[t] != k,
    decreases n,
{
    if n > 0 {
        lemma_no_entry_for_pinned(w, overrides, j, n - 1, k);
        let rest = flat_entries(w, overrides, j, n - 1);
        let all = flat_entries(w, overrides, j, n);
        let d = w.devices[n - 1];
        assert forall|t: int| 0 <= t < all.len() implies entry_keys(all)[t] != k by {
            if t < rest.len() {
                assert(entry_keys(rest)[t] != k);
                assert(all[t] == rest[t]);
            } else {
                assert(scene_state(w, overrides, j, d.key@) is Some);
                assert(all[t].key == d.key);
            }
        }
    }
}

/// A pinned device takes no state from any scene: no flattened scene holds
/// one for it.
pub proof fn pinned_devices_are_in_no_flattened_scene(
    w: SceneWorld,
    overrides: Seq<DeviceKey>,
    k: (Seq<char>, Seq<char>),
    id: Seq<char>,
)
    requires
        has_key(key_views(overrides), k),
    ensures
        projected(flatten_scenes(w, overrides), id, k) is None,
{
    let flattened = flatten_scenes(w, overrides);
    lemma_first_index(flat_scene_ids(flattened), id, 0);
    match flat_scene_index(flattened, id) {
        Some(j) => {
            lemma_no_entry_for_pinned(w, overrides, j, w.devices.len() as int, k);
            lemma_index_of_none(entry_keys(flattened[j].devices), k);
        },
        None => {},
    }
}

/// The binding `entries` hold for the device `k`.
pub open spec fn config_for(entries: Seq<SceneDeviceEntry>, k: (Seq<char>, Seq<char>)) -> Option<
    SceneDeviceConfig,
> {
    match index_of(config_keys(entries), k) {
        Some(i) => Some(entries[i].config),
        None => None,
    }
}

/// Whether the device `k` is among the first `n` of `keys`.
pub open spec fn reached(keys: Seq<DeviceKey>, n: int, k: (Seq<char>, Seq<char>)) -> bool {
    exists|t: int| 0 <= t < n && (#[trigger] keys[t])@ == k
}

/// A slot that holds a binding is found from every slot before it.
proof fn lemma_slot_found(config: SceneConfig, links: Seq<FlatGroup>, k: (Seq<char>, Seq<char>), p: int, q: int)
    requires
        0 <= p <= q < slot_count(config),
        slot(config, links, k, q) is Some,
    ensures
        first_slot(config, links, k, p) is Some,
    decreases q - p,
{
    if p < q {
        lemma_slot_found(config, links, k, p + 1, q);
    }
}

/// The first slot from `p` on that holds a binding is what is found from
/// `p`.
proof fn lemma_first_slot_is(config: SceneConfig, links: Seq<FlatGroup>, k: (Seq<char>, Seq<char>), p: int, q: int)
    requires
        0 <= p <= q < slot_count(config),
        forall|t: int| p <= t < q ==> (#[trigger] slot(config, links, k, t)) is None,
        slot(config, links, k, q) is Some,
    ensures
        first_slot(config, links, k, p) == slot(config, links, k, q),
    decreases q - p,
{
    if p < q {
        assert(slot(config, links, k, p) is None);
        lemma_first_slot_is(config, links, k, p + 1, q);
    }
}

/// A device that group bindings reach is held by the group of one of
/// them.
proof fn lemma_group_bound_key(entries: Seq<SceneGroupEntry>, links: Seq<FlatGroup>, n: int, u: int)
    requires
        0 <= n <= entries.len(),
        0 <= u < group_bound_keys(entries, links, n).len(),
    ensures
        exists|j: int|
            0 <= j < n && group_has(
                links,
                (#[trigger] entries[j]).group_id@,
                group_bound_keys(entries, links, n)[u]@,
            ),
    decreases n,
{
    let before = group_bound_keys(entries, links, n - 1);
    let all = group_bound_keys(entries, links, n);
    if u < before.len() {
        lemma_group_bound_key(entries, links, n - 1, u);
        let j = choose|j: int|
            0 <= j < n - 1 && group_has(links, (#[trigger] entries[j]).group_id@, before[u]@);
        assert(group_has(links, entries[j].group_id@, all[u]@));
    } else {
        let id = entries[n - 1].group_id@;
        let linked = linked_devices(links, id);
        let v = u - before.len();
        assert(all[u] == linked[v]);
        let i = flat_group_index(links, id)->0;
        assert(key_views(links[i].device_keys)[v] == all[u]@);
        crate::table::lemma_has_key(key_views(links[i].device_keys), all[u]@);
        assert(group_has(links, entries[n - 1].group_id@, all[u]@));
    }
}

/// Every device a scene binds has a binding in it.
proof fn lemma_bound_keys_have_bindings(config: SceneConfig, links: Seq<FlatGroup>, t: int)
    requires
        0 <= t < bound_keys(config, links).len(),
    ensures
        first_slot(config, links, bound_keys(config, links)[t]@, 0) is Some,
{
    let d = config.device_entries();
    let g = config.group_entries();
    let k = bound_keys(config, links)[t];
    if t < d.len() {
        assert(k == d[t].key);
        let q = g.len() + (d.len() - 1 - t);
        assert(slot(config, links, k@, q) == Some(d[t].config));
        lemma_slot_found(config, links, k@, 0, q);
    } else {
        let u = t - d.len();
        lemma_group_bound_key(g, links, g.len() as int, u);
        let j = choose|j: int|
            0 <= j < g.len() && group_has(
                links,
                (#[trigger] g[j]).group_id@,
                group_bound_keys(g, links, g.len() as int)[u]@,
            );
        let q = g.len() - 1 - j;
        assert(slot(config, links, k@, q) == Some(g[j].config));
        lemma_slot_found(config, links, k@, 0, q);
    }
}

/// What `devices_config` holds for one device, and that it holds no device
/// twice.
proof fn lemma_devices_config(
    config: SceneConfig,
    links: Seq<FlatGroup>,
    keys: Seq<DeviceKey>,
    n: int,
    k: (Seq<char>, Seq<char>),
)
    requires
        0 <= n <= keys.len(),
        forall|t: int|
            0 <= t < keys.len() ==> first_slot(config, links, (#[trigger] keys[t])@, 0) is Some,
    ensures
        distinct(config_keys(devices_config(config, links, keys, n))),
        config_for(devices_config(config, links, keys, n), k) == if reached(keys, n, k) {
            first_slot(config, links, k, 0)
        } else {
            None
        },
    decreases n,
{
    if n > 0 {
        let rest = devices_config(config, links, keys, n - 1);
        let all = devices_config(config, links, keys, n);
        let kn = keys[n - 1];
        lemma_devices_config(config, links, keys, n - 1, k);
        lemma_devices_config(config, links, keys, n - 1, kn@);
        lemma_first_index(config_keys(rest), k, 0);
        lemma_first_index(config_keys(rest), kn@, 0);
        assert(reached(keys, n, k) <==> (reached(keys, n - 1, k) || kn@ == k)) by {
            if reached(keys, n, k) {
                let t = choose|t: int| 0 <= t < n && (#[trigger] keys[t])@ == k;
                if t < n - 1 {
                    assert(reached(keys, n - 1, k));
                }
            }
            if reached(keys, n - 1, k) {
                let t = choose|t: int| 0 <= t < n - 1 && (#[trigger] keys[t])@ == k;
                assert(0 <= t < n && keys[t]@ == k);
            }
            if kn@ == k {
                assert(0 <= n - 1 < n && keys[n - 1]@ == k);
            }
        }
        if has_key(config_keys(rest), kn@) {
            assert(all == rest);
            assert(reached(keys, n - 1, kn@));
        } else {
            assert(first_slot(config, links, keys[n - 1]@, 0) is Some);
            let c = first_slot(config, links, kn@, 0)->0;
            let e = SceneDeviceEntry { key: kn, config: c };
            assert(all == rest.push(e));
            assert forall|a: int, b: int| 0 <= a < b < config_keys(all).len() implies config_keys(
                all,
            )[a] != config_keys(all)[b] by {
                if b < rest.len() {
                    assert(config_keys(rest)[a] != config_keys(rest)[b]);
                } else {
                    assert(config_keys(rest)[a] != kn@);
                }
            }
            if kn@ == k {
                assert forall|j: int| 0 <= j < rest.len() implies config_keys(all)[j] != k by {
                    assert(config_keys(rest)[j] != k);
                }
                lemma_index_of_is(config_keys(all), k, rest.len() as int);
            } else {
                match index_of(config_keys(rest), k) {
                    Some(i) => {
                        assert forall|j: int| 0 <= j < i implies config_keys(all)[j] != k by {
                            assert(config_keys(rest)[j] != k);
                        }
                        assert(config_keys(all)[i] == config_keys(rest)[i]);
                        lemma_index_of_is(config_keys(all), k, i);
                    },
                    None => {
                        assert forall|j: int| 0 <= j < all.len() implies config_keys(all)[j]
                            != k by {
                            if j < rest.len() {
                                assert(config_keys(rest)[j] != k);
                            }
                        }
                        lemma_index_of_none(config_keys(all), k);
                    },
                }
            }
        }
    }
}

/// The bindings of a scene by device hold each device the scene binds,
/// directly or through a group, once, whether it is known or not, with the
/// binding of highest precedence, and hold no other device.
pub proof fn scene_devices_config_by_key(
    config: SceneConfig,
    links: Seq<FlatGroup>,
    k: (Seq<char>, Seq<char>),
)
    ensures
        distinct(config_keys(scene_devices_config(config, links))),
        has_key(key_views(bound_keys(config, links)), k) ==> first_slot(config, links, k, 0) is Some,
        config_for(scene_devices_config(config, links), k) == if has_key(
            key_views(bound_keys(config, links)),
            k,
        ) {
            first_slot(config, links, k, 0)
        } else {
            None
        },
{
    let keys = bound_keys(config, links);
    assert forall|t: int| 0 <= t < keys.len() implies first_slot(
        config,
        links,
        (#[trigger] keys[t])@,
        0,
    ) is Some by {
        lemma_bound_keys_have_bindings(config, links, t);
    }
    lemma_devices_config(config, links, keys, keys.len() as int, k);
    crate::table::lemma_has_key(key_views(keys), k);
    if has_key(key_views(keys), k) {
        let t = choose|t: int| 0 <= t < key_views(keys).len() && key_views(keys)[t] == k;
        assert(0 <= t < keys.len() && keys[t]@ == k);
        assert(reached(keys, keys.len() as int, k));
    }
    if reached(keys, keys.len() as int, k) {
        let t = choose|t: int| 0 <= t < keys.len() && (#[trigger] keys[t])@ == k;
        assert(key_views(keys)[t] == k);
    }
}

/// A device that a group binding reaches takes the binding of the last
/// group binding that reaches it, whatever the device bindings say.
pub proof fn binding_through_a_group(
    config: SceneConfig,
    links: Seq<FlatGroup>,
    k: (Seq<char>, Seq<char>),
    j: int,
)
    requires
        0 <= j < config.group_entries().len(),
        group_has(links, config.group_entries()[j].group_id@, k),
        forall|t: int|
            j < t < config.group_entries().len() ==> !group_has(
                links,
                (#[trigger] config.group_entries()[t]).group_id@,
                k,
            ),
    ensures
        first_slot(config, links, k, 0) == Some(config.group_entries()[j].config),
{
    let g = config.group_entries();
    let q = g.len() - 1 - j;
    assert forall|t: int| 0 <= t < q implies (#[trigger] slot(config, links, k, t)) is None by {
        assert(!group_has(links, g[g.len() - 1 - t].group_id@, k));
    }
    lemma_first_slot_is(config, links, k, 0, q);
}

/// A device that no group binding reaches takes the binding of the last
/// device binding for it.
pub proof fn binding_of_a_device(
    config: SceneConfig,
    links: Seq<FlatGroup>,
    k: (Seq<char>, Seq<char>),
    i: int,
)
    requires
        0 <= i < config.device_entries().len(),
        config.device_entries()[i].key@ == k,
        forall|t: int|
            i < t < config.device_entries().len() ==> (#[trigger] config.device_entries()[t]).key@
                != k,
        forall|t: int|
            0 <= t < config.group_entries().len() ==> !group_has(
                links,
                (#[trigger] config.group_entries()[t]).group_id@,
                k,
            ),
    ensures
        first_slot(config, links, k, 0) == Some(config.device_entries()[i].config),
{
    let d = config.device_entries();
    let g = config.group_entries();
    let q = g.len() + (d.len() - 1 - i);
    assert forall|t: int| 0 <= t < q implies (#[trigger] slot(config, links, k, t)) is None by {
        if t < g.len() {
            assert(!group_has(links, g[g.len() - 1 - t].group_id@, k));
        } else {
            assert(d[d.len() - 1 - (t - g.len())].key@ != k);
        }
    }
    lemma_first_slot_is(config, links, k, 0, q);
}

/// For the first `n` device bindings of a scene that binds no group and no
/// device twice, the bindings by device are those bindings.
proof fn lemma_devices_only(config: SceneConfig, links: Seq<FlatGroup>, n: int)
    requires
        config.group_entries().len() == 0,
        distinct(config_keys(config.device_entries())),
        0 <= n <= config.device_entries().len(),
    ensures
        devices_config(config, links, device_bound_keys(config.device_entries()), n)
            == config.device_entries().take(n),
    decreases n,
{
    let d = config.device_entries();
    let keys = device_bound_keys(d);
    if n > 0 {
        lemma_devices_only(config, links, n - 1);
        let rest = devices_config(config, links, keys, n - 1);
        let k = keys[n - 1];
        assert forall|j: int| 0 <= j < rest.len() implies config_keys(rest)[j] != k@ by {
            assert(config_keys(d)[j] != config_keys(d)[n - 1]);
        }
        lemma_index_of_none(config_keys(rest), k@);
        assert forall|t: int| n - 1 < t < d.len() implies (#[trigger] d[t]).key@ != k@ by {
            assert(config_keys(d)[n - 1] != config_keys(d)[t]);
        }
        binding_of_a_device(config, links, k@, n - 1);
        assert(d.take(n) =~= d.take(n - 1).push(d[n - 1]));
    } else {
        assert(d.take(0) =~= Seq::<SceneDeviceEntry>::empty());
    }
}

/// The bindings by device of a scene that binds no group, and no device
/// twice, are its device bindings.
pub proof fn scene_without_groups_gives_its_device_bindings(config: SceneConfig, links: Seq<FlatGroup>)
    requires
        config.group_entries().len() == 0,
        distinct(config_keys(config.device_entries())),
    ensures
        scene_devices_config(config, links) == config.device_entries(),
{
    let d = config.device_entries();
    assert(bound_keys(config, links) =~= device_bound_keys(d));
    lemma_devices_only(config, links, d.len() as int);
    assert(d.take(d.len() as int) =~= d);
}

/// Whether the device `k` is among the first `n` devices of the table.
pub open spec fn known_among(devices: Seq<Device>, n: int, k: (Seq<char>, Seq<char>)) -> bool {
    exists|t: int| 0 <= t < n && (#[trigger] devices[t]).key@ == k
}

/// What the entries of a flattened scene hold for one device.
proof fn lemma_entry_state(w: SceneWorld, overrides: Seq<DeviceKey>, j: int, n: int, k: (Seq<char>, Seq<char>))
    requires
        0 <= n <= w.devices.len(),
    ensures
        entry_state(flat_entries(w, overrides, j, n), k) == if known_among(w.devices, n, k) {
            scene_state(w, overrides, j, k)
        } else {
            None
        },
        forall|t: int|
            0 <= t < flat_entries(w, overrides, j, n).len() ==> (#[trigger] flat_entries(
                w,
                overrides,
                j,
                n,
            )[t]).state == scene_state(w, overrides, j, flat_entries(w, overrides, j, n)[t].key@)->0
                && scene_state(w, overrides, j, flat_entries(w, overrides, j, n)[t].key@) is Some,
    decreases n,
{
    if n > 0 {
        lemma_entry_state(w, overrides, j, n - 1, k);
        let rest = flat_entries(w, overrides, j, n - 1);
        let all = flat_entries(w, overrides, j, n);
        let d = w.devices[n - 1];
        lemma_first_index(entry_keys(rest), k, 0);
        assert(known_among(w.devices, n, k) <==> (known_among(w.devices, n - 1, k) || d.key@
            == k)) by {
            if known_among(w.devices, n, k) {
                let t = choose|t: int| 0 <= t < n && (#[trigger] w.devices[t]).key@ == k;
                if t < n - 1 {
                    assert(known_among(w.devices, n - 1, k));
                }
            }
            if known_among(w.devices, n - 1, k) {
                let t = choose|t: int| 0 <= t < n - 1 && (#[trigger] w.devices[t]).key@ == k;
                assert(0 <= t < n && w.devices[t].key@ == k);
            }
            if d.key@ == k {
                assert(0 <= n - 1 < n && w.devices[n - 1].key@ == k);
            }
        }
        match scene_state(w, overrides, j, d.key@) {
            Some(st) => {
                let e = FlattenedEntry { key: d.key, state: st };
                assert(all == rest.push(e));
                assert forall|t: int| 0 <= t < all.len() implies (#[trigger] all[t]).state
                    == scene_state(w, overrides, j, all[t].key@)->0 && scene_state(
                    w,
                    overrides,
                    j,
                    all[t].key@,
                ) is Some by {
                    if t < rest.len() {
                        assert(all[t] == rest[t]);
                    }
                }
                match index_of(entry_keys(rest), k) {
                    Some(i) => {
                        assert forall|u: int| 0 <= u < i implies entry_keys(all)[u] != k by {
                            assert(entry_keys(rest)[u] != k);
                        }
                        assert(entry_keys(all)[i] == entry_keys(rest)[i]);
                        lemma_index_of_is(entry_keys(all), k, i);
                    },
                    None => {
                        if d.key@ == k {
                            assert forall|u: int| 0 <= u < rest.len() implies entry_keys(all)[u]
                                != k by {
                                assert(entry_keys(rest)[u] != k);
                            }
                            lemma_index_of_is(entry_keys(all), k, rest.len() as int);
                        } else {
                            assert forall|u: int| 0 <= u < all.len() implies entry_keys(all)[u]
                                != k by {
                                if u < rest.len() {
                                    assert(entry_keys(rest)[u] != k);
                                }
                            }
                            lemma_index_of_none(entry_keys(all), k);
                        }
                    },
                }
                if known_among(w.devices, n - 1, k) && index_of(entry_keys(rest), k) is Some {
                    let i = index_of(entry_keys(rest), k)->0;
                    assert(rest[i].state == scene_state(w, overrides, j, rest[i].key@)->0);
                }
            },
            None => {
                assert(all == rest);
            },
        }
    }
}

/// What a flattened scene holds for a device is what the scene comes to
/// for it, where the device is known; for a device that is not known it
/// holds nothing.
pub proof fn flattened_state_is_resolved_state(
    w: SceneWorld,
    overrides: Seq<DeviceKey>,
    id: Seq<char>,
    k: (Seq<char>, Seq<char>),
)
    ensures
        projected(flatten_scenes(w, overrides), id, k) == match scene_index(w.scenes, id) {
            Some(j) => if known_among(w.devices, w.devices.len() as int, k) {
                scene_state(w, overrides, j, k)
            } else {
                None
            },
            None => None,
        },
{
    let flattened = flatten_scenes(w, overrides);
    assert(flat_scene_ids(flattened) =~= scene_ids(w.scenes));
    lemma_first_index(scene_ids(w.scenes), id, 0);
    match scene_index(w.scenes, id) {
        Some(j) => {
            lemma_entry_state(w, overrides, j, w.devices.len() as int, k);
        },
        None => {},
    }
}

/// No binding of any scene is a link to a device: the scenes read the
/// state of no device.
pub open spec fn reads_no_device(w: SceneWorld) -> bool {
    forall|j: int, k: (Seq<char>, Seq<char>), p: int|
        0 <= j < w.scenes.len() ==> !(#[trigger] slot(w.scenes[j].config, w.groups, k, p) matches Some(
            SceneDeviceConfig::SceneDeviceLink(_),
        ))
}

/// Scenes that read the state of no device come to the same whatever the
/// devices show.
proof fn lemma_resolve_without_device_links(
    w: SceneWorld,
    devices: Seq<Device>,
    k: (Seq<char>, Seq<char>),
    j: int,
    p: int,
    marks: Seq<bool>,
)
    requires
        reads_no_device(w),
        0 <= j < w.scenes.len(),
    ensures
        resolve(SceneWorld { devices, ..w }, k, j, p, marks) == resolve(w, k, j, p, marks),
    decreases unvisited(marks), slot_count(w.scenes[j].config) - p,
{
    let other = SceneWorld { devices, ..w };
    if marks.len() != w.scenes.len() || p < 0 || p >= slot_count(w.scenes[j].config) {
    } else {
        match slot(w.scenes[j].config, w.groups, k, p) {
            Some(SceneDeviceConfig::SceneLink(d)) => {
                match scene_index(w.scenes, d.scene_id@) {
                    Some(t) => {
                        if 0 <= t < marks.len() && !marks[t] {
                            lemma_visit(marks, t);
                            lemma_resolve_without_device_links(
                                w,
                                devices,
                                k,
                                t,
                                0,
                                marks.update(t, true),
                            );
                        }
                    },
                    None => {},
                }
            },
            _ => {},
        }
        lemma_resolve_without_device_links(w, devices, k, j, p + 1, marks);
    }
}

/// The entries of a flattened scene that reads the state of no device
/// depend on the keys of the devices only.
proof fn lemma_flat_entries_without_device_links(
    w: SceneWorld,
    devices: Seq<Device>,
    overrides: Seq<DeviceKey>,
    j: int,
    n: int,
)
    requires
        reads_no_device(w),
        0 <= j < w.scenes.len(),
        devices.len() == w.devices.len(),
        forall|t: int| 0 <= t < devices.len() ==> (#[trigger] devices[t]).key == w.devices[t].key,
        0 <= n <= devices.len(),
    ensures
        flat_entries(SceneWorld { devices, ..w }, overrides, j, n) == flat_entries(
            w,
            overrides,
            j,
            n,
        ),
    decreases n,
{
    if n > 0 {
        lemma_flat_entries_without_device_links(w, devices, overrides, j, n - 1);
        assert(devices[n - 1].key == w.devices[n - 1].key);
        lemma_resolve_without_device_links(
            w,
            devices,
            w.devices[n - 1].key@,
            j,
            0,
            only(w.scenes.len(), j),
        );
    }
}

/// Scenes that read the state of no device come to the same flattened
/// scenes for every table that holds the same devices in the same order,
/// whatever the devices show.
pub proof fn scenes_without_device_links_have_settled(
    w: SceneWorld,
    devices: Seq<Device>,
    overrides: Seq<DeviceKey>,
)
    requires
        reads_no_device(w),
        devices.len() == w.devices.len(),
        forall|t: int| 0 <= t < devices.len() ==> (#[trigger] devices[t]).key == w.devices[t].key,
    ensures
        flatten_scenes(SceneWorld { devices, ..w }, overrides) == flatten_scenes(w, overrides),
{
    let other = SceneWorld { devices, ..w };
    assert forall|j: int| 0 <= j < w.scenes.len() implies flat_entries(
        other,
        overrides,
        j,
        devices.len() as int,
    ) == flat_entries(w, overrides, j, w.devices.len() as int) by {
        lemma_flat_entries_without_device_links(w, devices, overrides, j, devices.len() as int);
    }
    assert(flatten_scenes(other, overrides) =~= flatten_scenes(w, overrides));
}

} // verus!
