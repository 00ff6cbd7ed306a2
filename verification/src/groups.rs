//! Groups of devices: their definitions and their materialized membership.

use vstd::prelude::*;

use crate::device::{Device, DeviceKey};
use crate::device_table::{device_index, find_device, DevicesState};
use crate::error::HubError;
use crate::ids::GroupId;
use crate::table::{has_key, index_of, lemma_first_index, lemma_index_of_is, lemma_index_of_none};
use crate::visit::{lemma_visit, only, only_marks, unvisited};

verus! {

/// A member of a group: a device, or another group with all its members.
#[derive(Debug, PartialEq, Eq)]
pub enum GroupMember {
    Device(DeviceKey),
    Group(GroupId),
}

/// A group as configured.
#[derive(Debug, PartialEq, Eq)]
pub struct GroupConfig {
    pub id: GroupId,
    pub name: String,
    pub members: Vec<GroupMember>,
}

/// A group with its membership spelled out: the keys of the known devices
/// it holds, each once, in the order the definition reaches them.
#[derive(Debug, PartialEq, Eq)]
pub struct FlattenedGroup {
    pub id: GroupId,
    pub name: String,
    pub device_keys: Vec<DeviceKey>,
}

/// The mathematical value of a flattened group.
pub struct FlatGroup {
    pub id: GroupId,
    pub name: String,
    pub device_keys: Seq<DeviceKey>,
}

impl View for FlattenedGroup {
    type V = FlatGroup;

    open spec fn view(&self) -> FlatGroup {
        FlatGroup { id: self.id, name: self.name, device_keys: self.device_keys@ }
    }
}

/// The values of a sequence of flattened groups.
pub open spec fn flat_groups(groups: Seq<FlattenedGroup>) -> Seq<FlatGroup> {
    Seq::new(groups.len(), |i: int| groups[i]@)
}

/// The ids of the configured groups, in order.
pub open spec fn group_ids(config: Seq<GroupConfig>) -> Seq<Seq<char>> {
    Seq::new(config.len(), |i: int| config[i].id@)
}

/// The position of the group under `id`.
pub open spec fn group_index(config: Seq<GroupConfig>, id: Seq<char>) -> Option<int> {
    index_of(group_ids(config), id)
}

/// The views of a sequence of keys.
pub open spec fn key_views(keys: Seq<DeviceKey>) -> Seq<(Seq<char>, Seq<char>)> {
    Seq::new(keys.len(), |i: int| keys[i]@)
}

/// `a` followed by `b`, where `b` is there.
pub open spec fn prepend(a: Seq<DeviceKey>, b: Option<Seq<DeviceKey>>) -> Option<Seq<DeviceKey>> {
    match b {
        Some(s) => Some(a + s),
        None => None,
    }
}

/// The device keys that the members of group `g` from position `pos` on
/// reach, nested groups expanded in place. `marks` holds the groups on the
/// path from the group the walk began at. A nested group that is not
/// defined contributes nothing; one that is on the path makes the result
/// `None`: the definitions go round in a circle.
pub open spec fn expand(config: Seq<GroupConfig>, g: int, pos: int, marks: Seq<bool>) -> Option<
    Seq<DeviceKey>,
>
    decreases unvisited(marks), config[g].members@.len() - pos,
    when 0 <= g < config.len()
{
    if marks.len() != config.len() || pos < 0 || pos >= config[g].members@.len() {
        Some(Seq::empty())
    } else {
        let here = match config[g].members@[pos] {
            GroupMember::Device(k) => Some(seq![k]),
            GroupMember::Group(h) => match group_index(config, h@) {
                None => Some(Seq::empty()),
                Some(t) => if 0 <= t < marks.len() && !marks[t] {
                    proof {
                        lemma_visit(marks, t);
                    }
                    expand(config, t, 0, marks.update(t, true))
                } else {
                    None
                },
            },
        };
        match here {
            Some(a) => prepend(a, expand(config, g, pos + 1, marks)),
            None => None,
        }
    }
}

/// Everything group `g` reaches, or `None` where its definition goes round
/// in a circle.
pub open spec fn expansion(config: Seq<GroupConfig>, g: int) -> Option<Seq<DeviceKey>> {
    expand(config, g, 0, only(config.len(), g))
}

/// No group contains itself, directly or through nested groups.
pub open spec fn acyclic(config: Seq<GroupConfig>) -> bool {
    forall|g: int| 0 <= g < config.len() ==> (#[trigger] expansion(config, g)) is Some
}

/// Of `keys`, those of known devices, each once, first occurrence first.
pub open spec fn materialize(keys: Seq<DeviceKey>, devices: Seq<Device>) -> Seq<DeviceKey>
    decreases keys.len(),
{
    if keys.len() == 0 {
        Seq::empty()
    } else {
        let rest = materialize(keys.drop_last(), devices);
        let k = keys.last();
        if device_index(devices, k@) is Some && !has_key(key_views(rest), k@) {
            rest.push(k)
        } else {
            rest
        }
    }
}

/// The membership of group `g` among `devices`.
pub open spec fn members_of(config: Seq<GroupConfig>, devices: Seq<Device>, g: int) -> Seq<
    DeviceKey,
> {
    match expansion(config, g) {
        Some(keys) => materialize(keys, devices),
        None => Seq::empty(),
    }
}

/// Every group flattened against `devices`, in the order of the
/// definitions.
pub open spec fn flatten_groups(config: Seq<GroupConfig>, devices: Seq<Device>) -> Seq<FlatGroup> {
    Seq::new(
        config.len(),
        |g: int|
            FlatGroup {
                id: config[g].id,
                name: config[g].name,
                device_keys: members_of(config, devices, g),
            },
    )
}

/// Whether the group at `g` is new or holds other devices than before.
pub open spec fn group_changed(before: Seq<FlatGroup>, after: Seq<FlatGroup>, g: int) -> bool {
    g >= before.len() || key_views(before[g].device_keys) != key_views(after[g].device_keys)
}

/// The ids of the first `n` groups of `after` that changed, in order.
pub open spec fn changed_groups(before: Seq<FlatGroup>, after: Seq<FlatGroup>, n: int) -> Seq<
    GroupId,
>
    decreases n,
{
    if n <= 0 {
        Seq::empty()
    } else {
        let rest = changed_groups(before, after, n - 1);
        if group_changed(before, after, n - 1) {
            rest.push(after[n - 1].id)
        } else {
            rest
        }
    }
}

/// The position of the group under `id` in `config`.
pub fn find_group(config: &Vec<GroupConfig>, id: &GroupId) -> (r: Option<usize>)
    ensures
        match r {
            Some(i) => group_index(config@, id@) == Some(i as int) && i < config.len()
                && config@[i as int].id@ == id@,
            None => group_index(config@, id@) is None,
        },
{
    let mut i: usize = 0;
    while i < config.len()
        invariant
            i <= config.len(),
            forall|j: int| 0 <= j < i ==> group_ids(config@)[j] != id@,
        decreases config.len() - i,
    {
        if config[i].id.same(id) {
            proof {
                lemma_index_of_is(group_ids(config@), id@, i as int);
            }
            return Some(i);
        }
        i += 1;
    }
    proof {
        lemma_index_of_none(group_ids(config@), id@);
    }
    None
}

/// Whether `keys` holds `key`.
pub fn contains_key(keys: &Vec<DeviceKey>, key: &DeviceKey) -> (b: bool)
    ensures
        b == has_key(key_views(keys@), key@),
{
    let mut i: usize = 0;
    while i < keys.len()
        invariant
            i <= keys.len(),
            forall|j: int| 0 <= j < i ==> key_views(keys@)[j] != key@,
        decreases keys.len() - i,
    {
        if keys[i].same(key) {
            proof {
                lemma_index_of_is(key_views(keys@), key@, i as int);
            }
            return true;
        }
        i += 1;
    }
    proof {
        lemma_index_of_none(key_views(keys@), key@);
    }
    false
}

/// Whether two lists hold the same keys in the same order.
pub fn same_keys(a: &Vec<DeviceKey>, b: &Vec<DeviceKey>) -> (r: bool)
    ensures
        r == (key_views(a@) == key_views(b@)),
{
    if a.len() != b.len() {
        assert(key_views(a@).len() != key_views(b@).len());
        return false;
    }
    let mut i: usize = 0;
    while i < a.len()
        invariant
            i <= a.len(),
            a.len() == b.len(),
            forall|j: int| 0 <= j < i ==> a@[j]@ == b@[j]@,
        decreases a.len() - i,
    {
        if !a[i].same(&b[i]) {
            assert(key_views(a@)[i as int] != key_views(b@)[i as int]);
            return false;
        }
        i += 1;
    }
    assert(key_views(a@) =~= key_views(b@));
    true
}

/// Walks the members of group `g` and collects the device keys they reach.
fn expand_group(config: &Vec<GroupConfig>, g: usize, marks: &mut Vec<bool>) -> (r: Option<
    Vec<DeviceKey>,
>)
    requires
        g < config.len(),
        old(marks)@.len() == config.len(),
    ensures
        final(marks)@ == old(marks)@,
        match r {
            Some(v) => expand(config@, g as int, 0, old(marks)@) == Some(v@),
            None => expand(config@, g as int, 0, old(marks)@) is None,
        },
    decreases unvisited(old(marks)@),
{
    let ghost m0 = marks@;
    let mut out: Vec<DeviceKey> = Vec::new();
    let mut pos: usize = 0;
    let members = &config[g].members;
    while pos < members.len()
        invariant
            g < config.len(),
            members == &config@[g as int].members,
            pos <= members.len(),
            marks@ == m0,
            m0 == old(marks)@,
            m0.len() == config.len(),
            expand(config@, g as int, 0, m0) == prepend(
                out@,
                expand(config@, g as int, pos as int, m0),
            ),
        decreases members.len() - pos,
    {
        let ghost rest = expand(config@, g as int, pos as int + 1, m0);
        match &members[pos] {
            GroupMember::Device(k) => {
                let ghost before = out@;
                out.push(k.clone());
                proof {
                    match rest {
                        Some(s) => {
                            assert(before + (seq![*k] + s) =~= out@ + s);
                        },
                        None => {},
                    }
                }
            },
            GroupMember::Group(h) => {
                match find_group(config, h) {
                    None => {
                        proof {
                            match rest {
                                Some(s) => {
                                    assert(out@ + (Seq::<DeviceKey>::empty() + s) =~= out@ + s);
                                },
                                None => {},
                            }
                        }
                    },
                    Some(t) => {
                        if marks[t] {
                            return None;
                        }
                        proof {
                            lemma_visit(m0, t as int);
                        }
                        marks.set(t, true);
                        let sub = expand_group(config, t, marks);
                        marks.set(t, false);
                        assert(marks@ =~= m0);
                        match sub {
                            None => {
                                return None;
                            },
                            Some(mut v) => {
                                let ghost before = out@;
                                let ghost sv = v@;
                                out.append(&mut v);
                                proof {
                                    match rest {
                                        Some(s) => {
                                            assert(before + (sv + s) =~= out@ + s);
                                        },
                                        None => {},
                                    }
                                }
                            },
                        }
                    },
                }
            },
        }
        pos += 1;
    }
    assert(out@ + Seq::<DeviceKey>::empty() =~= out@);
    Some(out)
}

/// Keeps of `keys` those of known devices, each once.
fn materialize_keys(keys: &Vec<DeviceKey>, devices: &DevicesState) -> (out: Vec<DeviceKey>)
    ensures
        out@ == materialize(keys@, devices@),
{
    let mut out: Vec<DeviceKey> = Vec::new();
    let mut i: usize = 0;
    while i < keys.len()
        invariant
            i <= keys.len(),
            out@ == materialize(keys@.take(i as int), devices@),
        decreases keys.len() - i,
    {
        assert(keys@.take(i as int + 1).drop_last() == keys@.take(i as int));
        let known = find_device(&devices.0, &keys[i]).is_some();
        if known && !contains_key(&out, &keys[i]) {
            out.push(keys[i].clone());
        }
        i += 1;
    }
    assert(keys@.take(keys@.len() as int) == keys@);
    out
}

/// The devices the group at `g` links to, nested groups expanded in
/// place, whether the devices are known or not.
pub open spec fn linked_keys(config: Seq<GroupConfig>, g: int) -> Seq<DeviceKey> {
    match expansion(config, g) {
        Some(keys) => keys,
        None => Seq::empty(),
    }
}

/// Every group with the devices it links to, in the order of the
/// definitions.
pub open spec fn group_links(config: Seq<GroupConfig>) -> Seq<FlatGroup> {
    Seq::new(
        config.len(),
        |g: int|
            FlatGroup {
                id: config[g].id,
                name: config[g].name,
                device_keys: linked_keys(config, g),
            },
    )
}

/// The groups of the hub: the definitions, the devices each group links
/// to, and the membership materialized against the known devices.
pub struct Groups {
    config: Vec<GroupConfig>,
    links: Vec<FlattenedGroup>,
    flattened: Vec<FlattenedGroup>,
}

impl Groups {
    /// The definitions.
    pub closed spec fn config(&self) -> Seq<GroupConfig> {
        self.config@
    }

    /// The materialized membership.
    pub closed spec fn flattened(&self) -> Seq<FlatGroup> {
        flat_groups(self.flattened@)
    }

    /// The devices each group links to, known or not.
    pub closed spec fn links(&self) -> Seq<FlatGroup> {
        flat_groups(self.links@)
    }

    /// No group contains itself, and the links are those of the
    /// definitions.
    pub open spec fn wf(&self) -> bool {
        &&& acyclic(self.config())
        &&& self.links() == group_links(self.config())
    }

    /// Takes the definitions, which must not go round in a circle: the first
    /// group that contains itself is reported. Nothing is materialized yet.
    pub fn new(config: Vec<GroupConfig>) -> (r: Result<Groups, HubError>)
        ensures
            match r {
                Ok(groups) => acyclic(config@) && groups.wf() && groups.config() == config@
                    && groups.flattened() == Seq::<FlatGroup>::empty(),
                Err(e) => exists|g: int|
                    0 <= g < config.len() && expansion(config@, g) is None && e
                        == HubError::GroupCycle(config@[g].id) && forall|j: int|
                        0 <= j < g ==> (#[trigger] expansion(config@, j)) is Some,
            },
    {
        let mut links: Vec<FlattenedGroup> = Vec::new();
        let mut g: usize = 0;
        while g < config.len()
            invariant
                g <= config.len(),
                forall|j: int| 0 <= j < g ==> (#[trigger] expansion(config@, j)) is Some,
                links@.len() == g,
                forall|j: int| 0 <= j < g ==> (#[trigger] links@[j])@ == group_links(config@)[j],
            decreases config.len() - g,
        {
            let mut marks = only_marks(config.len(), g);
            match expand_group(&config, g, &mut marks) {
                Some(keys) => {
                    links.push(
                        FlattenedGroup {
                            id: config[g].id.clone(),
                            name: config[g].name.clone(),
                            device_keys: keys,
                        },
                    );
                },
                None => {
                    let e = HubError::GroupCycle(config[g].id.clone());
                    assert(expansion(config@, g as int) is None);
                    assert(e == HubError::GroupCycle(config@[g as int].id));
                    return Err(e);
                },
            }
            g += 1;
        }
        assert(flat_groups(links@) =~= group_links(config@));
        let groups = Groups { config, links, flattened: Vec::new() };
        assert(groups.flattened() =~= Seq::<FlatGroup>::empty());
        Ok(groups)
    }

    fn flatten_all(&self, devices: &DevicesState) -> (out: Vec<FlattenedGroup>)
        requires
            self.wf(),
        ensures
            flat_groups(out@) == flatten_groups(self.config(), devices@),
    {
        let mut out: Vec<FlattenedGroup> = Vec::new();
        let mut g: usize = 0;
        while g < self.config.len()
            invariant
                g <= self.config.len(),
                self.wf(),
                out@.len() == g,
                forall|j: int|
                    0 <= j < g ==> (#[trigger] out@[j])@ == flatten_groups(
                        self.config(),
                        devices@,
                    )[j],
            decreases self.config.len() - g,
        {
            let mut marks = only_marks(self.config.len(), g);
            let keys = match expand_group(&self.config, g, &mut marks) {
                Some(keys) => materialize_keys(&keys, devices),
                None => Vec::new(),
            };
            out.push(
                FlattenedGroup {
                    id: self.config[g].id.clone(),
                    name: self.config[g].name.clone(),
                    device_keys: keys,
                },
            );
            g += 1;
        }
        assert(flat_groups(out@) =~= flatten_groups(self.config(), devices@));
        out
    }

    /// Materializes every group anew against `devices`.
    pub fn force_invalidate(&mut self, devices: &DevicesState)
        requires
            old(self).wf(),
        ensures
            final(self).config() == old(self).config(),
            final(self).links() == old(self).links(),
            final(self).flattened() == flatten_groups(old(self).config(), devices@),
            final(self).wf(),
    {
        self.flattened = self.flatten_all(devices);
    }

    /// Materializes the groups anew against `devices` and returns the ids
    /// of those whose membership is no longer what it was.
    pub fn invalidate(&mut self, devices: &DevicesState) -> (changed: Vec<GroupId>)
        requires
            old(self).wf(),
        ensures
            final(self).config() == old(self).config(),
            final(self).links() == old(self).links(),
            final(self).flattened() == flatten_groups(old(self).config(), devices@),
            final(self).wf(),
            changed@ == changed_groups(
                old(self).flattened(),
                final(self).flattened(),
                final(self).flattened().len() as int,
            ),
    {
        let fresh = self.flatten_all(devices);
        let mut changed: Vec<GroupId> = Vec::new();
        let mut g: usize = 0;
        while g < fresh.len()
            invariant
                g <= fresh.len(),
                changed@ == changed_groups(
                    flat_groups(self.flattened@),
                    flat_groups(fresh@),
                    g as int,
                ),
            decreases fresh.len() - g,
        {
            let differs = g >= self.flattened.len() || !same_keys(
                &self.flattened[g].device_keys,
                &fresh[g].device_keys,
            );
            if differs {
                changed.push(fresh[g].id.clone());
            }
            g += 1;
        }
        self.flattened = fresh;
        changed
    }

    /// Every group with the devices it links to, known or not.
    pub fn get_group_links(&self) -> (r: &Vec<FlattenedGroup>)
        ensures
            flat_groups(r@) == self.links(),
    {
        &self.links
    }

    /// The devices the group under `id` links to, known or not, or `None`
    /// where no such group is.
    pub fn find_group_device_links(&self, id: &GroupId) -> (r: Option<&Vec<DeviceKey>>)
        ensures
            match r {
                Some(keys) => flat_group_index(self.links(), id@) matches Some(i) && keys@
                    == self.links()[i].device_keys,
                None => flat_group_index(self.links(), id@) is None,
            },
    {
        let mut i: usize = 0;
        while i < self.links.len()
            invariant
                i <= self.links.len(),
                forall|j: int| 0 <= j < i ==> flat_group_ids(self.links())[j] != id@,
            decreases self.links.len() - i,
        {
            if self.links[i].id.same(id) {
                proof {
                    lemma_index_of_is(flat_group_ids(self.links()), id@, i as int);
                }
                return Some(&self.links[i].device_keys);
            }
            i += 1;
        }
        proof {
            lemma_index_of_none(flat_group_ids(self.links()), id@);
        }
        None
    }

    /// The materialized groups.
    pub fn get_flattened_groups(&self) -> (r: &Vec<FlattenedGroup>)
        ensures
            flat_groups(r@) == self.flattened(),
    {
        &self.flattened
    }

    /// The devices of the group under `id` as materialized, or `None`
    /// where no such group is.
    pub fn find_group_devices(&self, id: &GroupId) -> (r: Option<&Vec<DeviceKey>>)
        ensures
            match r {
                Some(keys) => flat_group_index(self.flattened(), id@) matches Some(i)
                    && keys@ == self.flattened()[i].device_keys,
                None => flat_group_index(self.flattened(), id@) is None,
            },
    {
        let mut i: usize = 0;
        while i < self.flattened.len()
            invariant
                i <= self.flattened.len(),
                forall|j: int| 0 <= j < i ==> flat_group_ids(self.flattened())[j] != id@,
            decreases self.flattened.len() - i,
        {
            if self.flattened[i].id.same(id) {
                proof {
                    lemma_index_of_is(flat_group_ids(self.flattened()), id@, i as int);
                }
                return Some(&self.flattened[i].device_keys);
            }
            i += 1;
        }
        proof {
            lemma_index_of_none(flat_group_ids(self.flattened()), id@);
        }
        None
    }
}

/// The ids of flattened groups, in order.
pub open spec fn flat_group_ids(groups: Seq<FlatGroup>) -> Seq<Seq<char>> {
    Seq::new(groups.len(), |i: int| groups[i].id@)
}

/// The position of the flattened group under `id`.
pub open spec fn flat_group_index(groups: Seq<FlatGroup>, id: Seq<char>) -> Option<int> {
    index_of(flat_group_ids(groups), id)
}

/// Copies a list of keys.
pub fn clone_keys(keys: &Vec<DeviceKey>) -> (r: Vec<DeviceKey>)
    ensures
        r@ == keys@,
{
    let mut out: Vec<DeviceKey> = Vec::new();
    let mut i: usize = 0;
    while i < keys.len()
        invariant
            i <= keys.len(),
            out@.len() == i,
            forall|t: int| 0 <= t < i ==> (#[trigger] out@[t]) == keys@[t],
        decreases keys.len() - i,
    {
        out.push(keys[i].clone());
        i += 1;
    }
    assert(out@ =~= keys@);
    out
}

/// Copies the materialized groups.
pub fn clone_groups(groups: &Vec<FlattenedGroup>) -> (r: Vec<FlattenedGroup>)
    ensures
        flat_groups(r@) == flat_groups(groups@),
{
    let mut out: Vec<FlattenedGroup> = Vec::new();
    let mut i: usize = 0;
    while i < groups.len()
        invariant
            i <= groups.len(),
            out@.len() == i,
            forall|t: int| 0 <= t < i ==> (#[trigger] out@[t])@ == groups@[t]@,
        decreases groups.len() - i,
    {
        let g = &groups[i];
        out.push(
            FlattenedGroup {
                id: g.id.clone(),
                name: g.name.clone(),
                device_keys: clone_keys(&g.device_keys),
            },
        );
        i += 1;
    }
    assert(flat_groups(out@) =~= flat_groups(groups@));
    out
}

/// Whether the group at `g` names the group at `h` among its members.
pub open spec fn nests(config: Seq<GroupConfig>, g: int, h: int) -> bool {
    exists|p: int|
        0 <= p < config[g].members@.len() && (#[trigger] config[g].members@[p] matches GroupMember::Group(
            id,
        ) && group_index(config, id@) == Some(h))
}

/// Whether `path` is a chain of groups in which each names the next among
/// its members.
pub open spec fn is_chain(config: Seq<GroupConfig>, path: Seq<int>) -> bool {
    &&& path.len() >= 1
    &&& forall|i: int| 0 <= i < path.len() ==> 0 <= #[trigger] path[i] < config.len()
    &&& forall|i: int| 0 <= i < path.len() - 1 ==> nests(config, #[trigger] path[i], path[i + 1])
}

/// Whether the group at `g` contains itself, directly or through nested
/// groups.
pub open spec fn contains_itself(config: Seq<GroupConfig>, g: int) -> bool {
    exists|path: Seq<int>|
        #[trigger] is_chain(config, path) && path.len() >= 2 && path[0] == g && path.last() == g
}

/// Where the members of a group from `pos` on expand, each nested group
/// among them is off the path and expands in its turn.
proof fn lemma_expand_members(config: Seq<GroupConfig>, g: int, pos: int, marks: Seq<bool>, p: int)
    requires
        0 <= g < config.len(),
        marks.len() == config.len(),
        0 <= pos <= p < config[g].members@.len(),
        expand(config, g, pos, marks) is Some,
    ensures
        config[g].members@[p] matches GroupMember::Group(id) ==> (group_index(config, id@) matches Some(
            t,
        ) ==> 0 <= t < marks.len() && !marks[t] && expand(config, t, 0, marks.update(t, true)) is Some),
    decreases p - pos,
{
    if pos < p {
        lemma_expand_members(config, g, pos + 1, marks, p);
    } else {
        match config[g].members@[p] {
            GroupMember::Group(id) => {
                lemma_first_index(group_ids(config), id@, 0);
            },
            GroupMember::Device(_) => {},
        }
    }
}

/// Where a group expands, no chain that starts at it ends on the path.
proof fn lemma_chain_stays_off_path(config: Seq<GroupConfig>, marks: Seq<bool>, path: Seq<int>)
    requires
        is_chain(config, path),
        path.len() >= 2,
        marks.len() == config.len(),
        expand(config, path[0], 0, marks) is Some,
    ensures
        !marks[path.last()],
    decreases path.len(),
{
    let v = path[0];
    let t = path[1];
    assert(nests(config, v, t));
    let p = choose|p: int|
        0 <= p < config[v].members@.len() && (#[trigger] config[v].members@[p] matches GroupMember::Group(
            id,
        ) && group_index(config, id@) == Some(t));
    lemma_expand_members(config, v, 0, marks, p);
    if path.len() > 2 {
        let rest = path.skip(1);
        assert(is_chain(config, rest)) by {
            assert forall|i: int| 0 <= i < rest.len() - 1 implies nests(
                config,
                #[trigger] rest[i],
                rest[i + 1],
            ) by {
                assert(nests(config, path[i + 1], path[i + 2]));
            }
        }
        lemma_chain_stays_off_path(config, marks.update(t, true), rest);
        assert(rest.last() == path.last());
    }
}

/// Where the definitions are acyclic no group contains itself, directly or
/// through nested groups.
pub proof fn acyclic_groups_do_not_contain_themselves(config: Seq<GroupConfig>, g: int)
    requires
        acyclic(config),
        0 <= g < config.len(),
    ensures
        !contains_itself(config, g),
{
    if contains_itself(config, g) {
        let path = choose|path: Seq<int>|
            #[trigger] is_chain(config, path) && path.len() >= 2 && path[0] == g && path.last()
                == g;
        assert(expansion(config, g) is Some);
        lemma_chain_stays_off_path(config, only(config.len(), g), path);
    }
}

} // verus!
