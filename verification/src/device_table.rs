//! The device table: the devices in the order they were first seen.

use vstd::prelude::*;

use crate::device::{Device, DeviceKey};
use crate::table::{distinct, index_of};

verus! {

/// The devices in the order they were first seen.
#[derive(Debug, PartialEq, Eq)]
pub struct DevicesState(pub Vec<Device>);

impl View for DevicesState {
    type V = Seq<Device>;

    open spec fn view(&self) -> Seq<Device> {
        self.0@
    }
}

/// The keys of a sequence of devices, in order.
pub open spec fn device_keys(devices: Seq<Device>) -> Seq<(Seq<char>, Seq<char>)> {
    Seq::new(devices.len(), |i: int| devices[i].key@)
}

/// The position of the device under `key`.
pub open spec fn device_index(devices: Seq<Device>, key: (Seq<char>, Seq<char>)) -> Option<int> {
    index_of(device_keys(devices), key)
}

/// The device under `key`.
pub open spec fn device_at(devices: Seq<Device>, key: (Seq<char>, Seq<char>)) -> Option<Device> {
    match device_index(devices, key) {
        Some(i) => Some(devices[i]),
        None => None,
    }
}

/// A device table is well formed where no key occurs twice.
pub open spec fn devices_wf(devices: Seq<Device>) -> bool {
    distinct(device_keys(devices))
}

/// Integration and display name of each device, in order.
pub open spec fn device_names(devices: Seq<Device>) -> Seq<(Seq<char>, Seq<char>)> {
    Seq::new(devices.len(), |i: int| (devices[i].key.integration_id@, devices[i].name@))
}

/// The first device of `integration_id` that is called `name`.
pub open spec fn device_named(devices: Seq<Device>, integration_id: Seq<char>, name: Seq<char>) -> Option<
    Device,
> {
    match index_of(device_names(devices), (integration_id, name)) {
        Some(i) => Some(devices[i]),
        None => None,
    }
}

/// The first device of `integration_id` whose display name is `name`.
pub fn find_device_named(devices: &Vec<Device>, integration_id: &String, name: &String) -> (r:
    Option<usize>)
    ensures
        match r {
            Some(i) => index_of(device_names(devices@), (integration_id@, name@)) == Some(i as int)
                && i < devices.len(),
            None => index_of(device_names(devices@), (integration_id@, name@)) is None,
        },
{
    let mut i: usize = 0;
    while i < devices.len()
        invariant
            i <= devices.len(),
            forall|j: int| 0 <= j < i ==> device_names(devices@)[j] != (integration_id@, name@),
        decreases devices.len() - i,
    {
        if devices[i].key.integration_id == *integration_id && devices[i].name == *name {
            proof {
                crate::table::lemma_index_of_is(
                    device_names(devices@),
                    (integration_id@, name@),
                    i as int,
                );
            }
            return Some(i);
        }
        i += 1;
    }
    proof {
        crate::table::lemma_index_of_none(device_names(devices@), (integration_id@, name@));
    }
    None
}

/// The position of the device under `key` in `devices`.
pub fn find_device(devices: &Vec<Device>, key: &DeviceKey) -> (r: Option<usize>)
    ensures
        match r {
            Some(i) => device_index(devices@, key@) == Some(i as int) && i < devices.len()
                && devices@[i as int].key@ == key@,
            None => device_index(devices@, key@) is None,
        },
{
    let mut i: usize = 0;
    while i < devices.len()
        invariant
            i <= devices.len(),
            forall|j: int| 0 <= j < i ==> device_keys(devices@)[j] != key@,
        decreases devices.len() - i,
    {
        if devices[i].key.same(key) {
            proof {
                crate::table::lemma_index_of_is(device_keys(devices@), key@, i as int);
            }
            return Some(i);
        }
        i += 1;
    }
    proof {
        crate::table::lemma_index_of_none(device_keys(devices@), key@);
    }
    None
}

impl DevicesState {
    pub fn new() -> (r: Self)
        ensures
            r@ == Seq::<Device>::empty(),
            devices_wf(r@),
    {
        DevicesState(Vec::new())
    }

    /// The device under `key`, if the table holds one.
    pub fn get(&self, key: &DeviceKey) -> (r: Option<&Device>)
        ensures
            match r {
                Some(d) => device_at(self@, key@) == Some(*d),
                None => device_at(self@, key@) is None,
            },
    {
        match find_device(&self.0, key) {
            Some(i) => Some(&self.0[i]),
            None => None,
        }
    }

    pub fn len(&self) -> (n: usize)
        ensures
            n == self@.len(),
    {
        self.0.len()
    }
}

impl Clone for DevicesState {
    fn clone(&self) -> (r: Self)
        ensures
            r@ == self@,
    {
        let mut out: Vec<Device> = Vec::new();
        let mut i: usize = 0;
        while i < self.0.len()
            invariant
                i <= self.0.len(),
                out@ == self.0@.take(i as int),
            decreases self.0.len() - i,
        {
            out.push(self.0[i].clone());
            assert(self.0@.take(i as int + 1) == self.0@.take(i as int).push(self.0@[i as int]));
            i += 1;
        }
        assert(self.0@.take(self.0@.len() as int) == self.0@);
        DevicesState(out)
    }
}

} // verus!
