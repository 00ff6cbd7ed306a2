//! An integration without hardware: it announces the devices it was
//! configured with and remembers what it is sent.

use vstd::prelude::*;

use crate::device::{Device, DeviceData, DeviceKey};
use crate::event::Event;
use crate::table::{index_of, lemma_index_of_is, lemma_index_of_none};

verus! {

/// A device of the dummy integration as configured.
#[derive(Debug, PartialEq, Eq)]
pub struct DummyDeviceConfig {
    pub name: String,
    pub init_state: Option<DeviceData>,
}

/// A configured device under its id.
#[derive(Debug, PartialEq, Eq)]
pub struct DummyDeviceEntry {
    pub id: String,
    pub config: DummyDeviceConfig,
}

/// The configuration of the dummy integration.
#[derive(Debug, PartialEq, Eq)]
pub struct DummyConfig {
    pub devices: Vec<DummyDeviceEntry>,
}

/// The dummy integration.
#[derive(Debug, PartialEq, Eq)]
pub struct Dummy {
    pub id: String,
    pub config: DummyConfig,
    pub devices: Vec<Device>,
}

/// The device a configured entry stands for: it is off and without colour
/// unless the entry gives a state.
pub open spec fn dummy_device(integration_id: String, entry: DummyDeviceEntry) -> Device {
    Device {
        key: DeviceKey { integration_id, device_id: entry.id },
        name: entry.config.name,
        data: match entry.config.init_state {
            Some(d) => d,
            None => DeviceData::spec_default_managed(),
        },
        scene: None,
    }
}

/// The reports of the configured devices, in order.
pub open spec fn dummy_reports(integration_id: String, config: DummyConfig) -> Seq<Event> {
    Seq::new(
        config.devices@.len(),
        |i: int|
            Event::ExternalStateUpdate { device: dummy_device(integration_id, config.devices@[i]) },
    )
}

/// The device ids of a sequence of devices.
pub open spec fn device_ids(devices: Seq<Device>) -> Seq<Seq<char>> {
    Seq::new(devices.len(), |i: int| devices[i].key.device_id@)
}

/// The devices once `device` is remembered: in the place of the device of
/// its id, or at the end.
pub open spec fn remembered(devices: Seq<Device>, device: Device) -> Seq<Device> {
    match index_of(device_ids(devices), device.key.device_id@) {
        Some(i) => devices.update(i, device),
        None => devices.push(device),
    }
}

impl Dummy {
    pub fn new(id: &String, config: DummyConfig) -> (r: Dummy)
        ensures
            r.id == *id,
            r.config == config,
            r.devices@ == Seq::<Device>::empty(),
    {
        Dummy { id: id.clone(), config, devices: Vec::new() }
    }

    /// Announces the configured devices: a report for each, in order.
    pub fn register(&self) -> (events: Vec<Event>)
        ensures
            events@ == dummy_reports(self.id, self.config),
    {
        let mut events: Vec<Event> = Vec::new();
        let mut i: usize = 0;
        while i < self.config.devices.len()
            invariant
                i <= self.config.devices.len(),
                events@.len() == i,
                forall|t: int|
                    0 <= t < i ==> (#[trigger] events@[t]) == dummy_reports(self.id, self.config)[t],
            decreases self.config.devices.len() - i,
        {
            let entry = &self.config.devices[i];
            let data = match entry.config.init_state {
                Some(d) => d,
                None => DeviceData::default_managed(),
            };
            let device = Device::new(
                DeviceKey { integration_id: self.id.clone(), device_id: entry.id.clone() },
                entry.config.name.clone(),
                data,
            );
            events.push(Event::ExternalStateUpdate { device });
            i += 1;
        }
        assert(events@ =~= dummy_reports(self.id, self.config));
        events
    }

    /// Starting the dummy integration starts nothing.
    pub fn start(&self) {
    }

    /// Remembers the device as sent.
    pub fn set_integration_device_state(&mut self, device: &Device)
        ensures
            final(self).id == old(self).id,
            final(self).config == old(self).config,
            final(self).devices@ == remembered(old(self).devices@, *device),
    {
        let mut i: usize = 0;
        while i < self.devices.len()
            invariant
                i <= self.devices.len(),
                *self == *old(self),
                forall|j: int| 0 <= j < i ==> device_ids(self.devices@)[j] != device.key.device_id@,
            decreases self.devices.len() - i,
        {
            if self.devices[i].key.device_id == device.key.device_id {
                proof {
                    lemma_index_of_is(device_ids(self.devices@), device.key.device_id@, i as int);
                }
                self.devices.set(i, device.clone());
                return ;
            }
            i += 1;
        }
        proof {
            lemma_index_of_none(device_ids(self.devices@), device.key.device_id@);
        }
        self.devices.push(device.clone());
    }

    /// The dummy integration knows no action: the payload is ignored.
    pub fn run_integration_action(&mut self, payload: &serde_json::Value)
        ensures
            *final(self) == *old(self),
    {
    }
}

} // verus!
