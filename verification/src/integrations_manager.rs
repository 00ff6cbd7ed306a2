//! The table of loaded integrations.

use vstd::prelude::*;
use vstd::string::StringExecFns;

use crate::color::DeviceColor;
use crate::device::Device;
use crate::error::HubError;
use crate::event::Event;
use crate::integrations::circadian::{is_circadian_device, Circadian, POLL_RATE_MS};
use crate::integrations::dummy::{dummy_reports, remembered, Dummy, DummyConfig};
use crate::table::{index_of, lemma_index_of_is, lemma_index_of_none};

verus! {

/// An integration of one of the kinds the hub knows.
#[derive(Debug, PartialEq, Eq)]
pub enum Integration {
    Dummy(Dummy),
    Circadian(Circadian),
}

/// A loaded integration under its id.
#[derive(Debug, PartialEq, Eq)]
pub struct ManagedIntegration {
    pub id: String,
    pub integration: Integration,
    pub devices: Vec<Device>,
}

/// The text that refuses a module name.
pub open spec fn unknown_module_text(module_name: Seq<char>) -> Seq<char> {
    "Unknown module name "@ + module_name + "!"@
}

/// Makes the integration of the module `module_name` under the id `id`
/// from its configuration. The one module known by name is `dummy`; any
/// other name is refused.
pub fn load_integration(module_name: &String, id: &String, config: DummyConfig) -> (r: Result<
    Integration,
    String,
>)
    ensures
        match r {
            Ok(integration) => module_name@ == "dummy"@ && (integration matches Integration::Dummy(
                d,
            ) && d.id == *id && d.config == config && d.devices@.len() == 0),
            Err(text) => module_name@ != "dummy"@ && text@ == unknown_module_text(module_name@),
        },
{
    if *module_name == "dummy".to_owned() {
        Ok(Integration::Dummy(Dummy::new(id, config)))
    } else {
        let mut text = "Unknown module name ".to_owned();
        text.append(module_name.as_str());
        text.append("!");
        Err(text)
    }
}

/// The ids of the loaded integrations, in order.
pub open spec fn integration_ids(integrations: Seq<ManagedIntegration>) -> Seq<Seq<char>> {
    Seq::new(integrations.len(), |i: int| integrations[i].id@)
}

/// The position of the integration under `id`.
pub open spec fn integration_index(integrations: Seq<ManagedIntegration>, id: Seq<char>) -> Option<
    int,
> {
    index_of(integration_ids(integrations), id)
}

/// Whether `events` is what the integration announces when it registers:
/// the dummy integration its configured devices, a circadian light its one
/// device.
pub open spec fn is_registration(m: ManagedIntegration, events: Seq<Event>) -> bool {
    match m.integration {
        Integration::Dummy(d) => events == dummy_reports(d.id, d.config),
        Integration::Circadian(c) => events.len() == 1 && (events[0] matches Event::ExternalStateUpdate {
            device,
        } && is_circadian_device(device, c.id, c.config, c.color)),
    }
}

/// How often an integration wants to be polled once started, in
/// milliseconds, if at all.
pub open spec fn poll_rate(m: ManagedIntegration) -> Option<u64> {
    match m.integration {
        Integration::Dummy(_) => None,
        Integration::Circadian(_) => Some(POLL_RATE_MS),
    }
}

/// Whether `after` is `before` once it was handed `device`: the dummy
/// integration remembers the device, a circadian light ignores it.
pub open spec fn handed(before: ManagedIntegration, after: ManagedIntegration, device: Device) -> bool {
    &&& after.id == before.id
    &&& after.devices == before.devices
    &&& match (before.integration, after.integration) {
        (Integration::Dummy(a), Integration::Dummy(b)) => b.id == a.id && b.config == a.config
            && b.devices@ == remembered(a.devices@, device),
        (Integration::Circadian(a), Integration::Circadian(b)) => a == b,
        _ => false,
    }
}

/// The integrations of the hub.
pub struct IntegrationsManager {
    integrations: Vec<ManagedIntegration>,
}

impl IntegrationsManager {
    /// The loaded integrations, in the order they were loaded.
    pub closed spec fn integrations(&self) -> Seq<ManagedIntegration> {
        self.integrations@
    }

    pub fn new() -> (r: IntegrationsManager)
        ensures
            r.integrations() == Seq::<ManagedIntegration>::empty(),
    {
        IntegrationsManager { integrations: Vec::new() }
    }

    /// The position of the integration under `id`.
    pub fn find(&self, id: &String) -> (r: Option<usize>)
        ensures
            match r {
                Some(i) => integration_index(self.integrations(), id@) == Some(i as int) && i
                    < self.integrations().len() && self.integrations()[i as int].id@ == id@,
                None => integration_index(self.integrations(), id@) is None,
            },
    {
        let mut i: usize = 0;
        while i < self.integrations.len()
            invariant
                i <= self.integrations.len(),
                forall|j: int| 0 <= j < i ==> integration_ids(self.integrations@)[j] != id@,
            decreases self.integrations.len() - i,
        {
            if self.integrations[i].id == *id {
                proof {
                    lemma_index_of_is(integration_ids(self.integrations@), id@, i as int);
                }
                return Some(i);
            }
            i += 1;
        }
        proof {
            lemma_index_of_none(integration_ids(self.integrations@), id@);
        }
        None
    }

    /// Whether an integration is loaded under `id`.
    pub fn has_integration(&self, id: &String) -> (b: bool)
        ensures
            b == (integration_index(self.integrations(), id@) is Some),
    {
        self.find(id).is_some()
    }

    /// Puts `integration` in the table under `id`, without devices: in the
    /// place of the integration of that id, or at the end.
    pub fn add_integration(&mut self, id: &String, integration: Integration)
        ensures
            final(self).integrations().len() == match integration_index(
                old(self).integrations(),
                id@,
            ) {
                Some(_) => old(self).integrations().len(),
                None => old(self).integrations().len() + 1,
            },
            integration_index(final(self).integrations(), id@) matches Some(i) && ({
                let m = final(self).integrations()[i];
                &&& i == match integration_index(old(self).integrations(), id@) {
                    Some(at) => at,
                    None => old(self).integrations().len() as int,
                }
                &&& m.id == *id
                &&& m.integration == integration
                &&& m.devices@.len() == 0
                &&& forall|j: int|
                    0 <= j < old(self).integrations().len() && j != i
                        ==> final(self).integrations()[j] == old(self).integrations()[j]
            }),
    {
        let managed = ManagedIntegration { id: id.clone(), integration, devices: Vec::new() };
        let ghost before = self.integrations@;
        match self.find(id) {
            Some(i) => {
                self.integrations.set(i, managed);
                proof {
                    assert(integration_ids(self.integrations@) =~= integration_ids(before));
                }
            },
            None => {
                self.integrations.push(managed);
                proof {
                    crate::table::lemma_first_index(integration_ids(before), id@, 0);
                    assert forall|j: int| 0 <= j < before.len() implies integration_ids(
                        self.integrations@,
                    )[j] != id@ by {
                        assert(integration_ids(before)[j] != id@);
                    }
                    lemma_index_of_is(
                        integration_ids(self.integrations@),
                        id@,
                        before.len() as int,
                    );
                }
            },
        }
    }

    /// Loads the integration of the module `module_name` under
    /// `integration_id`, in the place of the integration of that id or at
    /// the end. Where the module is refused nothing changes.
    pub fn load_integration(
        &mut self,
        module_name: &String,
        integration_id: &String,
        config: DummyConfig,
    ) -> (r: Result<(), String>)
        ensures
            match r {
                Ok(()) => {
                    &&& module_name@ == "dummy"@
                    &&& final(self).integrations().len() == match integration_index(
                        old(self).integrations(),
                        integration_id@,
                    ) {
                        Some(_) => old(self).integrations().len(),
                        None => old(self).integrations().len() + 1,
                    }
                    &&& integration_index(final(self).integrations(), integration_id@) matches Some(
                        i,
                    ) && ({
                        let m = final(self).integrations()[i];
                        &&& i == match integration_index(
                            old(self).integrations(),
                            integration_id@,
                        ) {
                            Some(at) => at,
                            None => old(self).integrations().len() as int,
                        }
                        &&& m.id == *integration_id
                        &&& m.devices@.len() == 0
                        &&& m.integration matches Integration::Dummy(d) && d.id == *integration_id
                            && d.config == config && d.devices@.len() == 0
                        &&& forall|j: int|
                            0 <= j < old(self).integrations().len() && j != i
                                ==> final(self).integrations()[j] == old(self).integrations()[j]
                    })
                },
                Err(text) => {
                    &&& final(self).integrations() == old(self).integrations()
                    &&& module_name@ != "dummy"@
                    &&& text@ == unknown_module_text(module_name@)
                },
            },
    {
        match load_integration(module_name, integration_id, config) {
            Ok(integration) => {
                self.add_integration(integration_id, integration);
                Ok(())
            },
            Err(text) => Err(text),
        }
    }

    /// Lets every integration register, in order, and returns what each
    /// announces.
    pub fn run_register_pass(&self) -> (events: Vec<Vec<Event>>)
        ensures
            events@.len() == self.integrations().len(),
            forall|i: int|
                0 <= i < events@.len() ==> is_registration(
                    self.integrations()[i],
                    (#[trigger] events@[i])@,
                ),
    {
        let mut events: Vec<Vec<Event>> = Vec::new();
        let mut i: usize = 0;
        while i < self.integrations.len()
            invariant
                i <= self.integrations.len(),
                events@.len() == i,
                forall|t: int|
                    0 <= t < i ==> is_registration(self.integrations@[t], (#[trigger] events@[t])@),
            decreases self.integrations.len() - i,
        {
            let announced = match &self.integrations[i].integration {
                Integration::Dummy(d) => d.register(),
                Integration::Circadian(c) => {
                    let mut v: Vec<Event> = Vec::new();
                    v.push(c.register());
                    v
                },
            };
            events.push(announced);
            i += 1;
        }
        events
    }

    /// Starts every integration, in order, and returns for each how often
    /// it wants to be polled, in milliseconds, if at all.
    pub fn run_start_pass(&self) -> (rates: Vec<Option<u64>>)
        ensures
            rates@.len() == self.integrations().len(),
            forall|i: int|
                0 <= i < rates@.len() ==> (#[trigger] rates@[i]) == poll_rate(
                    self.integrations()[i],
                ),
    {
        let mut rates: Vec<Option<u64>> = Vec::new();
        let mut i: usize = 0;
        while i < self.integrations.len()
            invariant
                i <= self.integrations.len(),
                rates@.len() == i,
                forall|t: int|
                    0 <= t < i ==> (#[trigger] rates@[t]) == poll_rate(self.integrations@[t]),
            decreases self.integrations.len() - i,
        {
            let rate = match &self.integrations[i].integration {
                Integration::Dummy(d) => {
                    d.start();
                    None
                },
                Integration::Circadian(c) => Some(c.start()),
            };
            rates.push(rate);
            i += 1;
        }
        rates
    }

    /// Hands the device to the integration it belongs to. Where no such
    /// integration is loaded nothing changes.
    pub fn set_integration_device_state(&mut self, device: &Device) -> (r: Result<(), HubError>)
        ensures
            final(self).integrations().len() == old(self).integrations().len(),
            match r {
                Ok(()) => integration_index(old(self).integrations(), device.key.integration_id@) matches Some(
                    i,
                ) && handed(old(self).integrations()[i], final(self).integrations()[i], *device)
                    && forall|j: int|
                    0 <= j < old(self).integrations().len() && j != i
                        ==> final(self).integrations()[j] == old(self).integrations()[j],
                Err(e) => integration_index(old(self).integrations(), device.key.integration_id@) is None
                    && final(self).integrations() == old(self).integrations() && e
                    == HubError::UnknownIntegration(device.key.integration_id),
            },
    {
        let i = match self.find(&device.key.integration_id) {
            Some(i) => i,
            None => {
                return Err(HubError::UnknownIntegration(device.key.integration_id.clone()));
            },
        };
        let managed = self.integrations.remove(i);
        let ManagedIntegration { id, integration, devices } = managed;
        let integration = match integration {
            Integration::Dummy(mut d) => {
                d.set_integration_device_state(device);
                Integration::Dummy(d)
            },
            Integration::Circadian(mut c) => {
                c.set_integration_device_state(device);
                Integration::Circadian(c)
            },
        };
        self.integrations.insert(i, ManagedIntegration { id, integration, devices });
        Ok(())
    }

    /// Hands the payload of a custom action to the integration under
    /// `integration_id`. None of the integrations knows an action, so
    /// nothing changes.
    pub fn run_integration_action(&mut self, integration_id: &String, payload: &serde_json::Value) -> (r:
        Result<(), HubError>)
        ensures
            final(self).integrations() == old(self).integrations(),
            match r {
                Ok(()) => integration_index(old(self).integrations(), integration_id@) is Some,
                Err(e) => integration_index(old(self).integrations(), integration_id@) is None && e
                    == HubError::UnknownIntegration(*integration_id),
            },
    {
        match self.find(integration_id) {
            Some(_) => Ok(()),
            None => Err(HubError::UnknownIntegration(integration_id.clone())),
        }
    }
}

/// The integration with the colour `color` where it is a circadian
/// light, else as it is.
pub open spec fn with_color(m: ManagedIntegration, color: DeviceColor) -> ManagedIntegration {
    match m.integration {
        Integration::Circadian(c) => ManagedIntegration {
            integration: Integration::Circadian(Circadian { color: Some(color), ..c }),
            ..m
        },
        Integration::Dummy(_) => m,
    }
}

impl IntegrationsManager {
    /// How many integrations are loaded.
    pub fn len(&self) -> (n: usize)
        ensures
            n == self.integrations().len(),
    {
        self.integrations.len()
    }

    /// The integration at position `i`.
    pub fn get(&self, i: usize) -> (m: &ManagedIntegration)
        requires
            i < self.integrations().len(),
        ensures
            *m == self.integrations()[i as int],
    {
        &self.integrations[i]
    }

    /// Hands the circadian light under `id` the colour mixed for the
    /// present time of day; `false` where no circadian light is loaded under
    /// that id, and nothing changes.
    pub fn set_circadian_color(&mut self, id: &String, color: DeviceColor) -> (done: bool)
        ensures
            done == (integration_index(old(self).integrations(), id@) matches Some(i)
                && old(self).integrations()[i].integration is Circadian),
            done ==> (integration_index(old(self).integrations(), id@) matches Some(i)
                && final(self).integrations() == old(self).integrations().update(
                i,
                with_color(old(self).integrations()[i], color),
            )),
            !done ==> final(self).integrations() == old(self).integrations(),
    {
        let i = match self.find(id) {
            Some(i) => i,
            None => {
                return false;
            },
        };
        let is_circadian = match &self.integrations[i].integration {
            Integration::Circadian(_) => true,
            Integration::Dummy(_) => false,
        };
        if !is_circadian {
            return false;
        }
        let ghost before = self.integrations@;
        let managed = self.integrations.remove(i);
        let ManagedIntegration { id: held_id, integration, devices } = managed;
        let integration = match integration {
            Integration::Circadian(mut c) => {
                c.set_color(color);
                Integration::Circadian(c)
            },
            Integration::Dummy(d) => Integration::Dummy(d),
        };
        self.integrations.insert(i, ManagedIntegration { id: held_id, integration, devices });
        assert(self.integrations@ =~= before.update(i as int, with_color(before[i as int], color)));
        true
    }

    /// What the integration under `id` sends when it is polled: a circadian
    /// light a request to set its device, any other nothing.
    pub fn poll(&self, id: &String) -> (event: Option<Event>)
        ensures
            match event {
                Some(e) => integration_index(self.integrations(), id@) matches Some(i)
                    && (self.integrations()[i].integration matches Integration::Circadian(c)
                    && (e matches Event::SetInternalState { device, skip_external_update }
                    && skip_external_update is None && is_circadian_device(
                    device,
                    c.id,
                    c.config,
                    c.color,
                ))),
                None => integration_index(self.integrations(), id@) matches Some(i)
                    ==> self.integrations()[i].integration is Dummy,
            },
    {
        match self.find(id) {
            Some(i) => match &self.integrations[i].integration {
                Integration::Circadian(c) => Some(c.poll()),
                Integration::Dummy(_) => None,
            },
            None => None,
        }
    }
}

} // verus!
