//! Devices: identity, state and scene binding.

use vstd::prelude::*;
use vstd::string::StringExecFns;

use crate::color::{Capabilities, DeviceColor};
use crate::ids::SceneId;

verus! {

/// Full brightness, in thousandths.
pub const BRIGHTNESS_MAX: u16 = 1000;

/// The identity of a device: the integration it belongs to and its id there.
#[derive(Debug, PartialEq, Eq)]
pub struct DeviceKey {
    pub integration_id: String,
    pub device_id: String,
}

impl View for DeviceKey {
    type V = (Seq<char>, Seq<char>);

    open spec fn view(&self) -> (Seq<char>, Seq<char>) {
        (self.integration_id@, self.device_id@)
    }
}

impl Clone for DeviceKey {
    fn clone(&self) -> (r: Self)
        ensures
            r == *self,
    {
        DeviceKey { integration_id: self.integration_id.clone(), device_id: self.device_id.clone() }
    }
}

impl DeviceKey {
    pub fn new(integration_id: &str, device_id: &str) -> (k: Self)
        ensures
            k@ == (integration_id@, device_id@),
    {
        DeviceKey { integration_id: integration_id.to_owned(), device_id: device_id.to_owned() }
    }

    /// Whether both keys name the same device.
    pub fn same(&self, other: &DeviceKey) -> (b: bool)
        ensures
            b == (self@ == other@),
    {
        self.integration_id == other.integration_id && self.device_id == other.device_id
    }

    /// The key as clients see it: integration id, a slash, device id.
    pub open spec fn spec_text(self) -> Seq<char> {
        self.integration_id@ + seq!['/'] + self.device_id@
    }

    pub fn to_text(&self) -> (s: String)
        ensures
            s@ == self.spec_text(),
    {
        let mut s = self.integration_id.clone();
        proof {
            reveal_strlit("/");
            assert("/"@ =~= seq!['/']);
        }
        s.append("/");
        s.append(self.device_id.as_str());
        s
    }
}

/// What a controllable device is set to.
///
/// Brightness is in thousandths of full output.
#[derive(Clone, Copy, Debug, PartialEq, Eq, Structural)]
pub struct DeviceState {
    pub power: bool,
    pub brightness: Option<u16>,
    pub color: Option<DeviceColor>,
    pub transition_ms: Option<u64>,
}

/// The brightness `b` moved by `step` thousandths and held within
/// `0..=BRIGHTNESS_MAX`.
pub open spec fn spec_dim_brightness(b: u16, step: i32) -> u16 {
    if b + step <= 0 {
        0u16
    } else if b + step >= BRIGHTNESS_MAX {
        BRIGHTNESS_MAX
    } else {
        (b + step) as u16
    }
}

pub fn dim_brightness(b: u16, step: i32) -> (r: u16)
    ensures
        r == spec_dim_brightness(b, step),
        r <= BRIGHTNESS_MAX,
{
    let sum: i64 = b as i64 + step as i64;
    if sum <= 0 {
        0
    } else if sum >= BRIGHTNESS_MAX as i64 {
        BRIGHTNESS_MAX
    } else {
        sum as u16
    }
}

impl DeviceState {
    /// Brightness, where there is one, is at most full.
    pub open spec fn wf(self) -> bool {
        self.brightness matches Some(b) ==> b <= BRIGHTNESS_MAX
    }

    /// An unlit state without brightness or colour.
    pub open spec fn spec_off() -> DeviceState {
        DeviceState { power: false, brightness: None, color: None, transition_ms: None }
    }

    pub fn off() -> (s: DeviceState)
        ensures
            s == Self::spec_off(),
            s.wf(),
    {
        DeviceState { power: false, brightness: None, color: None, transition_ms: None }
    }

    /// This state with its brightness moved by `step` thousandths; a state
    /// without brightness is left as it is. Power does not change.
    pub open spec fn spec_dimmed(self, step: i32) -> DeviceState {
        match self.brightness {
            Some(b) => DeviceState { brightness: Some(spec_dim_brightness(b, step)), ..self },
            None => self,
        }
    }

    pub fn dimmed(&self, step: i32) -> (s: DeviceState)
        ensures
            s == self.spec_dimmed(step),
            s.wf(),
            s.power == self.power,
    {
        match self.brightness {
            Some(b) => DeviceState {
                power: self.power,
                brightness: Some(dim_brightness(b, step)),
                color: self.color,
                transition_ms: self.transition_ms,
            },
            None => *self,
        }
    }
}

/// A device the hub controls.
///
/// `state` is the projected state, the one clients see; `raw` is what the
/// integration last reported, if it has reported.
#[derive(Clone, Copy, Debug, PartialEq, Eq, Structural)]
pub struct ManagedDevice {
    pub state: DeviceState,
    pub raw: Option<DeviceState>,
    pub capabilities: Capabilities,
}

/// The reading of a sensor.
#[derive(Clone, Copy, Debug, PartialEq, Eq, Structural)]
pub enum SensorValue {
    Boolean(bool),
    Number(i64),
}

/// What a device holds: a controllable state or a sensor reading.
#[derive(Clone, Copy, Debug, PartialEq, Eq, Structural)]
pub enum DeviceData {
    Managed(ManagedDevice),
    Sensor(SensorValue),
}

impl DeviceData {
    /// A controllable device that is off and supports no colour.
    pub open spec fn spec_default_managed() -> DeviceData {
        DeviceData::Managed(
            ManagedDevice {
                state: DeviceState::spec_off(),
                raw: None,
                capabilities: Capabilities::spec_none(),
            },
        )
    }

    pub fn default_managed() -> (d: DeviceData)
        ensures
            d == Self::spec_default_managed(),
    {
        DeviceData::Managed(
            ManagedDevice { state: DeviceState::off(), raw: None, capabilities: Capabilities::none() },
        )
    }

    pub open spec fn wf(self) -> bool {
        match self {
            DeviceData::Managed(m) => m.state.wf(),
            DeviceData::Sensor(_) => true,
        }
    }
}

/// The scene a device is bound to, and the activation that bound it.
#[derive(Debug, PartialEq, Eq)]
pub struct SceneBinding {
    pub scene_id: SceneId,
    pub activation_id: u64,
}

impl Clone for SceneBinding {
    fn clone(&self) -> (r: Self)
        ensures
            r == *self,
    {
        SceneBinding { scene_id: self.scene_id.clone(), activation_id: self.activation_id }
    }
}

/// A device as the hub knows it.
#[derive(Debug, PartialEq, Eq)]
pub struct Device {
    pub key: DeviceKey,
    pub name: String,
    pub data: DeviceData,
    pub scene: Option<SceneBinding>,
}

impl Clone for Device {
    fn clone(&self) -> (r: Self)
        ensures
            r == *self,
    {
        let scene = match &self.scene {
            Some(b) => Some(b.clone()),
            None => None,
        };
        Device { key: self.key.clone(), name: self.name.clone(), data: self.data, scene }
    }
}

/// Whether two optional bindings name the same scene and activation.
pub open spec fn same_binding(a: Option<SceneBinding>, b: Option<SceneBinding>) -> bool {
    match (a, b) {
        (Some(x), Some(y)) => x.scene_id@ == y.scene_id@ && x.activation_id == y.activation_id,
        (None, None) => true,
        _ => false,
    }
}

impl Device {
    pub fn new(key: DeviceKey, name: String, data: DeviceData) -> (d: Device)
        ensures
            d == (Device { key, name, data, scene: None }),
    {
        Device { key, name, data, scene: None }
    }

    pub fn get_device_key(&self) -> (k: DeviceKey)
        ensures
            k == self.key,
    {
        self.key.clone()
    }

    pub open spec fn spec_scene_id(self) -> Option<SceneId> {
        match self.scene {
            Some(b) => Some(b.scene_id),
            None => None,
        }
    }

    /// The scene this device is bound to, if any.
    pub fn get_scene_id(&self) -> (s: Option<SceneId>)
        ensures
            s == self.spec_scene_id(),
    {
        match &self.scene {
            Some(b) => Some(b.scene_id.clone()),
            None => None,
        }
    }

    /// The controllable state, where the device has one.
    pub open spec fn spec_state(self) -> Option<DeviceState> {
        match self.data {
            DeviceData::Managed(m) => Some(m.state),
            DeviceData::Sensor(_) => None,
        }
    }

    pub fn get_state(&self) -> (s: Option<DeviceState>)
        ensures
            s == self.spec_state(),
    {
        match self.data {
            DeviceData::Managed(m) => Some(m.state),
            DeviceData::Sensor(_) => None,
        }
    }

    /// This device with its controllable state replaced; a sensor is left as
    /// it is.
    pub open spec fn spec_with_state(self, state: DeviceState) -> Device {
        match self.data {
            DeviceData::Managed(m) => Device {
                data: DeviceData::Managed(ManagedDevice { state, ..m }),
                ..self
            },
            DeviceData::Sensor(_) => self,
        }
    }

    pub fn with_state(&self, state: DeviceState) -> (d: Device)
        ensures
            d == self.spec_with_state(state),
    {
        let mut d = self.clone();
        match self.data {
            DeviceData::Managed(m) => {
                d.data = DeviceData::Managed(
                    ManagedDevice { state, raw: m.raw, capabilities: m.capabilities },
                );
            },
            DeviceData::Sensor(_) => {},
        }
        d
    }

    /// Whether two devices show the same data and scene binding.
    pub open spec fn spec_same_state(self, other: Device) -> bool {
        self.data == other.data && same_binding(self.scene, other.scene)
    }

    pub fn same_state(&self, other: &Device) -> (b: bool)
        ensures
            b == self.spec_same_state(*other),
    {
        let same_scene = match (&self.scene, &other.scene) {
            (Some(x), Some(y)) => x.scene_id.same(&y.scene_id) && x.activation_id == y.activation_id,
            (None, None) => true,
            _ => false,
        };
        self.data == other.data && same_scene
    }
}

} // verus!
