//! Scene definitions: what a scene binds a device or a group to.

use vstd::prelude::*;

use crate::color::DeviceColor;
use crate::device::{DeviceKey, DeviceState, BRIGHTNESS_MAX};
use crate::ids::{GroupId, SceneId};

verus! {

/// A link to another device: the scene reads that device's current state.
///
/// The device is named by its id or, failing that, by its display name.
/// `brightness`, where given, replaces the brightness read.
#[derive(Debug, PartialEq, Eq)]
pub struct SceneDeviceLink {
    pub integration_id: String,
    pub device_id: Option<String>,
    pub name: Option<String>,
    pub brightness: Option<u16>,
}

impl Clone for SceneDeviceLink {
    fn clone(&self) -> (r: Self)
        ensures
            r == *self,
    {
        let device_id = match &self.device_id {
            Some(s) => Some(s.clone()),
            None => None,
        };
        let name = match &self.name {
            Some(s) => Some(s.clone()),
            None => None,
        };
        SceneDeviceLink {
            integration_id: self.integration_id.clone(),
            device_id,
            name,
            brightness: self.brightness,
        }
    }
}

/// A reference to a scene.
#[derive(Debug, PartialEq, Eq)]
pub struct SceneDescriptor {
    pub scene_id: SceneId,
    pub skip_locked_devices: Option<bool>,
}

impl Clone for SceneDescriptor {
    fn clone(&self) -> (r: Self)
        ensures
            r == *self,
    {
        SceneDescriptor {
            scene_id: self.scene_id.clone(),
            skip_locked_devices: self.skip_locked_devices,
        }
    }
}

/// A request to step through a list of scenes.
///
/// Without device or group keys it addresses every device the scenes bind.
#[derive(Debug, PartialEq, Eq)]
pub struct CycleScenesDescriptor {
    pub scenes: Vec<SceneDescriptor>,
    pub nowrap: Option<bool>,
    pub device_keys: Option<Vec<DeviceKey>>,
    pub group_keys: Option<Vec<GroupId>>,
}

/// A request to activate a scene.
///
/// Without device or group keys it addresses every device the scene binds.
#[derive(Debug, PartialEq, Eq)]
pub struct ActivateSceneDescriptor {
    pub scene_id: SceneId,
    pub device_keys: Option<Vec<DeviceKey>>,
    pub group_keys: Option<Vec<GroupId>>,
}

/// A state a scene applies to a device. Brightness is in thousandths.
#[derive(Clone, Copy, Debug, PartialEq, Eq, Structural)]
pub struct SceneDeviceState {
    pub power: bool,
    pub color: Option<DeviceColor>,
    pub brightness: Option<u16>,
    pub transition_ms: Option<u64>,
}

impl SceneDeviceState {
    /// Brightness, where there is one, is at most full.
    pub open spec fn wf(self) -> bool {
        self.brightness matches Some(b) ==> b <= BRIGHTNESS_MAX
    }

    /// The device state this scene state stands for.
    pub open spec fn spec_device_state(self) -> DeviceState {
        DeviceState {
            power: self.power,
            brightness: self.brightness,
            color: self.color,
            transition_ms: self.transition_ms,
        }
    }

    pub fn to_device_state(&self) -> (s: DeviceState)
        ensures
            s == self.spec_device_state(),
    {
        DeviceState {
            power: self.power,
            brightness: self.brightness,
            color: self.color,
            transition_ms: self.transition_ms,
        }
    }

    /// The scene state that stands for a device state.
    pub open spec fn spec_from_device_state(s: DeviceState) -> SceneDeviceState {
        SceneDeviceState {
            power: s.power,
            color: s.color,
            brightness: s.brightness,
            transition_ms: s.transition_ms,
        }
    }

    pub fn from_device_state(s: &DeviceState) -> (r: SceneDeviceState)
        ensures
            r == Self::spec_from_device_state(*s),
    {
        SceneDeviceState {
            power: s.power,
            color: s.color,
            brightness: s.brightness,
            transition_ms: s.transition_ms,
        }
    }
}

/// What a scene binds a device or a group to.
#[derive(Debug, PartialEq, Eq)]
pub enum SceneDeviceConfig {
    /// Read the current state of another device.
    SceneDeviceLink(SceneDeviceLink),
    /// Take what another scene says of the device.
    SceneLink(SceneDescriptor),
    /// Apply this state.
    SceneDeviceState(SceneDeviceState),
}

impl Clone for SceneDeviceConfig {
    fn clone(&self) -> (r: Self)
        ensures
            r == *self,
    {
        match self {
            SceneDeviceConfig::SceneDeviceLink(l) => SceneDeviceConfig::SceneDeviceLink(l.clone()),
            SceneDeviceConfig::SceneLink(d) => SceneDeviceConfig::SceneLink(d.clone()),
            SceneDeviceConfig::SceneDeviceState(s) => SceneDeviceConfig::SceneDeviceState(*s),
        }
    }
}

/// The binding of one device in a scene.
#[derive(Debug, PartialEq, Eq)]
pub struct SceneDeviceEntry {
    pub key: DeviceKey,
    pub config: SceneDeviceConfig,
}

/// The binding of one group in a scene.
#[derive(Debug, PartialEq, Eq)]
pub struct SceneGroupEntry {
    pub group_id: GroupId,
    pub config: SceneDeviceConfig,
}

/// A scene as configured: bindings of devices and of groups, in the order
/// they were defined.
#[derive(Debug, PartialEq, Eq)]
pub struct SceneConfig {
    pub name: String,
    pub devices: Option<Vec<SceneDeviceEntry>>,
    pub groups: Option<Vec<SceneGroupEntry>>,
}

impl SceneConfig {
    /// The device bindings, none where the scene has no such table.
    pub open spec fn device_entries(self) -> Seq<SceneDeviceEntry> {
        match self.devices {
            Some(v) => v@,
            None => Seq::empty(),
        }
    }

    /// The group bindings, none where the scene has no such table.
    pub open spec fn group_entries(self) -> Seq<SceneGroupEntry> {
        match self.groups {
            Some(v) => v@,
            None => Seq::empty(),
        }
    }
}

/// A scene under its id.
#[derive(Debug, PartialEq, Eq)]
pub struct Scene {
    pub id: SceneId,
    pub config: SceneConfig,
}

} // verus!
