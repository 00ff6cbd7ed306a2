//! The events the hub handles, the actions users ask for, and what handling
//! an event leaves for the program around the hub to carry out.

use vstd::prelude::*;

use crate::color::ColorMode;
use crate::device::{Device, DeviceKey};
use crate::expr::ActionExpr;
use crate::ids::{GroupId, RoutineId, SceneId};
use crate::scene::{ActivateSceneDescriptor, CycleScenesDescriptor, SceneConfig};

verus! {

/// The step of a dimming request that gives none, in thousandths.
pub const DEFAULT_DIM_STEP: i32 = 100;

/// A request to change the brightness of devices and groups by `step`
/// thousandths.
#[derive(Debug, PartialEq, Eq)]
pub struct DimDescriptor {
    pub device_keys: Option<Vec<DeviceKey>>,
    pub group_keys: Option<Vec<GroupId>>,
    pub step: Option<i32>,
}

/// A request that an integration interprets as it likes.
#[derive(Debug, PartialEq, Eq)]
pub struct CustomActionDescriptor {
    pub integration_id: String,
    pub payload: serde_json::Value,
}

/// A request to run a routine whatever its condition.
#[derive(Debug, PartialEq, Eq)]
pub struct ForceTriggerRoutineDescriptor {
    pub routine_id: RoutineId,
}

/// A request that concerns the user-interface state.
#[derive(Debug, PartialEq, Eq)]
pub enum UiActionDescriptor {
    StoreUIState { key: String, value: serde_json::Value },
}

/// What a user, or a routine, asks the hub to do.
#[derive(Debug, PartialEq, Eq)]
pub enum Action {
    ActivateScene(ActivateSceneDescriptor),
    CycleScenes(CycleScenesDescriptor),
    Dim(DimDescriptor),
    Custom(CustomActionDescriptor),
    ForceTriggerRoutine(ForceTriggerRoutineDescriptor),
    SetDeviceState(Device),
    ToggleDeviceOverride { device_keys: Vec<DeviceKey>, override_state: bool },
    EvalExpr(ActionExpr),
    Ui(UiActionDescriptor),
}

/// An event on the bus of the hub.
#[derive(Debug, PartialEq, Eq)]
pub enum Event {
    /// An integration reports the state of a device.
    ExternalStateUpdate { device: Device },
    /// Every integration has registered its devices.
    StartupCompleted,
    /// The device table changed: `old` is the device as it was, if it was
    /// known, `new` the device as it is.
    InternalStateUpdate { old: Option<Device>, new: Device },
    /// Set a device in the table.
    SetInternalState { device: Device, skip_external_update: Option<bool> },
    /// Send the state of a device out to its integration.
    SetExternalState { device: Device },
    DbStoreScene { scene_id: SceneId, config: SceneConfig },
    DbDeleteScene { scene_id: SceneId },
    DbEditScene { scene_id: SceneId, name: String },
    Action(Action),
    /// Carry out the action at `index` of a routine.
    RoutineAction { routine_id: RoutineId, index: usize },
    /// The coalescing window of a scheduled broadcast is over.
    BroadcastDue,
}

/// What handling an event leaves to be carried out, in order.
#[derive(Debug, PartialEq, Eq)]
#[allow(inconsistent_fields)]
pub enum Effect {
    /// Put the event at the end of the bus.
    Enqueue(Event),
    /// Hand the device to its integration, its colour in `color_mode`
    /// where one is given.
    SetIntegrationDeviceState { device: Device, color_mode: Option<ColorMode> },
    /// Write the stored scene of this id, as the hub now holds it, to the
    /// store.
    PersistScene { scene_id: SceneId },
    /// Delete the scene of this id from the store.
    DeleteScene { scene_id: SceneId },
    /// Rename the scene of this id in the store.
    RenameScene { scene_id: SceneId, name: String },
    /// Write the user-interface value under this key, as the hub now holds
    /// it, to the store.
    PersistUiState { key: String },
    /// Write the override flag of the device to the store.
    PersistSceneOverride { key: DeviceKey, flag: bool },
    /// Start the timer of a broadcast: after `delay_ms` milliseconds hand
    /// the hub a `BroadcastDue` event.
    StartBroadcastTimer { delay_ms: u64 },
    /// Send the current state to the clients.
    Broadcast,
}

} // verus!
