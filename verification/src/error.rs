//! What a request to the hub can fail with.

use vstd::prelude::*;

use crate::device::DeviceKey;
use crate::ids::{GroupId, RoutineId, SceneId};

verus! {

/// A request named something the hub does not know, or a configuration is
/// not acceptable.
#[derive(Debug, PartialEq, Eq)]
pub enum HubError {
    /// A group contains itself through its nested groups.
    GroupCycle(GroupId),
    UnknownScene(SceneId),
    UnknownDevice(DeviceKey),
    UnknownGroup(GroupId),
    UnknownRoutine(RoutineId),
    /// Two routines are configured under one id.
    DuplicateRoutine(RoutineId),
    UnknownIntegration(String),
    /// An expression could not be evaluated.
    Expression,
}

} // verus!
