//! Identifiers of scenes, groups and routines.

use vstd::prelude::*;

verus! {

/// Identifier of an integration.
pub type IntegrationId = String;

/// Identifier of a device within its integration.
pub type DeviceId = String;

/// Identifier of a scene.
#[derive(Debug, PartialEq, Eq)]
pub struct SceneId(pub String);

impl View for SceneId {
    type V = Seq<char>;

    open spec fn view(&self) -> Seq<char> {
        self.0@
    }
}

impl Clone for SceneId {
    fn clone(&self) -> (r: Self)
        ensures
            r == *self,
    {
        SceneId(self.0.clone())
    }
}

impl SceneId {
    pub fn new(id: &str) -> (r: Self)
        ensures
            r@ == id@,
    {
        SceneId(id.to_owned())
    }

    /// Whether both name the same scene.
    pub fn same(&self, other: &SceneId) -> (b: bool)
        ensures
            b == (self@ == other@),
    {
        self.0 == other.0
    }
}

/// Identifier of a group.
#[derive(Debug, PartialEq, Eq)]
pub struct GroupId(pub String);

impl View for GroupId {
    type V = Seq<char>;

    open spec fn view(&self) -> Seq<char> {
        self.0@
    }
}

impl Clone for GroupId {
    fn clone(&self) -> (r: Self)
        ensures
            r == *self,
    {
        GroupId(self.0.clone())
    }
}

impl GroupId {
    pub fn new(id: &str) -> (r: Self)
        ensures
            r@ == id@,
    {
        GroupId(id.to_owned())
    }

    /// Whether both name the same group.
    pub fn same(&self, other: &GroupId) -> (b: bool)
        ensures
            b == (self@ == other@),
    {
        self.0 == other.0
    }
}

/// Identifier of a routine.
#[derive(Debug, PartialEq, Eq)]
pub struct RoutineId(pub String);

impl View for RoutineId {
    type V = Seq<char>;

    open spec fn view(&self) -> Seq<char> {
        self.0@
    }
}

impl Clone for RoutineId {
    fn clone(&self) -> (r: Self)
        ensures
            r == *self,
    {
        RoutineId(self.0.clone())
    }
}

impl RoutineId {
    pub fn new(id: &str) -> (r: Self)
        ensures
            r@ == id@,
    {
        RoutineId(id.to_owned())
    }

    /// Whether both name the same routine.
    pub fn same(&self, other: &RoutineId) -> (b: bool)
        ensures
            b == (self@ == other@),
    {
        self.0 == other.0
    }
}

} // verus!
