//! Routines and their rules. A routine is a named bundle of rules —
//! AND-ed together — and the actions fired when the rules become true.

use crate::action::Action;
use crate::device::{DeviceKey, SensorDevice};
use crate::group::GroupId;
use crate::kvmap::{KeyView, KvMap};
use crate::scene::SceneId;
use vstd::prelude::*;

verus! {

/// Identity of a routine.
#[derive(Debug)]
pub struct RoutineId(pub String);

impl View for RoutineId {
    type V = Seq<char>;

    open spec fn view(&self) -> Seq<char> {
        self.0@
    }
}

impl RoutineId {
    pub fn new(s: String) -> (r: Self)
        ensures
            r@ == s@,
    {
        RoutineId(s)
    }
}

impl Clone for RoutineId {
    fn clone(&self) -> (r: Self)
        ensures
            r@ == self@,
    {
        RoutineId(self.0.clone())
    }
}

impl KeyView for RoutineId {
    fn key_eq(&self, other: &Self) -> (r: bool)
        ensures
            r == (self@ == other@),
    {
        self.0 == other.0
    }
}

/// Matches when the referenced device is a sensor whose payload equals
/// the expected value.
#[derive(Debug)]
pub struct SensorRule {
    pub device_ref: DeviceKey,
    pub state: SensorDevice,
}

/// Matches when every present field equals the referenced device's
/// current scene or power; an absent field is "don't care".
#[derive(Debug)]
pub struct DeviceRule {
    pub device_ref: DeviceKey,
    pub scene: Option<SceneId>,
    pub power: Option<bool>,
}

/// Like a device rule, but every device the group resolves to must match.
#[derive(Debug)]
pub struct GroupRule {
    pub group_id: GroupId,
    pub scene: Option<SceneId>,
    pub power: Option<bool>,
}

/// Matches when at least one sub-rule matches.
#[derive(Debug)]
pub struct AnyRule {
    pub any: Vec<Rule>,
}

/// The recursive rule union a routine's condition is built from.
#[derive(Debug)]
pub enum Rule {
    Sensor(SensorRule),
    Device(DeviceRule),
    Group(GroupRule),
    Any(AnyRule),
    /// Delegates to the external expression evaluator.
    EvalExpr(String),
}

/// A named bundle of rules and the actions fired when all rules become
/// true. A routine with no rules never triggers.
#[derive(Debug)]
pub struct Routine {
    pub id: RoutineId,
    pub name: String,
    pub rules: Vec<Rule>,
    pub actions: Vec<Action>,
}

/// The configured routines, in declaration order, with distinct ids.
#[derive(Debug)]
pub struct RoutinesConfig {
    pub routines: Vec<Routine>,
}

impl RoutinesConfig {
    /// Routine ids are pairwise distinct.
    pub open spec fn wf(self) -> bool {
        forall|i: int, j: int|
            0 <= i < j < self.routines@.len() ==> self.routines@[i].id@ != self.routines@[j].id@
    }
}

/// The external expression evaluator's verdicts for one state snapshot:
/// expression text to boolean value. An expression the evaluator could
/// not decide is absent.
pub type EvalContext = KvMap<String, bool>;

/// The scene field of a rule, as a sequence of characters.
pub open spec fn spec_scene_opt(s: Option<SceneId>) -> Option<Seq<char>> {
    match s {
        Some(sc) => Some(sc@),
        None => None,
    }
}

} // verus!
