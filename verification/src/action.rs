//! The actions a routine can fire, and the descriptors they carry. This
//! is part of the wire contract of the internal protocol.

use crate::device::{Device, DeviceKey, DeviceKeyView, DeviceView, IntegrationId};
use crate::dim::{DimDescriptor, DimDescriptorView};
use crate::group::{clone_device_keys, clone_group_ids, GroupId};
use crate::rule::RoutineId;
use crate::scene::SceneId;
use vstd::prelude::*;

verus! {

/// Names a scene and optionally restricts which devices or groups it is
/// applied to.
#[derive(Debug)]
pub struct SceneDescriptor {
    pub scene_id: SceneId,
    /// Optionally only apply the scene to these devices.
    pub device_keys: Option<Vec<DeviceKey>>,
    /// Optionally only apply the scene to these groups.
    pub group_keys: Option<Vec<GroupId>>,
}

pub ghost struct SceneDescriptorView {
    pub scene_id: Seq<char>,
    pub device_keys: Option<Seq<DeviceKeyView>>,
    pub group_keys: Option<Seq<Seq<char>>>,
}

impl View for SceneDescriptor {
    type V = SceneDescriptorView;

    open spec fn view(&self) -> SceneDescriptorView {
        SceneDescriptorView {
            scene_id: self.scene_id@,
            device_keys: match self.device_keys {
                Some(ks) => Some(ks@.map_values(|k: DeviceKey| k@)),
                None => None,
            },
            group_keys: match self.group_keys {
                Some(gs) => Some(gs@.map_values(|g: GroupId| g@)),
                None => None,
            },
        }
    }
}

impl Clone for SceneDescriptor {
    fn clone(&self) -> (r: Self)
        ensures
            r@ == self@,
    {
        SceneDescriptor {
            scene_id: self.scene_id.clone(),
            device_keys: match &self.device_keys {
                Some(ks) => Some(clone_device_keys(ks)),
                None => None,
            },
            group_keys: match &self.group_keys {
                Some(gs) => Some(clone_group_ids(gs)),
                None => None,
            },
        }
    }
}

/// Names a list of scenes to cycle through.
#[derive(Debug)]
pub struct CycleScenesDescriptor {
    pub scenes: Vec<SceneDescriptor>,
    /// When set, do not wrap around after the last listed scene.
    pub nowrap: Option<bool>,
}

pub ghost struct CycleScenesDescriptorView {
    pub scenes: Seq<SceneDescriptorView>,
    pub nowrap: Option<bool>,
}

impl View for CycleScenesDescriptor {
    type V = CycleScenesDescriptorView;

    open spec fn view(&self) -> CycleScenesDescriptorView {
        CycleScenesDescriptorView {
            scenes: self.scenes@.map_values(|s: SceneDescriptor| s@),
            nowrap: self.nowrap,
        }
    }
}

impl Clone for CycleScenesDescriptor {
    fn clone(&self) -> (r: Self)
        ensures
            r@ == self@,
    {
        let mut scenes: Vec<SceneDescriptor> = Vec::new();
        let n = self.scenes.len();
        let mut i: usize = 0;
        while i < n
            invariant
                n == self.scenes@.len(),
                0 <= i <= n,
                scenes@.len() == i,
                forall|j: int| 0 <= j < i ==> scenes@[j]@ == self.scenes@[j]@,
            decreases n - i,
        {
            scenes.push(self.scenes[i].clone());
            i += 1;
        }
        proof {
            assert(scenes@.map_values(|s: SceneDescriptor| s@) =~= self.scenes@.map_values(
                |s: SceneDescriptor| s@,
            ));
        }
        CycleScenesDescriptor { scenes, nowrap: self.nowrap }
    }
}

/// An adapter-specific command for one integration, outside the
/// device-state model.
#[derive(Debug)]
pub struct CustomActionDescriptor {
    pub integration_id: IntegrationId,
    pub payload: String,
}

pub ghost struct CustomActionDescriptorView {
    pub integration_id: Seq<char>,
    pub payload: Seq<char>,
}

impl View for CustomActionDescriptor {
    type V = CustomActionDescriptorView;

    open spec fn view(&self) -> CustomActionDescriptorView {
        CustomActionDescriptorView { integration_id: self.integration_id@, payload: self.payload@ }
    }
}

impl Clone for CustomActionDescriptor {
    fn clone(&self) -> (r: Self)
        ensures
            r@ == self@,
    {
        CustomActionDescriptor {
            integration_id: self.integration_id.clone(),
            payload: self.payload.clone(),
        }
    }
}

/// Names a routine whose actions are to run regardless of its rules.
#[derive(Debug)]
pub struct ForceTriggerRoutineDescriptor {
    pub routine_id: RoutineId,
}

impl View for ForceTriggerRoutineDescriptor {
    type V = Seq<char>;

    open spec fn view(&self) -> Seq<char> {
        self.routine_id@
    }
}

impl Clone for ForceTriggerRoutineDescriptor {
    fn clone(&self) -> (r: Self)
        ensures
            r@ == self@,
    {
        ForceTriggerRoutineDescriptor { routine_id: self.routine_id.clone() }
    }
}

/// An action fired by a triggered routine or issued by an operator.
#[derive(Debug)]
pub enum Action {
    /// Request to activate the given scene.
    ActivateScene(SceneDescriptor),
    /// Request to cycle between the given scenes.
    CycleScenes(CycleScenesDescriptor),
    /// Dims the given groups and devices.
    Dim(DimDescriptor),
    /// Runs an integration-specific action.
    Custom(CustomActionDescriptor),
    /// Runs the actions of the named routine unconditionally.
    ForceTriggerRoutine(ForceTriggerRoutineDescriptor),
    /// Writes the given device record as the new expected state.
    SetDeviceState(Device),
    /// Hands an expression to the external evaluator.
    EvalExpr(String),
}

pub ghost enum ActionView {
    ActivateScene(SceneDescriptorView),
    CycleScenes(CycleScenesDescriptorView),
    Dim(DimDescriptorView),
    Custom(CustomActionDescriptorView),
    ForceTriggerRoutine(Seq<char>),
    SetDeviceState(DeviceView),
    EvalExpr(Seq<char>),
}

impl View for Action {
    type V = ActionView;

    open spec fn view(&self) -> ActionView {
        match self {
            Action::ActivateScene(d) => ActionView::ActivateScene(d@),
            Action::CycleScenes(d) => ActionView::CycleScenes(d@),
            Action::Dim(d) => ActionView::Dim(d@),
            Action::Custom(d) => ActionView::Custom(d@),
            Action::ForceTriggerRoutine(d) => ActionView::ForceTriggerRoutine(d@),
            Action::SetDeviceState(d) => ActionView::SetDeviceState(d@),
            Action::EvalExpr(e) => ActionView::EvalExpr(e@),
        }
    }
}

impl Clone for Action {
    fn clone(&self) -> (r: Self)
        ensures
            r@ == self@,
    {
        match self {
            Action::ActivateScene(d) => Action::ActivateScene(d.clone()),
            Action::CycleScenes(d) => Action::CycleScenes(d.clone()),
            Action::Dim(d) => Action::Dim(d.clone()),
            Action::Custom(d) => Action::Custom(d.clone()),
            Action::ForceTriggerRoutine(d) => Action::ForceTriggerRoutine(d.clone()),
            Action::SetDeviceState(d) => Action::SetDeviceState(d.clone()),
            Action::EvalExpr(e) => Action::EvalExpr(e.clone()),
        }
    }
}

pub type Actions = Vec<Action>;

} // verus!
