//! The internal protocol and its dispatcher. One ordered channel carries
//! a closed message union; the dispatcher owns the receiving end and
//! fully processes one message — including every synchronous state
//! mutation — before the next, so cascading sends observe post-mutation
//! state. Handlers never block: everything asynchronous (persistence,
//! pushes to hardware, the expression evaluator, broadcasting) is
//! returned as an effect for the surrounding runtime to perform.

use crate::action::{Action, ActionView};
use crate::device::{Device, DeviceKey, DeviceKeyView, DevicesState, DeviceView, find_device};
use crate::devices_manager::{DevicesManager, InternalStateUpdate, spec_recv_emits,
    spec_stored_device};
use crate::dim::{dim_device, spec_dim_device_view, DimDescriptor, DimDescriptorView,
    DEFAULT_DIM_STEP};
use crate::group::Groups;
use crate::rules::spec_group_keys;
use crate::kvmap::KvMap;
use crate::rule::EvalContext;
use crate::rules::{spec_find_routine, spec_matching_actions, Rules};
use crate::scene::{spec_activation_post, spec_cycle_target, SceneConfig, SceneConfigView,
    SceneId, Scenes};
use vstd::prelude::*;

verus! {

/// The closed message union of the internal protocol. Delivery order
/// equals send order; exactly one dispatcher consumes them.
pub enum Message {
    /// An integration observed or produced a device record.
    DeviceRefresh { device: Device },
    /// The store detected a transition; snapshots are immutable values.
    InternalStateUpdate {
        old_state: DevicesState,
        new_state: DevicesState,
        old: Option<Device>,
        new: Device,
    },
    /// Write a record into the store as the new expected state.
    SetExpectedState { device: Device, set_scene: bool, skip_send: bool },
    /// Ask the owning integration to push a record to hardware.
    SendDeviceState { device: Device },
    /// Mirror current state to external observers.
    BroadcastState,
    /// Persist a scene, best-effort.
    DbStoreScene { scene_id: SceneId, config: SceneConfig },
    /// Delete a persisted scene, best-effort.
    DbDeleteScene { scene_id: SceneId },
    /// Rename a persisted scene, best-effort.
    DbEditScene { scene_id: SceneId, name: String },
    /// An action fired by a routine or issued by an operator.
    Action(Action),
}

pub ghost enum MessageView {
    DeviceRefresh { device: DeviceView },
    InternalStateUpdate {
        old_state: Map<DeviceKeyView, DeviceView>,
        new_state: Map<DeviceKeyView, DeviceView>,
        old: Option<DeviceView>,
        new: DeviceView,
    },
    SetExpectedState { device: DeviceView, set_scene: bool, skip_send: bool },
    SendDeviceState { device: DeviceView },
    BroadcastState,
    DbStoreScene { scene_id: Seq<char>, config: SceneConfigView },
    DbDeleteScene { scene_id: Seq<char> },
    DbEditScene { scene_id: Seq<char>, name: Seq<char> },
    Action(ActionView),
}

impl View for Message {
    type V = MessageView;

    open spec fn view(&self) -> MessageView {
        match self {
            Message::DeviceRefresh { device } => MessageView::DeviceRefresh { device: device@ },
            Message::InternalStateUpdate { old_state, new_state, old, new } =>
                MessageView::InternalStateUpdate {
                old_state: old_state@,
                new_state: new_state@,
                old: (match old {
                    Some(d) => Some(d@),
                    None => None,
                }),
                new: new@,
            },
            Message::SetExpectedState { device, set_scene, skip_send } =>
                MessageView::SetExpectedState {
                device: device@,
                set_scene: *set_scene,
                skip_send: *skip_send,
            },
            Message::SendDeviceState { device } => MessageView::SendDeviceState {
                device: device@,
            },
            Message::BroadcastState => MessageView::BroadcastState,
            Message::DbStoreScene { scene_id, config } => MessageView::DbStoreScene {
                scene_id: scene_id@,
                config: config@,
            },
            Message::DbDeleteScene { scene_id } => MessageView::DbDeleteScene {
                scene_id: scene_id@,
            },
            Message::DbEditScene { scene_id, name } => MessageView::DbEditScene {
                scene_id: scene_id@,
                name: name@,
            },
            Message::Action(a) => MessageView::Action(a@),
        }
    }
}

/// The outward side effects a handler asks the runtime to perform. All
/// are best-effort at the core's level: their failures are logged by the
/// runtime and never roll back the in-memory model.
pub enum Effect {
    /// Hand a record to the owning integration adapter.
    PushDeviceState { device: Device },
    /// Run an adapter-specific action.
    RunIntegrationAction { integration_id: crate::device::IntegrationId, payload: String },
    /// Persist a scene.
    StoreScene { scene_id: SceneId, config: SceneConfig },
    /// Delete a persisted scene.
    DeleteScene { scene_id: SceneId },
    /// Rename a persisted scene.
    EditScene { scene_id: SceneId, name: String },
    /// The derived index entries a state change touched: the groups and
    /// scenes whose membership includes the changed device. The runtime
    /// hands these to whatever caches aggregate views and mirrors them
    /// to observers; entries not listed were untouched by the change.
    IndexesInvalidated { groups: Vec<crate::group::GroupId>, scenes: Vec<SceneId> },
    /// Re-read the scenes index from persistence.
    RefreshScenes,
    /// Mirror current state to external observers.
    Broadcast,
    /// Hand an action expression to the external evaluator.
    EvalActionExpr { expr: String },
}

pub ghost enum EffectView {
    PushDeviceState { device: DeviceView },
    RunIntegrationAction { integration_id: Seq<char>, payload: Seq<char> },
    StoreScene { scene_id: Seq<char>, config: SceneConfigView },
    DeleteScene { scene_id: Seq<char> },
    EditScene { scene_id: Seq<char>, name: Seq<char> },
    IndexesInvalidated { groups: Seq<Seq<char>>, scenes: Seq<Seq<char>> },
    RefreshScenes,
    Broadcast,
    EvalActionExpr { expr: Seq<char> },
}

impl View for Effect {
    type V = EffectView;

    open spec fn view(&self) -> EffectView {
        match self {
            Effect::PushDeviceState { device } => EffectView::PushDeviceState { device: device@ },
            Effect::RunIntegrationAction { integration_id, payload } =>
                EffectView::RunIntegrationAction {
                integration_id: integration_id@,
                payload: payload@,
            },
            Effect::StoreScene { scene_id, config } => EffectView::StoreScene {
                scene_id: scene_id@,
                config: config@,
            },
            Effect::DeleteScene { scene_id } => EffectView::DeleteScene { scene_id: scene_id@ },
            Effect::EditScene { scene_id, name } => EffectView::EditScene {
                scene_id: scene_id@,
                name: name@,
            },
            Effect::IndexesInvalidated { groups, scenes } => EffectView::IndexesInvalidated {
                groups: groups@.map_values(|g: crate::group::GroupId| g@),
                scenes: scenes@.map_values(|s: SceneId| s@),
            },
            Effect::RefreshScenes => EffectView::RefreshScenes,
            Effect::Broadcast => EffectView::Broadcast,
            Effect::EvalActionExpr { expr } => EffectView::EvalActionExpr { expr: expr@ },
        }
    }
}

/// The member keys of the named groups, concatenated in order.
pub open spec fn spec_groups_resolved(
    groups: Map<Seq<char>, Seq<DeviceKeyView>>,
    gids: Seq<Seq<char>>,
) -> Seq<DeviceKeyView>
    decreases gids.len(),
{
    if gids.len() == 0 {
        Seq::empty()
    } else {
        spec_groups_resolved(groups, gids.drop_last()) + spec_group_keys(groups, gids.last())
    }
}

/// The devices a dim request targets: the members of its groups, then
/// its explicit device keys.
pub open spec fn spec_dim_targets(
    groups: Map<Seq<char>, Seq<DeviceKeyView>>,
    d: DimDescriptorView,
) -> Seq<DeviceKeyView> {
    spec_groups_resolved(
        groups,
        (match d.group_keys {
            Some(g) => g,
            None => Seq::empty(),
        }),
    ) + (match d.device_keys {
        Some(ks) => ks,
        None => Seq::empty(),
    })
}

/// Resolves a dim request to the concrete device keys it targets.
#[verifier::loop_isolation(false)]
pub fn resolve_dim_targets(groups: &Groups, descriptor: &DimDescriptor) -> (r: Vec<DeviceKey>)
    requires
        groups.wf(),
    ensures
        r@.map_values(|k: DeviceKey| k@) == spec_dim_targets(groups@, descriptor@),
{
    let mut r: Vec<DeviceKey> = Vec::new();
    let ghost gids: Seq<Seq<char>> = match descriptor@.group_keys {
        Some(g) => g,
        None => Seq::empty(),
    };
    match &descriptor.group_keys {
        Some(gs) => {
            let n = gs.len();
            let mut i: usize = 0;
            while i < n
                invariant
                    0 <= i <= n,
                    n == gs@.len(),
                    r@.map_values(|k: DeviceKey| k@) == spec_groups_resolved(
                        groups@,
                        gids.take(i as int),
                    ),
                decreases n - i,
            {
                let ghost pre = gids.take(i as int);
                let ghost post = gids.take(i + 1 as int);
                proof {
                    assert(post.drop_last() =~= pre);
                    assert(post.last() == gids[i as int]);
                    assert(gids[i as int] == gs@[i as int]@);
                }
                let members = groups.find_group_device_refs(&gs[i]);
                let m = members.len();
                let ghost r_base = r@;
                let mut j: usize = 0;
                while j < m
                    invariant
                        0 <= j <= m,
                        m == members@.len(),
                        r@.len() == r_base.len() + j,
                        forall|x: int| 0 <= x < r_base.len() ==> r@[x] == r_base[x],
                        forall|x: int|
                            0 <= x < j ==> r@[r_base.len() + x]@ == members@[x]@,
                    decreases m - j,
                {
                    r.push(members[j].clone());
                    j += 1;
                }
                proof {
                    assert(r@.map_values(|k: DeviceKey| k@) =~= r_base.map_values(
                        |k: DeviceKey| k@,
                    ) + members@.map_values(|k: DeviceKey| k@));
                    assert(r@.map_values(|k: DeviceKey| k@) =~= spec_groups_resolved(
                        groups@,
                        post,
                    ));
                }
                i += 1;
            }
            proof {
                assert(gids.take(n as int) =~= gids);
            }
        },
        None => {
            proof {
                assert(r@.map_values(|k: DeviceKey| k@) =~= spec_groups_resolved(groups@, gids));
            }
        },
    }
    let ghost r_groups = r@;
    match &descriptor.device_keys {
        Some(ks) => {
            let n = ks.len();
            let mut i: usize = 0;
            while i < n
                invariant
                    0 <= i <= n,
                    n == ks@.len(),
                    r@.len() == r_groups.len() + i,
                    forall|x: int| 0 <= x < r_groups.len() ==> r@[x] == r_groups[x],
                    forall|x: int| 0 <= x < i ==> r@[r_groups.len() + x]@ == ks@[x]@,
                decreases n - i,
            {
                r.push(ks[i].clone());
                i += 1;
            }
            proof {
                assert(r@.map_values(|k: DeviceKey| k@) =~= r_groups.map_values(|k: DeviceKey| k@)
                    + ks@.map_values(|k: DeviceKey| k@));
            }
        },
        None => {
            proof {
                assert(r@.map_values(|k: DeviceKey| k@) =~= r_groups.map_values(|k: DeviceKey| k@)
                    + Seq::<DeviceKeyView>::empty());
            }
        },
    }
    r
}

/// The dimmed records a dim pass produces: for each targeted key the
/// snapshot holds, the stored record with its brightness stepped; a
/// missing device is skipped, never an abort.
pub open spec fn spec_dim_results(
    state: Map<DeviceKeyView, DeviceView>,
    targets: Seq<DeviceKeyView>,
    step: i16,
) -> Seq<DeviceView>
    decreases targets.len(),
{
    if targets.len() == 0 {
        Seq::empty()
    } else {
        spec_dim_results(state, targets.drop_last(), step) + if state.contains_key(
            targets.last(),
        ) {
            seq![spec_dim_device_view(state[targets.last()], step)]
        } else {
            Seq::<DeviceView>::empty()
        }
    }
}

/// Applies a dim step to every targeted device present in the snapshot.
#[verifier::loop_isolation(false)]
pub fn dim_devices(state: &DevicesState, targets: &Vec<DeviceKey>, step: i16) -> (r: Vec<Device>)
    requires
        state.wf(),
    ensures
        r@.map_values(|d: Device| d@) == spec_dim_results(
            state@,
            targets@.map_values(|k: DeviceKey| k@),
            step,
        ),
{
    let ghost tkeys = targets@.map_values(|k: DeviceKey| k@);
    let mut r: Vec<Device> = Vec::new();
    let n = targets.len();
    let mut i: usize = 0;
    while i < n
        invariant
            0 <= i <= n,
            n == targets@.len(),
            r@.map_values(|d: Device| d@) == spec_dim_results(state@, tkeys.take(i as int), step),
        decreases n - i,
    {
        let ghost pre = tkeys.take(i as int);
        let ghost post = tkeys.take(i + 1 as int);
        proof {
            assert(post.drop_last() =~= pre);
            assert(post.last() == tkeys[i as int]);
            assert(tkeys[i as int] == targets@[i as int]@);
        }
        match find_device(state, &targets[i]) {
            Some(d) => {
                let ghost r_old = r@;
                r.push(dim_device(d, step));
                proof {
                    assert(r@.map_values(|x: Device| x@) =~= r_old.map_values(|x: Device| x@)
                        + seq![spec_dim_device_view(state@[post.last()], step)]);
                    assert(r@.map_values(|x: Device| x@) =~= spec_dim_results(
                        state@,
                        post,
                        step,
                    ));
                }
            },
            None => {
                proof {
                    assert(r@.map_values(|x: Device| x@) =~= spec_dim_results(
                        state@,
                        post,
                        step,
                    ));
                }
            },
        }
        i += 1;
    }
    proof {
        assert(tkeys.take(n as int) =~= tkeys);
    }
    r
}

/// Failure of a dispatch: a configuration error reported to whoever
/// issued the message, never a panic.
#[derive(Debug)]
pub enum DispatchError {
    /// A force-trigger named a routine the configuration does not hold.
    RoutineNotFound,
}

/// The core state the dispatcher owns and is the sole writer of.
pub struct CoreState {
    pub devices: DevicesManager,
    pub rules: Rules,
    pub scenes: Scenes,
}

impl CoreState {
    pub open spec fn wf(self) -> bool {
        self.devices.wf() && self.rules.wf() && self.scenes.wf()
    }

    pub fn new(rules: Rules, scenes: Scenes) -> (r: Self)
        requires
            rules.wf(),
            scenes.wf(),
        ensures
            r.wf(),
            r.rules == rules,
            r.scenes == scenes,
            r.devices.state@ == Map::<DeviceKeyView, DeviceView>::empty(),
    {
        CoreState { devices: DevicesManager::new(), rules, scenes }
    }
}

/// What a message handler may assume of its inputs: snapshots carried by
/// a transition message are well-formed, and the evaluation contexts are
/// the evaluator's verdicts derived from those snapshots.
pub open spec fn spec_msg_requires(
    msg: Message,
    old_ctx: Map<Seq<char>, bool>,
    new_ctx: Map<Seq<char>, bool>,
) -> bool {
    match msg {
        Message::InternalStateUpdate { old_state, new_state, .. } => old_state.wf()
            && new_state.wf() && (old_state@ == new_state@ ==> old_ctx == new_ctx),
        _ => true,
    }
}

/// The dim step a request resolves to.
pub open spec fn spec_dim_step(step: Option<i16>) -> i16 {
    match step {
        Some(s) => s,
        None => DEFAULT_DIM_STEP,
    }
}

/// Exactly what one dispatch step does: how the core state changes and
/// which messages and effects come out, per message variant.
pub open spec fn spec_dispatch_post(
    pre: CoreState,
    post: CoreState,
    msg: Message,
    old_ctx: Map<Seq<char>, bool>,
    new_ctx: Map<Seq<char>, bool>,
    msgs: Seq<MessageView>,
    effects: Seq<EffectView>,
) -> bool {
    match msg {
        Message::DeviceRefresh { device } => {
            &&& post.rules == pre.rules
            &&& post.scenes == pre.scenes
            &&& post.devices.state@ == pre.devices.state@.insert(device@.key(), device@)
            &&& effects.len() == 0
            &&& (if spec_recv_emits(pre.devices.state@, device@) {
                msgs == seq![
                    MessageView::InternalStateUpdate {
                        old_state: pre.devices.state@,
                        new_state: post.devices.state@,
                        old: (if pre.devices.state@.contains_key(device@.key()) {
                            Some(pre.devices.state@[device@.key()])
                        } else {
                            None
                        }),
                        new: device@,
                    },
                ]
            } else {
                msgs.len() == 0
            })
        },
        Message::InternalStateUpdate { old_state, new_state, old, new } => {
            &&& post == pre
            &&& effects == seq![
                EffectView::IndexesInvalidated {
                    groups: crate::group::spec_groups_containing(
                        pre.rules.groups.groups.entries_seq(),
                        new@.key(),
                    ),
                    scenes: crate::scene::spec_scenes_containing(
                        pre.scenes.scenes.entries_seq(),
                        new@.key(),
                    ),
                },
            ]
            &&& {
                let fired = (match old {
                    Some(_) => spec_matching_actions(
                        pre.rules.config.routines@,
                        pre.rules.groups@,
                        old_state@,
                        new_state@,
                        old_ctx,
                        new_ctx,
                    ),
                    None => Seq::<ActionView>::empty(),
                });
                msgs == fired.map_values(|a: ActionView| MessageView::Action(a)).push(
                    MessageView::BroadcastState,
                )
            }
        },
        Message::SetExpectedState { device, set_scene, skip_send } => {
            &&& post.rules == pre.rules
            &&& post.scenes == pre.scenes
            &&& post.devices.state@ == pre.devices.state@.insert(
                device@.key(),
                spec_stored_device(pre.devices.state@, device@, set_scene),
            )
            &&& effects.len() == 0
            &&& {
                let stored = spec_stored_device(pre.devices.state@, device@, set_scene);
                if !skip_send && spec_recv_emits(pre.devices.state@, stored) {
                    msgs == seq![MessageView::SendDeviceState { device: stored }]
                } else {
                    msgs.len() == 0
                }
            }
        },
        Message::SendDeviceState { device } => {
            &&& post == pre
            &&& msgs.len() == 0
            &&& effects == seq![EffectView::PushDeviceState { device: device@ }]
        },
        Message::BroadcastState => {
            &&& post == pre
            &&& msgs.len() == 0
            &&& effects == seq![EffectView::Broadcast]
        },
        Message::DbStoreScene { scene_id, config } => {
            &&& post == pre
            &&& msgs.len() == 0
            &&& effects == seq![
                EffectView::StoreScene { scene_id: scene_id@, config: config@ },
                EffectView::RefreshScenes,
                EffectView::Broadcast,
            ]
        },
        Message::DbDeleteScene { scene_id } => {
            &&& post == pre
            &&& msgs.len() == 0
            &&& effects == seq![
                EffectView::DeleteScene { scene_id: scene_id@ },
                EffectView::RefreshScenes,
                EffectView::Broadcast,
            ]
        },
        Message::DbEditScene { scene_id, name } => {
            &&& post == pre
            &&& msgs.len() == 0
            &&& effects == seq![
                EffectView::EditScene { scene_id: scene_id@, name: name@ },
                EffectView::RefreshScenes,
                EffectView::Broadcast,
            ]
        },
        Message::Action(act) => match act {
            Action::ActivateScene(d) => {
                &&& post == pre
                &&& effects.len() == 0
                &&& exists|out: Seq<DeviceView>|
                    spec_activation_post(pre.scenes, pre.devices.state@, d@, out) && msgs
                        == spec_wrap_set_expected(out, true)
            },
            Action::CycleScenes(d) => {
                &&& post == pre
                &&& effects.len() == 0
                &&& (match spec_cycle_target(d@.scenes, pre.devices.state@, d.nowrap) {
                    Some(j) => exists|out: Seq<DeviceView>|
                        spec_activation_post(pre.scenes, pre.devices.state@, d@.scenes[j], out)
                            && msgs == spec_wrap_set_expected(out, true),
                    None => msgs.len() == 0,
                })
            },
            Action::Dim(d) => {
                &&& post == pre
                &&& effects.len() == 0
                &&& msgs == spec_wrap_set_expected(
                    spec_dim_results(
                        pre.devices.state@,
                        spec_dim_targets(pre.rules.groups@, d@),
                        spec_dim_step(d@.step),
                    ),
                    false,
                )
            },
            Action::Custom(cd) => {
                &&& post == pre
                &&& msgs.len() == 0
                &&& effects == seq![
                    EffectView::RunIntegrationAction {
                        integration_id: cd.integration_id@,
                        payload: cd.payload@,
                    },
                ]
            },
            Action::ForceTriggerRoutine(d) => {
                &&& post == pre
                &&& effects.len() == 0
                &&& spec_find_routine(pre.rules.config.routines@, d.routine_id@) is Some
                &&& msgs == spec_find_routine(
                    pre.rules.config.routines@,
                    d.routine_id@,
                )->Some_0.actions@.map_values(|a: Action| MessageView::Action(a@))
            },
            Action::SetDeviceState(device) => {
                &&& post.rules == pre.rules
                &&& post.scenes == pre.scenes
                &&& post.devices.state@ == pre.devices.state@.insert(
                    device@.key(),
                    spec_stored_device(pre.devices.state@, device@, false),
                )
                &&& effects.len() == 0
                &&& {
                    let stored = spec_stored_device(pre.devices.state@, device@, false);
                    if spec_recv_emits(pre.devices.state@, stored) {
                        msgs == seq![MessageView::SendDeviceState { device: stored }]
                    } else {
                        msgs.len() == 0
                    }
                }
            },
            Action::EvalExpr(e) => {
                &&& post == pre
                &&& msgs.len() == 0
                &&& effects == seq![EffectView::EvalActionExpr { expr: e@ }]
            },
        },
    }
}

/// Each produced record wrapped as a set-expected-state message.
pub open spec fn spec_wrap_set_expected(out: Seq<DeviceView>, set_scene: bool) -> Seq<
    MessageView,
> {
    out.map_values(
        |d: DeviceView| MessageView::SetExpectedState { device: d, set_scene, skip_send: false },
    )
}

/// Wraps records as set-expected-state messages.
fn wrap_set_expected(devices: Vec<Device>, set_scene: bool) -> (r: Vec<Message>)
    ensures
        r@.map_values(|m: Message| m@) == spec_wrap_set_expected(
            devices@.map_values(|d: Device| d@),
            set_scene,
        ),
{
    let mut r: Vec<Message> = Vec::new();
    let n = devices.len();
    let mut i: usize = 0;
    while i < n
        invariant
            0 <= i <= n,
            n == devices@.len(),
            r@.len() == i,
            forall|j: int|
                0 <= j < i ==> r@[j]@ == (MessageView::SetExpectedState {
                    device: devices@[j]@,
                    set_scene,
                    skip_send: false,
                }),
        decreases n - i,
    {
        r.push(Message::SetExpectedState { device: devices[i].clone(), set_scene, skip_send: false });
        i += 1;
    }
    proof {
        assert(r@.map_values(|m: Message| m@) =~= spec_wrap_set_expected(
            devices@.map_values(|d: Device| d@),
            set_scene,
        ));
    }
    r
}

/// Wraps actions as action messages.
fn wrap_actions(actions: Vec<Action>) -> (r: Vec<Message>)
    ensures
        r@.map_values(|m: Message| m@) == actions@.map_values(
            |a: Action| MessageView::Action(a@),
        ),
{
    let mut r: Vec<Message> = Vec::new();
    let n = actions.len();
    let mut i: usize = 0;
    while i < n
        invariant
            0 <= i <= n,
            n == actions@.len(),
            r@.len() == i,
            forall|j: int| 0 <= j < i ==> r@[j]@ == MessageView::Action(actions@[j]@),
        decreases n - i,
    {
        r.push(Message::Action(actions[i].clone()));
        i += 1;
    }
    proof {
        assert(r@.map_values(|m: Message| m@) =~= actions@.map_values(
            |a: Action| MessageView::Action(a@),
        ));
    }
    r
}

/// Routes one message to the owning component and mutates the core
/// synchronously; cascading messages and outward effects are returned
/// for the runtime to enqueue and perform. A configuration error is
/// reported to the caller and leaves the state unchanged.
pub fn handle_message(
    state: &mut CoreState,
    msg: Message,
    old_ctx: &EvalContext,
    new_ctx: &EvalContext,
) -> (r: Result<(Vec<Message>, Vec<Effect>), DispatchError>)
    requires
        old(state).wf(),
        old_ctx.wf(),
        new_ctx.wf(),
        spec_msg_requires(msg, old_ctx@, new_ctx@),
    ensures
        final(state).wf(),
        (match r {
            Ok(out) => spec_dispatch_post(
                *old(state),
                *final(state),
                msg,
                old_ctx@,
                new_ctx@,
                out.0@.map_values(|m: Message| m@),
                out.1@.map_values(|e: Effect| e@),
            ),
            Err(_) => {
                &&& *final(state) == *old(state)
                &&& (match msg {
                    Message::Action(Action::ForceTriggerRoutine(d)) => spec_find_routine(
                        old(state).rules.config.routines@,
                        d.routine_id@,
                    ) is None,
                    _ => false,
                })
            },
        }),
{
    let mut msgs: Vec<Message> = Vec::new();
    let mut effects: Vec<Effect> = Vec::new();
    match msg {
        Message::DeviceRefresh { device } => {
            let ghost dv = device@;
            match state.devices.handle_recv_device_state(device) {
                Some(u) => {
                    let ghost uv = (u.old_state@, u.new_state@, (match u.old {
                        Some(ref p) => Some(p@),
                        None => None::<DeviceView>,
                    }), u.new@);
                    msgs.push(
                        Message::InternalStateUpdate {
                            old_state: u.old_state,
                            new_state: u.new_state,
                            old: u.old,
                            new: u.new,
                        },
                    );
                    proof {
                        assert(msgs@.map_values(|m: Message| m@) =~= seq![
                            MessageView::InternalStateUpdate {
                                old_state: uv.0,
                                new_state: uv.1,
                                old: uv.2,
                                new: uv.3,
                            },
                        ]);
                    }
                },
                None => {
                    proof {
                        assert(msgs@.map_values(|m: Message| m@) =~= Seq::<MessageView>::empty());
                    }
                },
            }
        },
        Message::InternalStateUpdate { old_state, new_state, old, new } => {
            let changed_key = new.get_device_key();
            let affected_groups = state.rules.groups.invalidate(&changed_key);
            let affected_scenes = state.scenes.invalidate(&changed_key);
            let ghost gv = affected_groups@.map_values(|g: crate::group::GroupId| g@);
            let ghost sv = affected_scenes@.map_values(|s: SceneId| s@);
            effects.push(Effect::IndexesInvalidated { groups: affected_groups, scenes: affected_scenes });
            proof {
                assert(effects@.map_values(|e: Effect| e@) =~= seq![
                    EffectView::IndexesInvalidated { groups: gv, scenes: sv },
                ]);
            }
            let actions = state.rules.handle_internal_state_update(
                &old_state,
                &new_state,
                &old,
                &new,
                old_ctx,
                new_ctx,
            );
            let ghost acts = actions@;
            msgs = wrap_actions(actions);
            let ghost wrapped = msgs@.map_values(|m: Message| m@);
            msgs.push(Message::BroadcastState);
            proof {
                assert(msgs@.map_values(|m: Message| m@) =~= wrapped.push(
                    MessageView::BroadcastState,
                ));
                let fired = (match old {
                    Some(_) => spec_matching_actions(
                        state.rules.config.routines@,
                        state.rules.groups@,
                        old_state@,
                        new_state@,
                        old_ctx@,
                        new_ctx@,
                    ),
                    None => Seq::<ActionView>::empty(),
                });
                assert(acts.map_values(|a: Action| a@) == fired);
                assert(wrapped =~= fired.map_values(|a: ActionView| MessageView::Action(a)));
            }
        },
        Message::SetExpectedState { device, set_scene, skip_send } => {
            match state.devices.set_device_state(&device, set_scene, false, skip_send) {
                Some(d) => {
                    let ghost dv = d@;
                    msgs.push(Message::SendDeviceState { device: d });
                    proof {
                        assert(msgs@.map_values(|m: Message| m@) =~= seq![
                            MessageView::SendDeviceState { device: dv },
                        ]);
                    }
                },
                None => {
                    proof {
                        assert(msgs@.map_values(|m: Message| m@) =~= Seq::<MessageView>::empty());
                    }
                },
            }
        },
        Message::SendDeviceState { device } => {
            let ghost dv = device@;
            effects.push(Effect::PushDeviceState { device });
            proof {
                assert(effects@.map_values(|e: Effect| e@) =~= seq![
                    EffectView::PushDeviceState { device: dv },
                ]);
            }
        },
        Message::BroadcastState => {
            effects.push(Effect::Broadcast);
            proof {
                assert(effects@.map_values(|e: Effect| e@) =~= seq![EffectView::Broadcast]);
            }
        },
        Message::DbStoreScene { scene_id, config } => {
            let ghost sv = scene_id@;
            let ghost cv = config@;
            effects.push(Effect::StoreScene { scene_id, config });
            effects.push(Effect::RefreshScenes);
            effects.push(Effect::Broadcast);
            proof {
                assert(effects@.map_values(|e: Effect| e@) =~= seq![
                    EffectView::StoreScene { scene_id: sv, config: cv },
                    EffectView::RefreshScenes,
                    EffectView::Broadcast,
                ]);
            }
        },
        Message::DbDeleteScene { scene_id } => {
            let ghost sv = scene_id@;
            effects.push(Effect::DeleteScene { scene_id });
            effects.push(Effect::RefreshScenes);
            effects.push(Effect::Broadcast);
            proof {
                assert(effects@.map_values(|e: Effect| e@) =~= seq![
                    EffectView::DeleteScene { scene_id: sv },
                    EffectView::RefreshScenes,
                    EffectView::Broadcast,
                ]);
            }
        },
        Message::DbEditScene { scene_id, name } => {
            let ghost sv = scene_id@;
            let ghost nv = name@;
            effects.push(Effect::EditScene { scene_id, name });
            effects.push(Effect::RefreshScenes);
            effects.push(Effect::Broadcast);
            proof {
                assert(effects@.map_values(|e: Effect| e@) =~= seq![
                    EffectView::EditScene { scene_id: sv, name: nv },
                    EffectView::RefreshScenes,
                    EffectView::Broadcast,
                ]);
            }
        },
        Message::Action(act) => match act {
            Action::ActivateScene(d) => {
                let out = state.scenes.activate_scene(&state.devices.state, &d);
                let ghost out_views = out@.map_values(|x: Device| x@);
                msgs = wrap_set_expected(out, true);
                proof {
                    assert(spec_activation_post(
                        state.scenes,
                        state.devices.state@,
                        d@,
                        out_views,
                    ));
                    assert(msgs@.map_values(|m: Message| m@) == spec_wrap_set_expected(
                        out_views,
                        true,
                    ));
                }
            },
            Action::CycleScenes(d) => {
                let out = state.scenes.cycle_scenes(&state.devices.state, &d);
                let ghost out_views = out@.map_values(|x: Device| x@);
                msgs = wrap_set_expected(out, true);
                proof {
                    match spec_cycle_target(d@.scenes, state.devices.state@, d.nowrap) {
                        Some(j) => {
                            assert(spec_activation_post(
                                state.scenes,
                                state.devices.state@,
                                d@.scenes[j],
                                out_views,
                            ));
                        },
                        None => {
                            assert(out_views.len() == 0);
                            assert(msgs@.map_values(|m: Message| m@) =~= Seq::<
                                MessageView,
                            >::empty());
                        },
                    }
                }
            },
            Action::Dim(d) => {
                let targets = resolve_dim_targets(&state.rules.groups, &d);
                let step: i16 = match d.step {
                    Some(s) => s,
                    None => DEFAULT_DIM_STEP,
                };
                let out = dim_devices(&state.devices.state, &targets, step);
                let ghost out_views = out@.map_values(|x: Device| x@);
                msgs = wrap_set_expected(out, false);
                proof {
                    assert(out_views == spec_dim_results(
                        state.devices.state@,
                        spec_dim_targets(state.rules.groups@, d@),
                        spec_dim_step(d@.step),
                    ));
                }
            },
            Action::Custom(cd) => {
                let ghost iv = cd.integration_id@;
                let ghost pv = cd.payload@;
                effects.push(
                    Effect::RunIntegrationAction {
                        integration_id: cd.integration_id,
                        payload: cd.payload,
                    },
                );
                proof {
                    assert(effects@.map_values(|e: Effect| e@) =~= seq![
                        EffectView::RunIntegrationAction { integration_id: iv, payload: pv },
                    ]);
                }
            },
            Action::ForceTriggerRoutine(d) => {
                match state.rules.force_trigger_routine(&d.routine_id) {
                    Ok(actions) => {
                        let ghost acts = actions@;
                        msgs = wrap_actions(actions);
                        proof {
                            let found = spec_find_routine(
                                state.rules.config.routines@,
                                d.routine_id@,
                            )->Some_0;
                            assert(acts.map_values(|a: Action| a@) == found.actions@.map_values(
                                |a: Action| a@,
                            ));
                            assert(acts.len() == found.actions@.len());
                            assert forall|i: int| 0 <= i < acts.len() implies acts[i]@
                                == found.actions@[i]@ by {
                                assert(acts.map_values(|a: Action| a@)[i] == acts[i]@);
                                assert(found.actions@.map_values(|a: Action| a@)[i]
                                    == found.actions@[i]@);
                            }
                            assert(msgs@.map_values(|m: Message| m@)
                                =~= found.actions@.map_values(
                                |a: Action| MessageView::Action(a@),
                            ));
                        }
                    },
                    Err(_) => {
                        return Err(DispatchError::RoutineNotFound);
                    },
                }
            },
            Action::SetDeviceState(device) => {
                match state.devices.set_device_state(&device, false, false, false) {
                    Some(d) => {
                        let ghost dv = d@;
                        msgs.push(Message::SendDeviceState { device: d });
                        proof {
                            assert(msgs@.map_values(|m: Message| m@) =~= seq![
                                MessageView::SendDeviceState { device: dv },
                            ]);
                        }
                    },
                    None => {
                        proof {
                            assert(msgs@.map_values(|m: Message| m@) =~= Seq::<
                                MessageView,
                            >::empty());
                        }
                    },
                }
            },
            Action::EvalExpr(e) => {
                let ghost ev = e@;
                effects.push(Effect::EvalActionExpr { expr: e });
                proof {
                    assert(effects@.map_values(|e2: Effect| e2@) =~= seq![
                        EffectView::EvalActionExpr { expr: ev },
                    ]);
                }
            },
        },
    }
    Ok((msgs, effects))
}

} // verus!
