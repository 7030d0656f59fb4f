//! Scenes: named desired-state mappings over concrete device keys. The
//! core consumes scenes already flattened — links and merges are resolved
//! upstream — and derives from them the device records to set when a
//! scene is activated or cycled to.

use crate::action::{CycleScenesDescriptor, SceneDescriptor, SceneDescriptorView};
use crate::device::{CorrelatedColorTemperature, Device, DeviceColor, DeviceKey, DeviceKeyView,
    DevicesState, DeviceState, DeviceView, find_device, keys_contain, Light};
use crate::kvmap::{KeyView, KvMap};
use vstd::prelude::*;

verus! {

/// Identity of a scene.
#[derive(Debug)]
pub struct SceneId(pub String);

impl View for SceneId {
    type V = Seq<char>;

    open spec fn view(&self) -> Seq<char> {
        self.0@
    }
}

impl SceneId {
    pub fn new(s: String) -> (r: Self)
        ensures
            r@ == s@,
    {
        SceneId(s)
    }
}

impl Clone for SceneId {
    fn clone(&self) -> (r: Self)
        ensures
            r@ == self@,
    {
        SceneId(self.0.clone())
    }
}

impl KeyView for SceneId {
    fn key_eq(&self, other: &Self) -> (r: bool)
        ensures
            r == (self@ == other@),
    {
        self.0 == other.0
    }
}

/// The desired partial state a scene holds for one device; an absent
/// field leaves the device's current value untouched.
#[derive(Clone, Copy, Debug)]
pub struct SceneDeviceState {
    pub power: Option<bool>,
    pub brightness: Option<u16>,
    pub color: Option<DeviceColor>,
    pub cct: Option<CorrelatedColorTemperature>,
    pub transition_ms: Option<u64>,
}

impl View for SceneDeviceState {
    type V = SceneDeviceState;

    open spec fn view(&self) -> SceneDeviceState {
        *self
    }
}

/// A flattened scene: its display name and the desired partial state per
/// concrete device key.
pub struct SceneConfig {
    pub name: String,
    pub devices: KvMap<DeviceKey, SceneDeviceState>,
}

pub ghost struct SceneConfigView {
    pub name: Seq<char>,
    pub devices: Map<DeviceKeyView, SceneDeviceState>,
}

impl View for SceneConfig {
    type V = SceneConfigView;

    open spec fn view(&self) -> SceneConfigView {
        SceneConfigView { name: self.name@, devices: self.devices@ }
    }
}

/// A device record under an activated scene: the present desired fields
/// override the light's current ones and the active-scene field is
/// stamped; a sensor is left untouched.
pub open spec fn spec_apply_scene(
    dev: DeviceView,
    desired: SceneDeviceState,
    scene_id: Seq<char>,
) -> DeviceView {
    match dev.state {
        crate::device::DeviceStateView::Light(l) => DeviceView {
            scene: Some(scene_id),
            state: crate::device::DeviceStateView::Light(
                Light {
                    power: (match desired.power {
                        Some(p) => p,
                        None => l.power,
                    }),
                    brightness: (match desired.brightness {
                        Some(b) => Some(b),
                        None => l.brightness,
                    }),
                    color: (match desired.color {
                        Some(c) => Some(c),
                        None => l.color,
                    }),
                    cct: (match desired.cct {
                        Some(c) => Some(c),
                        None => l.cct,
                    }),
                    transition_ms: (match desired.transition_ms {
                        Some(t) => Some(t),
                        None => l.transition_ms,
                    }),
                },
            ),
            ..dev
        },
        crate::device::DeviceStateView::Sensor(_) => dev,
    }
}

/// Applies a scene's desired partial state to one device record.
pub fn apply_scene_state(device: &Device, desired: &SceneDeviceState, scene_id: &SceneId) -> (r:
    Device)
    ensures
        r@ == spec_apply_scene(device@, *desired, scene_id@),
{
    match &device.state {
        DeviceState::Light(l) => {
            let light = Light {
                power: (match desired.power {
                    Some(p) => p,
                    None => l.power,
                }),
                brightness: (match desired.brightness {
                    Some(b) => Some(b),
                    None => l.brightness,
                }),
                color: (match desired.color {
                    Some(c) => Some(c),
                    None => l.color,
                }),
                cct: (match desired.cct {
                    Some(c) => Some(c),
                    None => l.cct,
                }),
                transition_ms: (match desired.transition_ms {
                    Some(t) => Some(t),
                    None => l.transition_ms,
                }),
            };
            Device {
                scene: Some(scene_id.clone()),
                state: DeviceState::Light(light),
                ..device.clone()
            }
        },
        DeviceState::Sensor(_) => device.clone(),
    }
}

/// Whether an optional device-key filter admits a key.
pub open spec fn spec_filter_allows(filter: Option<Seq<DeviceKeyView>>, k: DeviceKeyView) -> bool {
    match filter {
        Some(ks) => exists|i: int| 0 <= i < ks.len() && ks[i] == k,
        None => true,
    }
}

/// The device records a scene activation sets: for each scene entry
/// admitted by the filter whose device the snapshot holds, the stored
/// record with the desired state applied, in the scene's entry order.
pub open spec fn spec_scene_application(
    entries: Seq<(DeviceKey, SceneDeviceState)>,
    state: Map<DeviceKeyView, DeviceView>,
    filter: Option<Seq<DeviceKeyView>>,
    scene_id: Seq<char>,
) -> Seq<DeviceView>
    decreases entries.len(),
{
    if entries.len() == 0 {
        Seq::empty()
    } else {
        spec_scene_application(entries.drop_last(), state, filter, scene_id) + {
            let k = entries.last().0@;
            if spec_filter_allows(filter, k) && state.contains_key(k) {
                seq![spec_apply_scene(state[k], entries.last().1, scene_id)]
            } else {
                Seq::<DeviceView>::empty()
            }
        }
    }
}

impl SceneConfig {
    /// The records to set when this scene is activated over a snapshot,
    /// optionally restricted to the given device keys.
    #[verifier::loop_isolation(false)]
    pub fn devices_to_set(
        &self,
        state: &DevicesState,
        filter: &Option<Vec<DeviceKey>>,
        scene_id: &SceneId,
    ) -> (r: Vec<Device>)
        requires
            self.devices.wf(),
            state.wf(),
        ensures
            r@.map_values(|d: Device| d@) == spec_scene_application(
                self.devices.entries_seq(),
                state@,
                spec_filter_view(*filter),
                scene_id@,
            ),
    {
        let mut r: Vec<Device> = Vec::new();
        let n = self.devices.num_entries();
        let mut i: usize = 0;
        while i < n
            invariant
                0 <= i <= n,
                r@.map_values(|d: Device| d@) == spec_scene_application(
                    self.devices.entries_seq().take(i as int),
                    state@,
                    spec_filter_view(*filter),
                    scene_id@,
                ),
            decreases n - i,
        {
            let ghost pre = self.devices.entries_seq().take(i as int);
            let ghost post = self.devices.entries_seq().take(i + 1 as int);
            proof {
                assert(post.drop_last() =~= pre);
                assert(post.last() == self.devices.entries_seq()[i as int]);
            }
            let entry = self.devices.entry_at(i);
            let allowed = match filter {
                Some(ks) => {
                    let c = keys_contain(ks, &entry.0);
                    proof {
                        if c {
                            let x = choose|x: int| 0 <= x < ks@.len() && ks@[x]@ == entry.0@;
                            assert(ks@.map_values(|k: DeviceKey| k@)[x] == ks@[x]@);
                        }
                    }
                    c
                },
                None => true,
            };
            if allowed {
                match find_device(state, &entry.0) {
                    Some(d) => {
                        let ghost r_old = r@;
                        r.push(apply_scene_state(&d, &entry.1, scene_id));
                        proof {
                            assert(spec_filter_allows(spec_filter_view(*filter), post.last().0@));
                            assert(state@.contains_key(post.last().0@));
                            assert(r@.map_values(|x: Device| x@) =~= r_old.map_values(
                                |x: Device| x@,
                            ) + seq![spec_apply_scene(state@[post.last().0@], post.last().1, scene_id@)]);
                            assert(r@.map_values(|x: Device| x@) =~= spec_scene_application(
                                post,
                                state@,
                                spec_filter_view(*filter),
                                scene_id@,
                            ));
                        }
                    },
                    None => {
                        proof {
                            assert(r@.map_values(|x: Device| x@) =~= spec_scene_application(
                                post,
                                state@,
                                spec_filter_view(*filter),
                                scene_id@,
                            ));
                        }
                    },
                }
            } else {
                proof {
                    assert(!spec_filter_allows(spec_filter_view(*filter), post.last().0@));
                    assert(r@.map_values(|x: Device| x@) =~= spec_scene_application(
                        post,
                        state@,
                        spec_filter_view(*filter),
                        scene_id@,
                    ));
                }
            }
            i += 1;
        }
        proof {
            assert(self.devices.entries_seq().take(n as int) =~= self.devices.entries_seq());
        }
        r
    }
}

/// The view of an optional device-key filter.
pub open spec fn spec_filter_view(filter: Option<Vec<DeviceKey>>) -> Option<Seq<DeviceKeyView>> {
    match filter {
        Some(ks) => Some(ks@.map_values(|k: DeviceKey| k@)),
        None => None,
    }
}

/// What an activation pass leaves behind: nothing for an unknown scene;
/// for a known one, the application of the scene entry carrying its id.
pub open spec fn spec_activation_post(
    scenes: Scenes,
    state: Map<DeviceKeyView, DeviceView>,
    d: SceneDescriptorView,
    out: Seq<DeviceView>,
) -> bool {
    &&& (!scenes.scenes@.contains_key(d.scene_id) ==> out.len() == 0)
    &&& (scenes.scenes@.contains_key(d.scene_id) ==> exists|i: int|
        0 <= i < scenes.scenes.entries_seq().len() && (#[trigger] scenes.scenes.entries_seq()[i]).0@
            == d.scene_id && out == spec_scene_application(
            scenes.scenes.entries_seq()[i].1.devices.entries_seq(),
            state,
            d.device_keys,
            d.scene_id,
        ))
}

/// The scenes index: scene id to flattened configuration.
pub struct Scenes {
    pub scenes: KvMap<SceneId, SceneConfig>,
}

impl Scenes {
    /// Scene ids are distinct and every scene's device mapping is
    /// well-formed.
    pub open spec fn wf(self) -> bool {
        &&& self.scenes.wf()
        &&& forall|i: int|
            0 <= i < self.scenes.entries_seq().len() ==> (#[trigger] self.scenes.entries_seq()[i]).1.devices.wf()
    }

    pub fn new() -> (r: Self)
        ensures
            r.wf(),
            r.scenes@ == Map::<Seq<char>, SceneConfigView>::empty(),
    {
        Scenes { scenes: KvMap::new() }
    }

    pub fn add_scene(&mut self, scene_id: SceneId, config: SceneConfig)
        requires
            old(self).wf(),
            config.devices.wf(),
        ensures
            final(self).wf(),
            final(self).scenes@ == old(self).scenes@.insert(scene_id@, config@),
    {
        self.scenes.insert(scene_id, config);
    }

    /// The device records to set when the named scene is activated.
    pub fn activate_scene(&self, state: &DevicesState, descriptor: &SceneDescriptor) -> (r: Vec<
        Device,
    >)
        requires
            self.wf(),
            state.wf(),
        ensures
            spec_activation_post(*self, state@, descriptor@, r@.map_values(|d: Device| d@)),
    {
        match self.scenes.get(&descriptor.scene_id) {
            Some(sc) => sc.devices_to_set(state, &descriptor.device_keys, &descriptor.scene_id),
            None => Vec::new(),
        }
    }

    /// The device records to set when cycling: the scene after the first
    /// currently-active one among those listed, wrapping around unless
    /// the descriptor forbids it, and the first listed scene when none
    /// is active.
    pub fn cycle_scenes(&self, state: &DevicesState, descriptor: &CycleScenesDescriptor) -> (r:
        Vec<Device>)
        requires
            self.wf(),
            state.wf(),
        ensures
            (match spec_cycle_target(descriptor@.scenes, state@, descriptor.nowrap) {
                Some(j) => spec_activation_post(
                    *self,
                    state@,
                    descriptor@.scenes[j],
                    r@.map_values(|d: Device| d@),
                ),
                None => r@.len() == 0,
            }),
    {
        let n = descriptor.scenes.len();
        if n == 0 {
            return Vec::new();
        }
        let target: usize = match first_active_scene(state, &descriptor.scenes) {
            Some(j) => {
                if j + 1 < n {
                    j + 1
                } else {
                    let nowrap = match descriptor.nowrap {
                        Some(b) => b,
                        None => false,
                    };
                    if nowrap {
                        return Vec::new();
                    }
                    0
                }
            },
            None => 0,
        };
        self.activate_scene(state, &descriptor.scenes[target])
    }

    /// The scenes whose flattened device list includes the changed
    /// device, in declaration order: the entries a cached view over this
    /// index must recompute after the change. Entries with no dependency
    /// on the changed device are untouched.
    #[verifier::loop_isolation(false)]
    pub fn invalidate(&self, changed: &DeviceKey) -> (r: Vec<SceneId>)
        requires
            self.wf(),
        ensures
            r@.map_values(|s: SceneId| s@) == spec_scenes_containing(
                self.scenes.entries_seq(),
                changed@,
            ),
    {
        let mut r: Vec<SceneId> = Vec::new();
        let n = self.scenes.num_entries();
        let mut i: usize = 0;
        while i < n
            invariant
                0 <= i <= n,
                r@.map_values(|s: SceneId| s@) == spec_scenes_containing(
                    self.scenes.entries_seq().take(i as int),
                    changed@,
                ),
            decreases n - i,
        {
            let ghost pre = self.scenes.entries_seq().take(i as int);
            let ghost post = self.scenes.entries_seq().take(i + 1 as int);
            proof {
                assert(post.drop_last() =~= pre);
                assert(post.last() == self.scenes.entries_seq()[i as int]);
            }
            let entry = self.scenes.entry_at(i);
            if entry.1.devices.contains_key(changed) {
                let ghost r_old = r@;
                r.push(entry.0.clone());
                proof {
                    assert(r@.map_values(|s: SceneId| s@) =~= r_old.map_values(|s: SceneId| s@)
                        + seq![post.last().0@]);
                    assert(r@.map_values(|s: SceneId| s@) =~= spec_scenes_containing(
                        post,
                        changed@,
                    ));
                }
            } else {
                proof {
                    assert(r@.map_values(|s: SceneId| s@) =~= spec_scenes_containing(
                        post,
                        changed@,
                    ));
                }
            }
            i += 1;
        }
        proof {
            assert(self.scenes.entries_seq().take(n as int) =~= self.scenes.entries_seq());
        }
        r
    }
}

/// The ids of the scene entries whose device mapping holds the key.
pub open spec fn spec_scenes_containing(
    entries: Seq<(SceneId, SceneConfig)>,
    k: DeviceKeyView,
) -> Seq<Seq<char>>
    decreases entries.len(),
{
    if entries.len() == 0 {
        Seq::empty()
    } else {
        spec_scenes_containing(entries.drop_last(), k) + if entries.last().1.devices@.contains_key(
            k,
        ) {
            seq![entries.last().0@]
        } else {
            Seq::<Seq<char>>::empty()
        }
    }
}

/// Whether some device in the snapshot currently carries the scene.
pub open spec fn spec_scene_active(state: Map<DeviceKeyView, DeviceView>, id: Seq<char>) -> bool {
    exists|k: DeviceKeyView| #[trigger] state.contains_key(k) && state[k].scene == Some(id)
}

/// Whether some device in the snapshot currently carries the scene.
pub fn scene_is_active(state: &DevicesState, id: &SceneId) -> (r: bool)
    requires
        state.wf(),
    ensures
        r == spec_scene_active(state@, id@),
{
    let n = state.num_entries();
    let mut i: usize = 0;
    while i < n
        invariant
            state.wf(),
            n == state.entries_seq().len(),
            0 <= i <= n,
            forall|j: int|
                0 <= j < i ==> (#[trigger] state.entries_seq()[j]).1@.scene != Some(id@),
        decreases n - i,
    {
        let entry = state.entry_at(i);
        let carries = match &entry.1.scene {
            Some(s) => s.0 == id.0,
            None => false,
        };
        if carries {
            proof {
                state.lemma_entry_in_view(i as int);
                assert(state@.contains_key(state.entries_seq()[i as int].0@));
            }
            return true;
        }
        i += 1;
    }
    proof {
        assert forall|k: DeviceKeyView| #[trigger] state@.contains_key(k) implies state@[k].scene
            != Some(id@) by {
            state.lemma_contains(k);
            let j = choose|j: int|
                0 <= j < state.entries_seq().len() && state.entries_seq()[j].0@ == k;
            state.lemma_entry_in_view(j);
        }
    }
    false
}

/// The index of the first listed scene that is currently active.
pub open spec fn spec_first_active(
    descs: Seq<SceneDescriptorView>,
    state: Map<DeviceKeyView, DeviceView>,
) -> Option<int>
    decreases descs.len(),
{
    if descs.len() == 0 {
        None
    } else if spec_scene_active(state, descs.first().scene_id) {
        Some(0)
    } else {
        match spec_first_active(descs.drop_first(), state) {
            Some(j) => Some(j + 1),
            None => None,
        }
    }
}

/// The scene to cycle to: the one after the first active one, wrapping
/// unless forbidden; the first listed when none is active; none at all
/// for an empty list or when the end is reached with wrapping forbidden.
pub open spec fn spec_cycle_target(
    descs: Seq<SceneDescriptorView>,
    state: Map<DeviceKeyView, DeviceView>,
    nowrap: Option<bool>,
) -> Option<int> {
    if descs.len() == 0 {
        None
    } else {
        match spec_first_active(descs, state) {
            Some(j) => if j + 1 < descs.len() {
                Some(j + 1)
            } else if nowrap == Some(true) {
                None
            } else {
                Some(0)
            },
            None => Some(0),
        }
    }
}

/// Finds the first listed scene that is currently active.
#[verifier::loop_isolation(false)]
pub fn first_active_scene(state: &DevicesState, scenes: &Vec<SceneDescriptor>) -> (r: Option<
    usize,
>)
    requires
        state.wf(),
    ensures
        (match r {
            Some(j) => j < scenes@.len() && spec_first_active(
                scenes@.map_values(|s: SceneDescriptor| s@),
                state@,
            ) == Some(j as int),
            None => spec_first_active(scenes@.map_values(|s: SceneDescriptor| s@), state@)
                is None,
        }),
{
    let ghost descs = scenes@.map_values(|s: SceneDescriptor| s@);
    let n = scenes.len();
    proof {
        assert(descs.skip(0) =~= descs);
    }
    let mut i: usize = 0;
    while i < n
        invariant
            0 <= i <= n,
            spec_first_active(descs, state@) == (match spec_first_active(
                descs.skip(i as int),
                state@,
            ) {
                Some(j) => Some(j + i),
                None => None::<int>,
            }),
        decreases n - i,
    {
        let ghost tail = descs.skip(i as int);
        proof {
            assert(tail.len() > 0);
            assert(tail.first() == descs[i as int]);
            assert(tail.drop_first() =~= descs.skip(i + 1 as int));
        }
        if scene_is_active(state, &scenes[i].scene_id) {
            proof {
                assert(spec_scene_active(state@, tail.first().scene_id));
                assert(spec_first_active(tail, state@) == Some(0int));
            }
            return Some(i);
        }
        proof {
            assert(!spec_scene_active(state@, tail.first().scene_id));
        }
        i += 1;
    }
    proof {
        assert(descs.skip(n as int).len() == 0);
    }
    None
}

} // verus!
