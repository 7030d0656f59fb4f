//! The device store with change detection: merges incoming device
//! records, detects changes by exact equality, and says what must be
//! announced or pushed as a result.

use crate::device::{clone_devices_state, Device, device_eq, DevicesState, DeviceView,
    DeviceKeyView};
use crate::kvmap::KvMap;
use vstd::prelude::*;

verus! {

/// A detected state transition: full snapshots before and after, and the
/// device record before and after. Snapshots are immutable values, never
/// live references, so rule evaluation observes a fixed state.
pub struct InternalStateUpdate {
    pub old_state: DevicesState,
    pub new_state: DevicesState,
    pub old: Option<Device>,
    pub new: Device,
}

/// Whether receiving `d` over snapshot `state` announces an update:
/// exactly when the device is new to the store or differs from its
/// stored record.
pub open spec fn spec_recv_emits(state: Map<DeviceKeyView, DeviceView>, d: DeviceView) -> bool {
    !(state.contains_key(d.key()) && state[d.key()] == d)
}

/// The authoritative device store.
pub struct DevicesManager {
    pub state: DevicesState,
}

impl DevicesManager {
    pub open spec fn wf(self) -> bool {
        self.state.wf()
    }

    pub fn new() -> (r: Self)
        ensures
            r.wf(),
            r.state@ == Map::<DeviceKeyView, DeviceView>::empty(),
    {
        DevicesManager { state: KvMap::new() }
    }

    /// Receives a device record from an integration. A record equal to
    /// the stored one is a no-op and announces nothing — receiving the
    /// same record twice announces at most once. A new or changed record
    /// is stored and announced with before/after snapshots.
    pub fn handle_recv_device_state(&mut self, device: Device) -> (r: Option<InternalStateUpdate>)
        requires
            old(self).wf(),
        ensures
            final(self).wf(),
            final(self).state@ == old(self).state@.insert(device@.key(), device@),
            r is Some <==> spec_recv_emits(old(self).state@, device@),
            (match r {
                Some(u) => {
                    &&& u.old_state.wf()
                    &&& u.new_state.wf()
                    &&& u.old_state@ == old(self).state@
                    &&& u.new_state@ == final(self).state@
                    &&& u.new@ == device@
                    &&& (match u.old {
                        Some(p) => old(self).state@.contains_key(device@.key()) && p@ == old(
                            self,
                        ).state@[device@.key()],
                        None => !old(self).state@.contains_key(device@.key()),
                    })
                },
                None => true,
            }),
    {
        let key = device.get_device_key();
        let previous: Option<Device> = match self.state.get(&key) {
            Some(d) => {
                if device_eq(d, &device) {
                    proof {
                        assert(old(self).state@.insert(device@.key(), device@) =~= old(
                            self,
                        ).state@);
                    }
                    return None;
                }
                Some(d.clone())
            },
            None => None,
        };
        let old_state = clone_devices_state(&self.state);
        self.state.insert(key, device.clone());
        let new_state = clone_devices_state(&self.state);
        Some(InternalStateUpdate { old_state, new_state, old: previous, new: device })
    }

    /// Writes `device` into the store as the new expected value. Unless
    /// `set_scene` is set, a previously stored record keeps its
    /// active-scene field. Returns the record to push to hardware:
    /// nothing when `skip_send` is set, and — unless `force` bypasses
    /// the short-circuit — nothing when the store already held an equal
    /// record.
    pub fn set_device_state(
        &mut self,
        device: &Device,
        set_scene: bool,
        force: bool,
        skip_send: bool,
    ) -> (r: Option<Device>)
        requires
            old(self).wf(),
        ensures
            final(self).wf(),
            final(self).state@ == old(self).state@.insert(
                device@.key(),
                spec_stored_device(old(self).state@, device@, set_scene),
            ),
            (match r {
                Some(d) => {
                    &&& d@ == spec_stored_device(old(self).state@, device@, set_scene)
                    &&& !skip_send
                    &&& (force || spec_recv_emits(
                        old(self).state@,
                        spec_stored_device(old(self).state@, device@, set_scene),
                    ))
                },
                None => skip_send || (!force && !spec_recv_emits(
                    old(self).state@,
                    spec_stored_device(old(self).state@, device@, set_scene),
                )),
            }),
    {
        let key = device.get_device_key();
        let mut stored = device.clone();
        let mut unchanged = false;
        match self.state.get(&key) {
            Some(prev) => {
                if !set_scene {
                    stored = Device { scene: prev.get_scene(), ..stored };
                }
                unchanged = device_eq(prev, &stored);
            },
            None => {},
        }
        let send = !skip_send && (force || !unchanged);
        let r = if send {
            Some(stored.clone())
        } else {
            None
        };
        self.state.insert(key, stored);
        r
    }

    /// A snapshot of the store's current contents.
    pub fn get_devices(&self) -> (r: DevicesState)
        requires
            self.wf(),
        ensures
            r.wf(),
            r@ == self.state@,
    {
        clone_devices_state(&self.state)
    }
}

/// The record `set_device_state` files: the given device, whose
/// active-scene field keeps its previously stored value unless the
/// caller stamps the scene.
pub open spec fn spec_stored_device(
    state: Map<DeviceKeyView, DeviceView>,
    d: DeviceView,
    set_scene: bool,
) -> DeviceView {
    if set_scene || !state.contains_key(d.key()) {
        d
    } else {
        DeviceView { scene: state[d.key()].scene, ..d }
    }
}

/// Idempotence: once a received record is stored, receiving the same
/// record again announces nothing.
pub proof fn lemma_recv_idempotent(state: Map<DeviceKeyView, DeviceView>, d: DeviceView)
    ensures
        !spec_recv_emits(state.insert(d.key(), d), d),
{
}

} // verus!
