//! The reconciliation-worker supervisor: for each device that needs
//! active synchronization it keeps one expected-state cell and at most
//! one live worker. Replacing a worker is cancel-before-replace: the new
//! worker's token supersedes every earlier one for the same key, and a
//! worker holding a stale token reads nothing and so pushes nothing.
//!
//! The timer loop, the bounded-timeout network push and the task
//! handles live with the caller; this type decides, for every tick,
//! whether a worker is still live and what it must push.

use crate::device::{keys_contain, Device, DeviceKey, DeviceKeyView, DeviceView};
use crate::kvmap::KvMap;
use vstd::prelude::*;

verus! {

/// One device's reconciliation cell: the generation of its current
/// worker and the state the core intends for it.
pub struct WorkerCell {
    pub generation: u64,
    pub expected: Device,
}

pub ghost struct WorkerCellView {
    pub generation: u64,
    pub expected: DeviceView,
}

impl View for WorkerCell {
    type V = WorkerCellView;

    open spec fn view(&self) -> WorkerCellView {
        WorkerCellView { generation: self.generation, expected: self.expected@ }
    }
}

/// Held by one background worker; the worker is live while its
/// generation is the cell's current one.
#[derive(Debug)]
pub struct WorkerToken {
    pub key: DeviceKey,
    pub generation: u64,
}

pub ghost struct WorkerTokenView {
    pub key: DeviceKeyView,
    pub generation: u64,
}

impl View for WorkerToken {
    type V = WorkerTokenView;

    open spec fn view(&self) -> WorkerTokenView {
        WorkerTokenView { key: self.key@, generation: self.generation }
    }
}

/// A token is live under a cell map when its key has a cell carrying
/// exactly its generation.
pub open spec fn spec_is_live(m: Map<DeviceKeyView, WorkerCellView>, t: WorkerTokenView) -> bool {
    m.contains_key(t.key) && m[t.key].generation == t.generation
}

/// Failure of a supervisor request.
#[derive(Clone, Copy, Debug)]
pub enum SupervisorError {
    /// The request names a device no configuration registered here; it
    /// is reported to the caller, never a panic.
    UnknownDevice,
}

pub struct Supervisor {
    /// The devices this supervisor was configured with; only these get
    /// cells and workers.
    pub configured: Vec<DeviceKey>,
    pub workers: KvMap<DeviceKey, WorkerCell>,
}

impl Supervisor {
    pub open spec fn wf(self) -> bool {
        self.workers.wf()
    }

    pub open spec fn is_live(self, t: WorkerTokenView) -> bool {
        spec_is_live(self.workers@, t)
    }

    /// Whether a device key was registered at configuration time.
    pub open spec fn is_configured(self, k: DeviceKeyView) -> bool {
        exists|i: int| 0 <= i < self.configured@.len() && self.configured@[i]@ == k
    }

    pub fn new(configured: Vec<DeviceKey>) -> (r: Self)
        ensures
            r.wf(),
            r.configured == configured,
            r.workers@ == Map::<DeviceKeyView, WorkerCellView>::empty(),
    {
        Supervisor { configured, workers: KvMap::new() }
    }

    /// Writes the new expected state for the device, cancels the current
    /// worker for that key by superseding its generation, and returns
    /// the replacement worker's token. The caller then performs one
    /// immediate push of `device` and starts the replacement worker
    /// under the returned token. A device outside the configured set is
    /// reported to the caller and changes nothing.
    pub fn set_integration_device_state(&mut self, device: Device) -> (r: Result<
        WorkerToken,
        SupervisorError,
    >)
        requires
            old(self).wf(),
            old(self).workers@.contains_key(device@.key()) ==> old(self).workers@[device@.key()].generation
                < u64::MAX,
        ensures
            final(self).wf(),
            final(self).configured == old(self).configured,
            (match r {
                Ok(token) => {
                    &&& old(self).is_configured(device@.key())
                    &&& token@.key == device@.key()
                    &&& final(self).workers@ == old(self).workers@.insert(
                        device@.key(),
                        WorkerCellView { generation: token@.generation, expected: device@ },
                    )
                    &&& final(self).is_live(token@)
                    &&& (old(self).workers@.contains_key(device@.key()) ==> token@.generation
                        == old(self).workers@[device@.key()].generation + 1)
                    &&& (!old(self).workers@.contains_key(device@.key()) ==> token@.generation
                        == 0)
                    &&& forall|t: WorkerTokenView|
                        t.key == device@.key() && old(self).is_live(t) ==> !final(self).is_live(t)
                    &&& forall|t: WorkerTokenView|
                        t.key != device@.key() ==> (final(self).is_live(t) == old(self).is_live(
                            t,
                        ))
                },
                Err(_) => {
                    &&& !old(self).is_configured(device@.key())
                    &&& *final(self) == *old(self)
                },
            }),
    {
        let key = device.get_device_key();
        if !keys_contain(&self.configured, &key) {
            return Err(SupervisorError::UnknownDevice);
        }
        let generation: u64 = match self.workers.get(&key) {
            Some(cell) => cell.generation + 1,
            None => 0,
        };
        let token = WorkerToken { key: key.clone(), generation };
        self.workers.insert(key, WorkerCell { generation, expected: device });
        Ok(token)
    }

    /// One worker tick: a live worker reads its cell's expected state —
    /// clone-then-release, the cell is never held across I/O — to push
    /// it and re-announce it; a cancelled worker reads nothing and must
    /// issue no further pushes.
    pub fn worker_tick(&self, token: &WorkerToken) -> (r: Option<Device>)
        requires
            self.wf(),
        ensures
            (match r {
                Some(d) => self.is_live(token@) && d@ == self.workers@[token@.key].expected,
                None => !self.is_live(token@),
            }),
    {
        match self.workers.get(&token.key) {
            Some(cell) => {
                if cell.generation == token.generation {
                    Some(cell.expected.clone())
                } else {
                    None
                }
            },
            None => None,
        }
    }
}

/// Reconciliation exclusivity: under any cell map, at most one
/// generation per key is live, so once a replacement's token is live
/// every differently-numbered token for that key is stale — and by
/// `worker_tick`'s contract a stale worker pushes nothing further.
pub proof fn lemma_reconciliation_exclusivity(
    m: Map<DeviceKeyView, WorkerCellView>,
    t1: WorkerTokenView,
    t2: WorkerTokenView,
)
    requires
        t1.key == t2.key,
        t1.generation != t2.generation,
        spec_is_live(m, t2),
    ensures
        !spec_is_live(m, t1),
        forall|t: WorkerTokenView|
            t.key == t2.key && spec_is_live(m, t) ==> t.generation == t2.generation,
{
}

} // verus!
