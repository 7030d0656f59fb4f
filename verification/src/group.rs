//! Groups: named lists of device keys. The index consumed here is already
//! flattened — nested group references are resolved, and cyclic
//! configurations rejected, when the configuration is loaded.

use crate::device::{keys_contain, DeviceKey, DeviceKeyView};
use crate::kvmap::{KeyView, KvMap};
use vstd::prelude::*;

verus! {

/// Identity of a group.
#[derive(Debug)]
pub struct GroupId(pub String);

impl View for GroupId {
    type V = Seq<char>;

    open spec fn view(&self) -> Seq<char> {
        self.0@
    }
}

impl GroupId {
    pub fn new(s: String) -> (r: Self)
        ensures
            r@ == s@,
    {
        GroupId(s)
    }
}

impl Clone for GroupId {
    fn clone(&self) -> (r: Self)
        ensures
            r@ == self@,
    {
        GroupId(self.0.clone())
    }
}

impl KeyView for GroupId {
    fn key_eq(&self, other: &Self) -> (r: bool)
        ensures
            r == (self@ == other@),
    {
        self.0 == other.0
    }
}

/// The device keys a group resolves to, in declaration order.
#[derive(Debug)]
pub struct GroupDeviceKeys {
    pub keys: Vec<DeviceKey>,
}

impl View for GroupDeviceKeys {
    type V = Seq<DeviceKeyView>;

    open spec fn view(&self) -> Seq<DeviceKeyView> {
        self.keys@.map_values(|k: DeviceKey| k@)
    }
}

pub fn clone_device_keys(v: &Vec<DeviceKey>) -> (r: Vec<DeviceKey>)
    ensures
        r@.map_values(|k: DeviceKey| k@) == v@.map_values(|k: DeviceKey| k@),
{
    let mut r: Vec<DeviceKey> = Vec::new();
    let n = v.len();
    let mut i: usize = 0;
    while i < n
        invariant
            n == v@.len(),
            0 <= i <= n,
            r@.len() == i,
            forall|j: int| 0 <= j < i ==> r@[j]@ == v@[j]@,
        decreases n - i,
    {
        r.push(v[i].clone());
        i += 1;
    }
    proof {
        assert(r@.map_values(|k: DeviceKey| k@) =~= v@.map_values(|k: DeviceKey| k@));
    }
    r
}

pub fn clone_group_ids(v: &Vec<GroupId>) -> (r: Vec<GroupId>)
    ensures
        r@.map_values(|g: GroupId| g@) == v@.map_values(|g: GroupId| g@),
{
    let mut r: Vec<GroupId> = Vec::new();
    let n = v.len();
    let mut i: usize = 0;
    while i < n
        invariant
            n == v@.len(),
            0 <= i <= n,
            r@.len() == i,
            forall|j: int| 0 <= j < i ==> r@[j]@ == v@[j]@,
        decreases n - i,
    {
        r.push(v[i].clone());
        i += 1;
    }
    proof {
        assert(r@.map_values(|g: GroupId| g@) =~= v@.map_values(|g: GroupId| g@));
    }
    r
}

/// The flattened group index: group id to resolved member device keys.
pub struct Groups {
    pub groups: KvMap<GroupId, GroupDeviceKeys>,
}

impl View for Groups {
    type V = Map<Seq<char>, Seq<DeviceKeyView>>;

    open spec fn view(&self) -> Map<Seq<char>, Seq<DeviceKeyView>> {
        self.groups@
    }
}

impl Groups {
    pub open spec fn wf(self) -> bool {
        self.groups.wf()
    }

    pub fn new(groups: KvMap<GroupId, GroupDeviceKeys>) -> (r: Self)
        ensures
            r.groups == groups,
            r@ == groups@,
            groups.wf() ==> r.wf(),
    {
        Groups { groups }
    }

    /// The member device keys of a group; a group the index does not know
    /// resolves to no devices.
    pub fn find_group_device_refs(&self, group_id: &GroupId) -> (r: Vec<DeviceKey>)
        requires
            self.wf(),
        ensures
            r@.map_values(|k: DeviceKey| k@) == if self@.contains_key(group_id@) {
                self@[group_id@]
            } else {
                Seq::<DeviceKeyView>::empty()
            },
    {
        match self.groups.get(group_id) {
            Some(ks) => clone_device_keys(&ks.keys),
            None => {
                let r: Vec<DeviceKey> = Vec::new();
                proof {
                    assert(r@.map_values(|k: DeviceKey| k@) =~= Seq::<DeviceKeyView>::empty());
                }
                r
            },
        }
    }

    /// The groups whose member list includes the changed device, in
    /// declaration order: the entries a cached aggregate view over this
    /// index must recompute after the change. Entries with no dependency
    /// on the changed device are untouched.
    #[verifier::loop_isolation(false)]
    pub fn invalidate(&self, changed: &DeviceKey) -> (r: Vec<GroupId>)
        requires
            self.wf(),
        ensures
            r@.map_values(|g: GroupId| g@) == spec_groups_containing(
                self.groups.entries_seq(),
                changed@,
            ),
    {
        let mut r: Vec<GroupId> = Vec::new();
        let n = self.groups.num_entries();
        let mut i: usize = 0;
        while i < n
            invariant
                0 <= i <= n,
                r@.map_values(|g: GroupId| g@) == spec_groups_containing(
                    self.groups.entries_seq().take(i as int),
                    changed@,
                ),
            decreases n - i,
        {
            let ghost pre = self.groups.entries_seq().take(i as int);
            let ghost post = self.groups.entries_seq().take(i + 1 as int);
            proof {
                assert(post.drop_last() =~= pre);
                assert(post.last() == self.groups.entries_seq()[i as int]);
            }
            let entry = self.groups.entry_at(i);
            if keys_contain(&entry.1.keys, changed) {
                let ghost r_old = r@;
                r.push(entry.0.clone());
                proof {
                    assert(r@.map_values(|g: GroupId| g@) =~= r_old.map_values(|g: GroupId| g@)
                        + seq![post.last().0@]);
                    assert(r@.map_values(|g: GroupId| g@) =~= spec_groups_containing(
                        post,
                        changed@,
                    ));
                }
            } else {
                proof {
                    assert(r@.map_values(|g: GroupId| g@) =~= spec_groups_containing(
                        post,
                        changed@,
                    ));
                }
            }
            i += 1;
        }
        proof {
            assert(self.groups.entries_seq().take(n as int) =~= self.groups.entries_seq());
        }
        r
    }
}

/// A group as configured: direct device members and nested group
/// references, in declaration order.
#[derive(Debug)]
pub struct GroupConfig {
    pub group_id: GroupId,
    pub devices: Vec<DeviceKey>,
    pub groups: Vec<GroupId>,
}

/// Why a group configuration was rejected at load time.
#[derive(Clone, Copy, Debug)]
pub enum GroupsError {
    /// A group transitively contains itself.
    CycleDetected,
}

/// The first configured group carrying the given id.
pub open spec fn spec_find_group_config(configs: Seq<GroupConfig>, gid: Seq<char>) -> Option<
    GroupConfig,
>
    decreases configs.len(),
{
    if configs.len() == 0 {
        None
    } else if configs.first().group_id@ == gid {
        Some(configs.first())
    } else {
        spec_find_group_config(configs.drop_first(), gid)
    }
}

/// The transitive members of a group: its direct devices, then the
/// members of each nested group, depth-first in declaration order. An
/// id no configuration carries resolves to no devices. The result is
/// nothing when the nesting outruns the fuel, which on a full tank only
/// a cyclic configuration can do.
pub open spec fn spec_flatten_group(
    configs: Seq<GroupConfig>,
    gid: Seq<char>,
    fuel: nat,
) -> Option<Seq<DeviceKeyView>>
    decreases fuel, 0int, 0int,
{
    if fuel == 0 {
        None
    } else {
        match spec_find_group_config(configs, gid) {
            None => Some(Seq::empty()),
            Some(cfg) => match spec_flatten_nested(
                configs,
                cfg.groups@.map_values(|g: GroupId| g@),
                (fuel - 1) as nat,
            ) {
                Some(rest) => Some(cfg.devices@.map_values(|k: DeviceKey| k@) + rest),
                None => None,
            },
        }
    }
}

/// The concatenated transitive members of a list of nested groups.
pub open spec fn spec_flatten_nested(
    configs: Seq<GroupConfig>,
    gids: Seq<Seq<char>>,
    fuel: nat,
) -> Option<Seq<DeviceKeyView>>
    decreases fuel, 1int, gids.len(),
{
    if gids.len() == 0 {
        Some(Seq::empty())
    } else {
        match spec_flatten_group(configs, gids.first(), fuel) {
            Some(head) => match spec_flatten_nested(configs, gids.drop_first(), fuel) {
                Some(rest) => Some(head + rest),
                None => None,
            },
            None => None,
        }
    }
}

/// Finds the first configured group carrying the given id.
fn find_group_config<'a>(configs: &'a Vec<GroupConfig>, gid: &GroupId) -> (r: Option<
    &'a GroupConfig,
>)
    ensures
        (match r {
            Some(cfg) => spec_find_group_config(configs@, gid@) == Some(*cfg),
            None => spec_find_group_config(configs@, gid@) is None,
        }),
{
    let n = configs.len();
    proof {
        assert(configs@.skip(0) =~= configs@);
    }
    let mut i: usize = 0;
    while i < n
        invariant
            0 <= i <= n,
            n == configs@.len(),
            spec_find_group_config(configs@.skip(i as int), gid@) == spec_find_group_config(
                configs@,
                gid@,
            ),
        decreases n - i,
    {
        let ghost tail = configs@.skip(i as int);
        proof {
            assert(tail.len() > 0);
            assert(tail.first() == configs@[i as int]);
            assert(tail.drop_first() =~= configs@.skip(i + 1 as int));
        }
        if configs[i].group_id.key_eq(gid) {
            return Some(&configs[i]);
        }
        i += 1;
    }
    proof {
        assert(configs@.skip(n as int).len() == 0);
    }
    None
}

/// Resolves one group's transitive members; fails when the nesting
/// outruns the fuel, which on a full tank means a cycle.
#[verifier::loop_isolation(false)]
fn flatten_group(configs: &Vec<GroupConfig>, gid: &GroupId, fuel: usize) -> (r: Result<
    Vec<DeviceKey>,
    GroupsError,
>)
    ensures
        (match r {
            Ok(ks) => spec_flatten_group(configs@, gid@, fuel as nat) == Some(
                ks@.map_values(|k: DeviceKey| k@),
            ),
            Err(_) => spec_flatten_group(configs@, gid@, fuel as nat) is None,
        }),
    decreases fuel, 0int, 0int,
{
    if fuel == 0 {
        return Err(GroupsError::CycleDetected);
    }
    let cfg = match find_group_config(configs, gid) {
        None => {
            let r: Vec<DeviceKey> = Vec::new();
            proof {
                assert(r@.map_values(|k: DeviceKey| k@) =~= Seq::<DeviceKeyView>::empty());
            }
            return Ok(r);
        },
        Some(cfg) => cfg,
    };
    let ghost nviews = cfg.groups@.map_values(|g: GroupId| g@);
    let ghost f2 = (fuel - 1) as nat;
    let mut nested: Vec<DeviceKey> = Vec::new();
    let n = cfg.groups.len();
    proof {
        assert(nviews.skip(0) =~= nviews);
        assert(nested@.map_values(|k: DeviceKey| k@) =~= Seq::<DeviceKeyView>::empty());
    }
    let mut i: usize = 0;
    while i < n
        invariant
            0 <= i <= n,
            n == cfg.groups@.len(),
            spec_flatten_nested(configs@, nviews, f2) == (match spec_flatten_nested(
                configs@,
                nviews.skip(i as int),
                f2,
            ) {
                Some(rest) => Some(nested@.map_values(|k: DeviceKey| k@) + rest),
                None => None::<Seq<DeviceKeyView>>,
            }),
        decreases n - i,
    {
        let ghost tail = nviews.skip(i as int);
        proof {
            assert(tail.len() > 0);
            assert(tail.first() == nviews[i as int]);
            assert(nviews[i as int] == cfg.groups@[i as int]@);
            assert(tail.drop_first() =~= nviews.skip(i + 1 as int));
        }
        match flatten_group(configs, &cfg.groups[i], fuel - 1) {
            Ok(sub) => {
                let ghost nested_old = nested@;
                let m = sub.len();
                let mut j: usize = 0;
                while j < m
                    invariant
                        0 <= j <= m,
                        m == sub@.len(),
                        nested@.len() == nested_old.len() + j,
                        forall|x: int| 0 <= x < nested_old.len() ==> nested@[x] == nested_old[x],
                        forall|x: int| 0 <= x < j ==> nested@[nested_old.len() + x]@ == sub@[x]@,
                    decreases m - j,
                {
                    nested.push(sub[j].clone());
                    j += 1;
                }
                proof {
                    assert(nested@.map_values(|k: DeviceKey| k@) =~= nested_old.map_values(
                        |k: DeviceKey| k@,
                    ) + sub@.map_values(|k: DeviceKey| k@));
                }
            },
            Err(e) => {
                return Err(e);
            },
        }
        i += 1;
    }
    proof {
        assert(nviews.skip(n as int).len() == 0);
    }
    let mut r = clone_device_keys(&cfg.devices);
    let ghost devs = r@;
    let m = nested.len();
    let mut j: usize = 0;
    while j < m
        invariant
            0 <= j <= m,
            m == nested@.len(),
            r@.len() == devs.len() + j,
            forall|x: int| 0 <= x < devs.len() ==> r@[x] == devs[x],
            forall|x: int| 0 <= x < j ==> r@[devs.len() + x]@ == nested@[x]@,
        decreases m - j,
    {
        r.push(nested[j].clone());
        j += 1;
    }
    proof {
        assert(r@.map_values(|k: DeviceKey| k@) =~= devs.map_values(|k: DeviceKey| k@)
            + nested@.map_values(|k: DeviceKey| k@));
        assert(devs.map_values(|k: DeviceKey| k@) == cfg.devices@.map_values(|k: DeviceKey| k@));
    }
    Ok(r)
}

impl Groups {
    /// Builds the flattened index from a nested configuration: each
    /// configured group is resolved to its transitive members, and a
    /// group that transitively contains itself is a configuration
    /// error, rejected here — never at evaluation time.
    #[verifier::loop_isolation(false)]
    pub fn try_from_config(configs: &Vec<GroupConfig>) -> (r: Result<Groups, GroupsError>)
        requires
            configs@.len() < usize::MAX,
        ensures
            (match r {
                Ok(g) => {
                    &&& g.wf()
                    &&& forall|i: int|
                        0 <= i < configs@.len() ==> g@.contains_key(
                            (#[trigger] configs@[i]).group_id@,
                        )
                    &&& forall|i: int|
                        0 <= i < configs@.len() && (forall|j: int|
                            i < j < configs@.len() ==> configs@[j].group_id@ != configs@[i].group_id@)
                            ==> {
                            &&& spec_flatten_group(
                                configs@,
                                (#[trigger] configs@[i]).group_id@,
                                (configs@.len() + 1) as nat,
                            ) is Some
                            &&& g@[configs@[i].group_id@] == spec_flatten_group(
                                configs@,
                                configs@[i].group_id@,
                                (configs@.len() + 1) as nat,
                            )->Some_0
                        }
                },
                Err(_) => exists|i: int|
                    0 <= i < configs@.len() && spec_flatten_group(
                        configs@,
                        (#[trigger] configs@[i]).group_id@,
                        (configs@.len() + 1) as nat,
                    ) is None,
            }),
    {
        let fuel = configs.len() + 1;
        let mut index: KvMap<GroupId, GroupDeviceKeys> = KvMap::new();
        let n = configs.len();
        let mut i: usize = 0;
        while i < n
            invariant
                0 <= i <= n,
                index.wf(),
                fuel == configs@.len() + 1,
                forall|x: int|
                    0 <= x < i ==> index@.contains_key((#[trigger] configs@[x]).group_id@),
                forall|x: int|
                    0 <= x < i && (forall|y: int|
                        x < y < i ==> configs@[y].group_id@ != configs@[x].group_id@) ==> {
                        &&& spec_flatten_group(
                            configs@,
                            (#[trigger] configs@[x]).group_id@,
                            fuel as nat,
                        ) is Some
                        &&& index@[configs@[x].group_id@] == spec_flatten_group(
                            configs@,
                            configs@[x].group_id@,
                            fuel as nat,
                        )->Some_0
                    },
            decreases n - i,
        {
            match flatten_group(configs, &configs[i].group_id, fuel) {
                Ok(keys) => {
                    index.insert(configs[i].group_id.clone(), GroupDeviceKeys { keys });
                },
                Err(e) => {
                    return Err(e);
                },
            }
            i += 1;
        }
        Ok(Groups { groups: index })
    }
}

/// The ids of the group entries whose member list holds the key.
pub open spec fn spec_groups_containing(
    entries: Seq<(GroupId, GroupDeviceKeys)>,
    k: DeviceKeyView,
) -> Seq<Seq<char>>
    decreases entries.len(),
{
    if entries.len() == 0 {
        Seq::empty()
    } else {
        spec_groups_containing(entries.drop_last(), k) + if exists|x: int|
            0 <= x < entries.last().1.keys@.len() && entries.last().1.keys@[x]@ == k {
            seq![entries.last().0@]
        } else {
            Seq::<Seq<char>>::empty()
        }
    }
}

} // verus!
