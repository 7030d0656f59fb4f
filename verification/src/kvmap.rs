//! Association-list maps whose contents are specified as a mathematical
//! `Map` over the views of keys and values. The device store, the groups
//! and scenes indices, the expression-evaluation context and the worker
//! supervisor all store their state in these.

use vstd::prelude::*;

verus! {

/// A key type whose executable equality test agrees with equality of views.
pub trait KeyView: View + Sized {
    fn key_eq(&self, other: &Self) -> (r: bool)
        ensures
            r == (self@ == other@),
    ;
}

/// The mapping described by an entry sequence; a later entry for a key
/// overrides an earlier one, though well-formed maps never repeat a key.
pub open spec fn map_of<K: View, T: View>(s: Seq<(K, T)>) -> Map<K::V, T::V>
    decreases s.len(),
{
    if s.len() == 0 {
        Map::empty()
    } else {
        map_of(s.drop_last()).insert(s.last().0@, s.last().1@)
    }
}

/// No two entries share a key view.
pub open spec fn unique_keys<K: View, T: View>(s: Seq<(K, T)>) -> bool {
    forall|i: int, j: int| 0 <= i < j < s.len() ==> s[i].0@ != s[j].0@
}

pub proof fn lemma_map_of_contains<K: View, T: View>(s: Seq<(K, T)>, k: K::V)
    ensures
        map_of(s).contains_key(k) <==> exists|i: int| 0 <= i < s.len() && s[i].0@ == k,
    decreases s.len(),
{
    if s.len() > 0 {
        lemma_map_of_contains(s.drop_last(), k);
        if s.last().0@ == k {
            assert(s[s.len() - 1].0@ == k);
        } else if exists|i: int| 0 <= i < s.len() && s[i].0@ == k {
            let i = choose|i: int| 0 <= i < s.len() && s[i].0@ == k;
            assert(s.drop_last()[i] == s[i]);
        }
    }
}

pub proof fn lemma_map_of_index<K: View, T: View>(s: Seq<(K, T)>, i: int)
    requires
        unique_keys(s),
        0 <= i < s.len(),
    ensures
        map_of(s).contains_key(s[i].0@),
        map_of(s)[s[i].0@] == s[i].1@,
    decreases s.len(),
{
    if i < s.len() - 1 {
        assert forall|a: int, b: int| 0 <= a < b < s.drop_last().len() implies s.drop_last()[a].0@
            != s.drop_last()[b].0@ by {
            assert(s.drop_last()[a] == s[a]);
            assert(s.drop_last()[b] == s[b]);
        }
        lemma_map_of_index(s.drop_last(), i);
        assert(s.drop_last()[i] == s[i]);
        assert(s[i].0@ != s[s.len() - 1].0@);
    }
}

/// Full characterization of a well-formed entry sequence's mapping.
pub proof fn lemma_map_of_properties<K: View, T: View>(s: Seq<(K, T)>)
    requires
        unique_keys(s),
    ensures
        forall|k: K::V|
            map_of(s).contains_key(k) <==> exists|i: int| 0 <= i < s.len() && s[i].0@ == k,
        forall|i: int|
            0 <= i < s.len() ==> map_of(s).contains_key(#[trigger] s[i].0@) && map_of(s)[s[i].0@]
                == s[i].1@,
{
    assert forall|k: K::V| map_of(s).contains_key(k) <==> exists|i: int|
        0 <= i < s.len() && s[i].0@ == k by {
        lemma_map_of_contains(s, k);
    }
    assert forall|i: int| 0 <= i < s.len() implies map_of(s).contains_key(#[trigger] s[i].0@)
        && map_of(s)[s[i].0@] == s[i].1@ by {
        lemma_map_of_index(s, i);
    }
}

pub proof fn lemma_map_of_update<K: View, T: View>(s: Seq<(K, T)>, i: int, key: K, value: T)
    requires
        unique_keys(s),
        0 <= i < s.len(),
        s[i].0@ == key@,
    ensures
        unique_keys(s.update(i, (key, value))),
        map_of(s.update(i, (key, value))) == map_of(s).insert(key@, value@),
{
    let s2 = s.update(i, (key, value));
    assert forall|a: int, b: int| 0 <= a < b < s2.len() implies s2[a].0@ != s2[b].0@ by {
        assert(s2[a].0@ == s[a].0@);
        assert(s2[b].0@ == s[b].0@);
    }
    lemma_map_of_properties::<K, T>(s);
    lemma_map_of_properties::<K, T>(s2);
    assert forall|k: K::V| map_of(s2).contains_key(k) implies map_of(s).insert(
        key@,
        value@,
    ).contains_key(k) && map_of(s2)[k] == map_of(s).insert(key@, value@)[k] by {
        let j = choose|j: int| 0 <= j < s2.len() && s2[j].0@ == k;
        if j == i {
            assert(map_of(s2)[k] == value@);
        } else {
            assert(s2[j] == s[j]);
            assert(s[j].0@ != s[i].0@);
            assert(map_of(s2)[k] == s2[j].1@);
            assert(map_of(s)[k] == s[j].1@);
        }
    }
    assert forall|k: K::V| map_of(s).insert(key@, value@).contains_key(k) implies map_of(
        s2,
    ).contains_key(k) by {
        if k == key@ {
            assert(s2[i].0@ == k);
        } else {
            let j = choose|j: int| 0 <= j < s.len() && s[j].0@ == k;
            assert(s2[j].0@ == k);
        }
    }
    assert(map_of(s2) =~= map_of(s).insert(key@, value@));
}

pub proof fn lemma_map_of_push<K: View, T: View>(s: Seq<(K, T)>, key: K, value: T)
    requires
        unique_keys(s),
        forall|j: int| 0 <= j < s.len() ==> s[j].0@ != key@,
    ensures
        unique_keys(s.push((key, value))),
        map_of(s.push((key, value))) == map_of(s).insert(key@, value@),
{
    let s2 = s.push((key, value));
    assert(s2.drop_last() =~= s);
    assert(s2.last() == (key, value));
    assert(map_of(s2) == map_of(s).insert(key@, value@));
}

/// Entry sequences whose keys and values have equal views describe the
/// same mapping.
pub proof fn lemma_map_of_congruence<K: View, T: View>(s1: Seq<(K, T)>, s2: Seq<(K, T)>)
    requires
        s1.len() == s2.len(),
        forall|i: int|
            0 <= i < s1.len() ==> (#[trigger] s1[i]).0@ == s2[i].0@ && s1[i].1@ == s2[i].1@,
    ensures
        map_of(s1) == map_of(s2),
    decreases s1.len(),
{
    if s1.len() > 0 {
        assert forall|i: int| 0 <= i < s1.drop_last().len() implies (#[trigger] s1.drop_last()[i]).0@
            == s2.drop_last()[i].0@ && s1.drop_last()[i].1@ == s2.drop_last()[i].1@ by {
            assert(s1.drop_last()[i] == s1[i]);
            assert(s2.drop_last()[i] == s2[i]);
        }
        lemma_map_of_congruence(s1.drop_last(), s2.drop_last());
        assert(s1[s1.len() - 1].0@ == s2[s1.len() - 1].0@);
        assert(s1[s1.len() - 1].1@ == s2[s1.len() - 1].1@);
    }
}

/// Every entry of `new_entries` either carries `value` or is an entry of
/// `old_entries`; what `insert` promises of the stored entries.
pub open spec fn entries_from<K, T>(
    new_entries: Seq<(K, T)>,
    old_entries: Seq<(K, T)>,
    value: T,
) -> bool {
    forall|j: int|
        0 <= j < new_entries.len() ==> {
            ||| (#[trigger] new_entries[j]).1 == value
            ||| exists|j2: int| 0 <= j2 < old_entries.len() && new_entries[j] == old_entries[j2]
        }
}

/// Mapping from keys to values, stored as entries with pairwise distinct keys.
pub struct KvMap<K, T> {
    pub entries: Vec<(K, T)>,
}

impl<K: View, T: View> View for KvMap<K, T> {
    type V = Map<K::V, T::V>;

    open spec fn view(&self) -> Map<K::V, T::V> {
        map_of(self.entries@)
    }
}

impl<K: KeyView, T: View> KvMap<K, T> {
    /// Keys are pairwise distinct.
    pub open spec fn wf(self) -> bool {
        unique_keys(self.entries@)
    }

    pub open spec fn entries_seq(self) -> Seq<(K, T)> {
        self.entries@
    }

    pub fn new() -> (r: Self)
        ensures
            r.wf(),
            r@ == Map::<K::V, T::V>::empty(),
            r.entries_seq().len() == 0,
    {
        KvMap { entries: Vec::new() }
    }

    pub fn num_entries(&self) -> (r: usize)
        ensures
            r == self.entries_seq().len(),
    {
        self.entries.len()
    }

    pub fn entry_at(&self, i: usize) -> (r: &(K, T))
        requires
            i < self.entries_seq().len(),
        ensures
            *r == self.entries_seq()[i as int],
    {
        &self.entries[i]
    }

    /// Every entry is present in the mapping, at its own key.
    pub proof fn lemma_entry_in_view(&self, i: int)
        requires
            self.wf(),
            0 <= i < self.entries_seq().len(),
        ensures
            self@.contains_key(self.entries_seq()[i].0@),
            self@[self.entries_seq()[i].0@] == self.entries_seq()[i].1@,
    {
        lemma_map_of_index::<K, T>(self.entries@, i);
    }

    /// The mapping holds a key exactly when some entry carries it.
    pub proof fn lemma_contains(&self, k: K::V)
        ensures
            self@.contains_key(k) <==> exists|i: int|
                0 <= i < self.entries_seq().len() && self.entries_seq()[i].0@ == k,
    {
        lemma_map_of_contains::<K, T>(self.entries@, k);
        if exists|i: int| 0 <= i < self.entries@.len() && self.entries@[i].0@ == k {
            let i = choose|i: int| 0 <= i < self.entries@.len() && self.entries@[i].0@ == k;
            assert(self.entries_seq()[i].0@ == k);
        }
        if exists|i: int| 0 <= i < self.entries_seq().len() && self.entries_seq()[i].0@ == k {
            let i = choose|i: int|
                0 <= i < self.entries_seq().len() && self.entries_seq()[i].0@ == k;
            assert(self.entries@[i].0@ == k);
        }
    }

    pub fn get(&self, key: &K) -> (r: Option<&T>)
        requires
            self.wf(),
        ensures
            match r {
                Some(t) => self@.contains_key(key@) && t@ == self@[key@] && exists|i: int|
                    0 <= i < self.entries_seq().len() && (#[trigger] self.entries_seq()[i]).0@
                        == key@ && *t == self.entries_seq()[i].1,
                None => !self@.contains_key(key@),
            },
    {
        let n = self.entries.len();
        let mut i: usize = 0;
        while i < n
            invariant
                self.wf(),
                n == self.entries@.len(),
                0 <= i <= n,
                forall|j: int| 0 <= j < i ==> self.entries@[j].0@ != key@,
            decreases n - i,
        {
            if self.entries[i].0.key_eq(key) {
                proof {
                    lemma_map_of_index::<K, T>(self.entries@, i as int);
                    assert((self.entries_seq()[i as int]).0@ == key@);
                }
                return Some(&self.entries[i].1);
            }
            i += 1;
        }
        proof {
            lemma_map_of_contains::<K, T>(self.entries@, key@);
        }
        None
    }

    pub fn contains_key(&self, key: &K) -> (r: bool)
        requires
            self.wf(),
        ensures
            r == self@.contains_key(key@),
    {
        self.get(key).is_some()
    }

    pub fn insert(&mut self, key: K, value: T)
        requires
            old(self).wf(),
        ensures
            final(self).wf(),
            final(self)@ == old(self)@.insert(key@, value@),
            entries_from(final(self).entries_seq(), old(self).entries_seq(), value),
    {
        let n = self.entries.len();
        let mut i: usize = 0;
        while i < n
            invariant
                self.wf(),
                self == old(self),
                n == self.entries@.len(),
                0 <= i <= n,
                forall|j: int| 0 <= j < i ==> self.entries@[j].0@ != key@,
            decreases n - i,
        {
            if self.entries[i].0.key_eq(&key) {
                proof {
                    lemma_map_of_update::<K, T>(self.entries@, i as int, key, value);
                }
                self.entries.set(i, (key, value));
                proof {
                    assert forall|j: int| 0 <= j < self.entries@.len() implies {
                        ||| (#[trigger] self.entries@[j]).1 == value
                        ||| exists|j2: int|
                            0 <= j2 < old(self).entries@.len() && self.entries@[j] == old(
                                self,
                            ).entries@[j2]
                    } by {
                        if j != i as int {
                            assert(self.entries@[j] == old(self).entries@[j]);
                        }
                    }
                    assert(entries_from(self.entries@, old(self).entries@, value));
                }
                return ;
            }
            i += 1;
        }
        proof {
            lemma_map_of_push::<K, T>(self.entries@, key, value);
        }
        self.entries.push((key, value));
        proof {
            assert forall|j: int| 0 <= j < self.entries@.len() implies {
                ||| (#[trigger] self.entries@[j]).1 == value
                ||| exists|j2: int|
                    0 <= j2 < old(self).entries@.len() && self.entries@[j] == old(
                        self,
                    ).entries@[j2]
            } by {
                if j < old(self).entries@.len() {
                    assert(self.entries@[j] == old(self).entries@[j]);
                }
            }
            assert(entries_from(self.entries@, old(self).entries@, value));
        }
    }
}

impl KeyView for String {
    fn key_eq(&self, other: &Self) -> (r: bool)
        ensures
            r == (self@ == other@),
    {
        *self == *other
    }
}

} // verus!
