//! Finite maps from keys to values.
use vstd::prelude::*;

verus! {

/// A key: a small value that can be told apart from another by what it stands for.
pub trait MapKey: View + Copy {
    fn same_key(&self, other: &Self) -> (same: bool)
        ensures
            same == (self@ == other@),
    ;
}

/// A value that can be copied in full and told apart from another.
pub trait MapValue: View + Sized {
    fn duplicate(&self) -> (copy: Self)
        ensures
            copy@ == self@,
    ;

    fn same_value(&self, other: &Self) -> (same: bool)
        ensures
            same == (self@ == other@),
    ;
}

/// What a list of entries maps each key to; the last entry of a key counts.
pub open spec fn entries_map<K: View, V: View>(entries: Seq<(K, V)>) -> Map<K::V, V::V>
    decreases entries.len(),
{
    if entries.len() == 0 {
        Map::empty()
    } else {
        entries_map(entries.drop_last()).insert(entries.last().0@, entries.last().1@)
    }
}

/// No key occurs twice.
pub open spec fn distinct_keys<K: View, V>(entries: Seq<(K, V)>) -> bool {
    forall|i: int, j: int|
        0 <= i < j < entries.len() ==> (#[trigger] entries[i]).0@ != (#[trigger] entries[j]).0@
}

/// An entry of a list without repeated keys is what its key maps to.
proof fn lemma_entry<K: View, V: View>(entries: Seq<(K, V)>, i: int)
    requires
        distinct_keys(entries),
        0 <= i < entries.len(),
    ensures
        entries_map(entries).contains_key(entries[i].0@),
        entries_map(entries)[entries[i].0@] == entries[i].1@,
    decreases entries.len(),
{
    if i < entries.len() - 1 {
        assert(entries.drop_last()[i] == entries[i]);
        assert(entries[i].0@ != entries[entries.len() - 1].0@);
        lemma_entry(entries.drop_last(), i);
    }
}

/// A key that is mapped stands in some entry.
proof fn lemma_key_has_entry<K: View, V: View>(entries: Seq<(K, V)>, k: K::V) -> (i: int)
    requires
        entries_map(entries).contains_key(k),
    ensures
        0 <= i < entries.len(),
        entries[i].0@ == k,
    decreases entries.len(),
{
    if entries.last().0@ == k {
        entries.len() - 1
    } else {
        let i = lemma_key_has_entry(entries.drop_last(), k);
        assert(entries.drop_last()[i] == entries[i]);
        i
    }
}

proof fn lemma_finite<K: View, V: View>(entries: Seq<(K, V)>)
    ensures
        entries_map(entries).dom().finite(),
    decreases entries.len(),
{
    if entries.len() > 0 {
        lemma_finite(entries.drop_last());
    }
}

/// A list without repeated keys maps as many keys as it has entries.
proof fn lemma_key_count<K: View, V: View>(entries: Seq<(K, V)>)
    requires
        distinct_keys(entries),
    ensures
        entries_map(entries).dom().len() == entries.len(),
    decreases entries.len(),
{
    if entries.len() > 0 {
        let rest = entries.drop_last();
        let k = entries.last().0@;
        assert(distinct_keys(rest)) by {
            assert forall|i: int, j: int| 0 <= i < j < rest.len() implies (#[trigger] rest[i]).0@
                != (#[trigger] rest[j]).0@ by {
                assert(entries[i].0@ != entries[j].0@);
            }
        }
        lemma_key_count(rest);
        lemma_finite(rest);
        if entries_map(rest).contains_key(k) {
            let i = lemma_key_has_entry(rest, k);
            assert(entries[i].0@ != entries[entries.len() - 1].0@);
        }
        assert(entries_map(entries).dom() =~= entries_map(rest).dom().insert(k));
    }
}

/// Replacing the value of an entry changes what its key maps to, and nothing else.
proof fn lemma_replace<K: View, V: View>(entries: Seq<(K, V)>, i: int, entry: (K, V))
    requires
        distinct_keys(entries),
        0 <= i < entries.len(),
        entries[i].0@ == entry.0@,
    ensures
        distinct_keys(entries.update(i, entry)),
        entries_map(entries.update(i, entry)) == entries_map(entries).insert(entry.0@, entry.1@),
    decreases entries.len(),
{
    let changed = entries.update(i, entry);
    if i == entries.len() - 1 {
        assert(changed.drop_last() =~= entries.drop_last());
        assert(entries_map(changed) =~= entries_map(entries).insert(entry.0@, entry.1@));
    } else {
        assert(changed.drop_last() =~= entries.drop_last().update(i, entry));
        assert(entries.drop_last()[i] == entries[i]);
        assert(entries[i].0@ != entries[entries.len() - 1].0@);
        assert(changed.last() == entries.last());
        lemma_replace(entries.drop_last(), i, entry);
        assert(entries_map(changed) =~= entries_map(entries).insert(entry.0@, entry.1@));
    }
}

/// Taking an entry out unmaps its key, and nothing else.
proof fn lemma_take_out<K: View, V: View>(entries: Seq<(K, V)>, i: int)
    requires
        distinct_keys(entries),
        0 <= i < entries.len(),
    ensures
        distinct_keys(entries.remove(i)),
        entries_map(entries.remove(i)) == entries_map(entries).remove(entries[i].0@),
    decreases entries.len(),
{
    let left = entries.remove(i);
    let k = entries[i].0@;
    if i == entries.len() - 1 {
        assert(left =~= entries.drop_last());
        if entries_map(left).contains_key(k) {
            let j = lemma_key_has_entry(left, k);
            assert(entries[j].0@ != entries[i].0@);
        }
        assert(entries_map(left) =~= entries_map(entries).remove(k));
    } else {
        assert(left.drop_last() =~= entries.drop_last().remove(i));
        assert(left.last() == entries.last());
        assert(entries.drop_last()[i] == entries[i]);
        assert(entries[i].0@ != entries[entries.len() - 1].0@);
        lemma_take_out(entries.drop_last(), i);
        assert(entries_map(left) =~= entries_map(entries).remove(k));
    }
}

/// A finite map, held as a list of entries in which no key occurs twice.
#[derive(Debug)]
pub struct KeyedMap<K: MapKey, V: View> {
    entries: Vec<(K, V)>,
}

impl<K: MapKey, V: View> View for KeyedMap<K, V> {
    type V = Map<K::V, V::V>;

    closed spec fn view(&self) -> Map<K::V, V::V> {
        entries_map(self.entries@)
    }
}

impl<K: MapKey, V: View> KeyedMap<K, V> {
    #[verifier::type_invariant]
    spec fn no_repeated_key(self) -> bool {
        distinct_keys(self.entries@)
    }

    /// The entries in the order in which they are held.
    pub closed spec fn listed(&self) -> Seq<(K, V)> {
        self.entries@
    }

    pub fn new() -> (map: Self)
        ensures
            map@ == Map::<K::V, V::V>::empty(),
    {
        KeyedMap { entries: Vec::new() }
    }

    /// The number of entries.
    pub fn len(&self) -> (count: usize)
        ensures
            count == self.listed().len(),
            count == self@.dom().len(),
    {
        proof {
            use_type_invariant(self);
            lemma_key_count(self.entries@);
        }
        self.entries.len()
    }

    /// The entry at a place of the list.
    pub fn entry(&self, i: usize) -> (entry: (&K, &V))
        requires
            i < self.listed().len(),
        ensures
            *entry.0 == self.listed()[i as int].0,
            *entry.1 == self.listed()[i as int].1,
            self@.contains_key(entry.0@),
            self@[entry.0@] == entry.1@,
    {
        proof {
            use_type_invariant(self);
            lemma_entry(self.entries@, i as int);
        }
        (&self.entries[i].0, &self.entries[i].1)
    }

    /// The place of a key in the list.
    fn find(&self, key: &K) -> (place: Option<usize>)
        ensures
            match place {
                Some(i) => i < self.entries@.len() && self.entries@[i as int].0@ == key@,
                None => !self@.contains_key(key@),
            },
    {
        let mut i: usize = 0;
        while i < self.entries.len()
            invariant
                i <= self.entries@.len(),
                forall|j: int| 0 <= j < i ==> (#[trigger] self.entries@[j]).0@ != key@,
            decreases self.entries@.len() - i,
        {
            if self.entries[i].0.same_key(key) {
                return Some(i);
            }
            i = i + 1;
        }
        proof {
            if self@.contains_key(key@) {
                let j = lemma_key_has_entry(self.entries@, key@);
                assert(self.entries@[j].0@ != key@);
            }
        }
        None
    }

    /// What a key maps to.
    pub fn get(&self, key: &K) -> (found: Option<&V>)
        ensures
            found is Some <==> self@.contains_key(key@),
            found matches Some(value) ==> value@ == self@[key@],
    {
        proof {
            use_type_invariant(self);
        }
        match self.find(key) {
            Some(i) => {
                proof {
                    lemma_entry(self.entries@, i as int);
                }
                Some(&self.entries[i].1)
            },
            None => None,
        }
    }

    pub fn contains_key(&self, key: &K) -> (present: bool)
        ensures
            present == self@.contains_key(key@),
    {
        self.get(key).is_some()
    }

    /// Maps `key` to `value`, in place of what it mapped to before.
    pub fn insert(&mut self, key: K, value: V)
        ensures
            final(self)@ == old(self)@.insert(key@, value@),
    {
        proof {
            use_type_invariant(&*self);
        }
        let place = self.find(&key);
        let mut entries: Vec<(K, V)> = Vec::new();
        std::mem::swap(&mut entries, &mut self.entries);
        let ghost before = entries@;
        match place {
            Some(i) => {
                proof {
                    lemma_replace(before, i as int, (key, value));
                }
                entries.set(i, (key, value));
            },
            None => {
                proof {
                    assert forall|i: int| 0 <= i < before.len() implies (#[trigger] before[i]).0@
                        != key@ by {
                        lemma_entry(before, i);
                    }
                    assert(before.push((key, value)).drop_last() =~= before);
                }
                entries.push((key, value));
            },
        }
        self.entries = entries;
    }

    /// Unmaps `key`.
    pub fn remove(&mut self, key: &K)
        ensures
            final(self)@ == old(self)@.remove(key@),
    {
        proof {
            use_type_invariant(&*self);
        }
        let place = self.find(key);
        match place {
            Some(i) => {
                let mut entries: Vec<(K, V)> = Vec::new();
                std::mem::swap(&mut entries, &mut self.entries);
                proof {
                    lemma_take_out(entries@, i as int);
                }
                let _ = entries.remove(i);
                self.entries = entries;
            },
            None => {
                assert(self@.remove(key@) =~= self@);
            },
        }
    }
}

/// Every mapped key is listed.
pub proof fn lemma_mapped_key_is_listed<K: MapKey, V: View>(map: KeyedMap<K, V>, k: K::V) -> (i:
    int)
    requires
        map@.contains_key(k),
    ensures
        0 <= i < map.listed().len(),
        map.listed()[i].0@ == k,
{
    lemma_key_has_entry(map.listed(), k)
}

/// A map has finitely many keys.
pub proof fn lemma_map_finite<K: MapKey, V: View>(map: KeyedMap<K, V>)
    ensures
        map@.dom().finite(),
{
    lemma_finite(map.entries@);
}

impl<K: MapKey, V: MapValue> KeyedMap<K, V> {
    /// Whether every entry of `self` is one of `other`.
    fn within(&self, other: &Self) -> (within: bool)
        ensures
            within == self@.submap_of(other@),
    {
        let mut i: usize = 0;
        while i < self.len()
            invariant
                i <= self.listed().len(),
                forall|j: int|
                    0 <= j < i ==> other@.contains_key((#[trigger] self.listed()[j]).0@)
                        && other@[self.listed()[j].0@] == self@[self.listed()[j].0@],
            decreases self.listed().len() - i,
        {
            let (key, value) = self.entry(i);
            match other.get(key) {
                Some(found) => {
                    if !found.same_value(value) {
                        assert(self@.dom().contains(key@));
                        return false;
                    }
                },
                None => {
                    assert(self@.dom().contains(key@));
                    return false;
                },
            }
            i = i + 1;
        }
        proof {
            assert forall|k: K::V| #[trigger] self@.dom().contains(k) implies other@.dom().contains(
                k,
            ) && self@[k] == other@[k] by {
                let j = lemma_key_has_entry(self.entries@, k);
                assert(self.listed()[j].0@ == k);
            }
        }
        true
    }
}

impl<K: MapKey, V: MapValue> vstd::std_specs::cmp::PartialEqSpecImpl for KeyedMap<K, V> {
    open spec fn obeys_eq_spec() -> bool {
        true
    }

    open spec fn eq_spec(&self, other: &Self) -> bool {
        self@ == other@
    }
}

impl<K: MapKey, V: MapValue> PartialEq for KeyedMap<K, V> {
    /// Whether two maps map the same keys to the same values.
    fn eq(&self, other: &Self) -> (same: bool) {
        let same = self.within(other) && other.within(self);
        proof {
            if same {
                assert forall|k: K::V| #[trigger] self@.contains_key(k) == other@.contains_key(k) by {
                    assert(self@.dom().contains(k) ==> other@.dom().contains(k));
                    assert(other@.dom().contains(k) ==> self@.dom().contains(k));
                }
                assert(self@ =~= other@);
            }
        }
        same
    }
}

impl<K: MapKey, V: MapValue> Eq for KeyedMap<K, V> {

}

impl<K: MapKey, V: MapValue> Clone for KeyedMap<K, V> {
    fn clone(&self) -> (copy: Self)
        ensures
            copy@ == self@,
    {
        let mut entries: Vec<(K, V)> = Vec::new();
        let mut i: usize = 0;
        proof {
            use_type_invariant(self);
        }
        while i < self.entries.len()
            invariant
                i <= self.entries@.len(),
                entries@.len() == i,
                distinct_keys(self.entries@),
                forall|j: int|
                    0 <= j < i ==> (#[trigger] entries@[j]).0 == self.entries@[j].0 && entries@[j].1@
                        == self.entries@[j].1@,
            decreases self.entries@.len() - i,
        {
            entries.push((self.entries[i].0, self.entries[i].1.duplicate()));
            i = i + 1;
        }
        proof {
            lemma_same_views(entries@, self.entries@);
        }
        KeyedMap { entries }
    }
}

/// Lists that agree entry by entry in what they stand for are the same map.
proof fn lemma_same_views<K: View, V: View>(a: Seq<(K, V)>, b: Seq<(K, V)>)
    requires
        a.len() == b.len(),
        forall|j: int| 0 <= j < a.len() ==> (#[trigger] a[j]).0 == b[j].0 && a[j].1@ == b[j].1@,
        distinct_keys(b),
    ensures
        distinct_keys(a),
        entries_map(a) == entries_map(b),
    decreases a.len(),
{
    assert forall|i: int, j: int| 0 <= i < j < a.len() implies (#[trigger] a[i]).0@ != (
    #[trigger] a[j]).0@ by {
        assert(b[i].0@ != b[j].0@);
    }
    if a.len() > 0 {
        assert forall|j: int| 0 <= j < a.drop_last().len() implies (#[trigger] a.drop_last()[j]).0
            == b.drop_last()[j].0 && a.drop_last()[j].1@ == b.drop_last()[j].1@ by {
            assert(a[j].0 == b[j].0);
        }
        assert(distinct_keys(b.drop_last())) by {
            assert forall|i: int, j: int| 0 <= i < j < b.drop_last().len() implies (
            #[trigger] b.drop_last()[i]).0@ != (#[trigger] b.drop_last()[j]).0@ by {
                assert(b[i].0@ != b[j].0@);
            }
        }
        lemma_same_views(a.drop_last(), b.drop_last());
        assert(a[a.len() - 1].0 == b[b.len() - 1].0);
    }
}

} // verus!
