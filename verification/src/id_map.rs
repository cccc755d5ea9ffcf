//! Maps keyed by plugin ids.
//!
//! The cardinality wrappers that hold several plugins key them by a plugin id
//! of the caller's choosing. An [`IdMap`] stores its entries as a list of
//! `(id, value)` pairs in which no id occurs twice, and is viewed as a
//! mathematical map from the view of each id to its value.
//!
//! Ids are compared and copied through [`PluginId`], which says that two ids
//! are the same when their views are equal and that a copy has the view of
//! its original. Strings and the unsigned integer types are plugin ids.

use vstd::prelude::*;

verus! {

/// A type of plugin ids: ids are the same when their views are equal.
pub trait PluginId: View + Sized {
    /// Whether `self` and `other` name the same plugin.
    fn same_id(&self, other: &Self) -> (same: bool)
        ensures
            same == (self@ == other@),
    ;

    /// A copy of the id.
    fn copy_id(&self) -> (copy: Self)
        ensures
            copy@ == self@,
    ;
}

impl PluginId for String {
    fn same_id(&self, other: &Self) -> (same: bool) {
        *self == *other
    }

    fn copy_id(&self) -> (copy: Self) {
        self.clone()
    }
}

impl PluginId for u8 {
    fn same_id(&self, other: &Self) -> (same: bool) {
        *self == *other
    }

    fn copy_id(&self) -> (copy: Self) {
        *self
    }
}

impl PluginId for u16 {
    fn same_id(&self, other: &Self) -> (same: bool) {
        *self == *other
    }

    fn copy_id(&self) -> (copy: Self) {
        *self
    }
}

impl PluginId for u32 {
    fn same_id(&self, other: &Self) -> (same: bool) {
        *self == *other
    }

    fn copy_id(&self) -> (copy: Self) {
        *self
    }
}

impl PluginId for u64 {
    fn same_id(&self, other: &Self) -> (same: bool) {
        *self == *other
    }

    fn copy_id(&self) -> (copy: Self) {
        *self
    }
}

impl PluginId for usize {
    fn same_id(&self, other: &Self) -> (same: bool) {
        *self == *other
    }

    fn copy_id(&self) -> (copy: Self) {
        *self
    }
}

/// The map that a list of `(id, value)` pairs denotes when the pairs are
/// applied in order, a later pair replacing an earlier one with the same id.
pub open spec fn id_pairs_to_map<K: View, V>(pairs: Seq<(K, V)>) -> Map<K::V, V>
    decreases pairs.len(),
{
    if pairs.len() == 0 {
        Map::empty()
    } else {
        id_pairs_to_map(pairs.drop_last()).insert(pairs.last().0@, pairs.last().1)
    }
}

/// No id occurs twice in `pairs`.
pub open spec fn distinct_ids<K: View, V>(pairs: Seq<(K, V)>) -> bool {
    forall|i: int, j: int|
        0 <= i < pairs.len() && 0 <= j < pairs.len() && i != j ==> (#[trigger] pairs[i]).0@
            != (#[trigger] pairs[j]).0@
}

/// With distinct ids, the map holds exactly the listed pairs.
pub proof fn lemma_id_pairs_to_map_distinct<K: View, V>(pairs: Seq<(K, V)>)
    requires
        distinct_ids(pairs),
    ensures
        id_pairs_to_map(pairs).dom().finite(),
        id_pairs_to_map(pairs).len() == pairs.len(),
        forall|k: K::V|
            #[trigger] id_pairs_to_map(pairs).contains_key(k) <==> exists|i: int|
                0 <= i < pairs.len() && pairs[i].0@ == k,
        forall|i: int|
            0 <= i < pairs.len() ==> #[trigger] id_pairs_to_map(pairs)[pairs[i].0@] == pairs[i].1,
    decreases pairs.len(),
{
    if pairs.len() > 0 {
        let init = pairs.drop_last();
        assert(distinct_ids(init)) by {
            assert forall|i: int, j: int|
                0 <= i < init.len() && 0 <= j < init.len() && i != j implies (#[trigger] init[i]).0@
                != (#[trigger] init[j]).0@ by {
                assert(init[i] == pairs[i]);
                assert(init[j] == pairs[j]);
            }
        }
        lemma_id_pairs_to_map_distinct(init);
        let last = pairs.last();
        assert(!id_pairs_to_map(init).contains_key(last.0@)) by {
            if id_pairs_to_map(init).contains_key(last.0@) {
                let i = choose|i: int| 0 <= i < init.len() && init[i].0@ == last.0@;
                assert(pairs[i].0@ == pairs[pairs.len() - 1].0@);
            }
        }
        assert forall|k: K::V|
            #[trigger] id_pairs_to_map(pairs).contains_key(k) <==> exists|i: int|
                0 <= i < pairs.len() && pairs[i].0@ == k by {
            if id_pairs_to_map(pairs).contains_key(k) {
                if k == last.0@ {
                    assert(pairs[pairs.len() - 1].0@ == k);
                } else {
                    let i = choose|i: int| 0 <= i < init.len() && init[i].0@ == k;
                    assert(pairs[i].0@ == k);
                }
            }
            if exists|i: int| 0 <= i < pairs.len() && pairs[i].0@ == k {
                let i = choose|i: int| 0 <= i < pairs.len() && pairs[i].0@ == k;
                if i < pairs.len() - 1 {
                    assert(init[i].0@ == k);
                }
            }
        }
        assert forall|i: int|
            0 <= i < pairs.len() implies #[trigger] id_pairs_to_map(pairs)[pairs[i].0@]
            == pairs[i].1 by {
            if i < pairs.len() - 1 {
                assert(init[i] == pairs[i]);
                assert(pairs[i].0@ != last.0@);
            }
        }
    }
}

/// A map from plugin ids to values in which every id occurs once.
#[derive(Debug)]
pub struct IdMap<K: View, V> {
    entries: Vec<(K, V)>,
}

impl<K: View, V> View for IdMap<K, V> {
    type V = Map<K::V, V>;

    closed spec fn view(&self) -> Map<K::V, V> {
        id_pairs_to_map(self.entries@)
    }
}

impl<K: View, V> IdMap<K, V> {
    #[verifier::type_invariant]
    closed spec fn ids_are_distinct(self) -> bool {
        distinct_ids(self.entries@)
    }

    /// The entries in the order in which the map lists them.
    pub closed spec fn spec_entries(&self) -> Seq<(K, V)> {
        self.entries@
    }

    proof fn lemma_view(&self)
        requires
            distinct_ids(self.entries@),
        ensures
            self@.dom().finite(),
            self@.len() == self.entries@.len(),
            forall|k: K::V|
                #[trigger] self@.contains_key(k) <==> exists|i: int|
                    0 <= i < self.entries@.len() && self.entries@[i].0@ == k,
            forall|i: int|
                0 <= i < self.entries@.len() ==> #[trigger] self@[self.entries@[i].0@]
                    == self.entries@[i].1,
    {
        lemma_id_pairs_to_map_distinct(self.entries@);
    }

    /// Creates an empty map.
    pub fn new() -> (map: Self)
        ensures
            map@ == Map::<K::V, V>::empty(),
    {
        IdMap { entries: Vec::new() }
    }

    /// The number of ids in the map.
    pub fn len(&self) -> (n: usize)
        ensures
            n == self@.len(),
    {
        proof {
            use_type_invariant(self);
            self.lemma_view();
        }
        self.entries.len()
    }

    /// Whether the map holds no id.
    pub fn is_empty(&self) -> (empty: bool)
        ensures
            empty == (self@.len() == 0),
    {
        proof {
            use_type_invariant(self);
            self.lemma_view();
        }
        self.entries.len() == 0
    }

    /// The entry at position `index`; positions `0..len()` list every entry
    /// once.
    pub fn entry_at(&self, index: usize) -> (entry: (&K, &V))
        requires
            index < self@.len(),
        ensures
            self@.contains_key((*entry.0)@),
            *entry.1 == self@[(*entry.0)@],
            *entry.0 == self.spec_entries()[index as int].0,
            *entry.1 == self.spec_entries()[index as int].1,
    {
        proof {
            use_type_invariant(self);
            self.lemma_view();
        }
        let e = &self.entries[index];
        (&e.0, &e.1)
    }

    /// The pairs of the map, each once.
    pub fn into_pairs(self) -> (pairs: Vec<(K, V)>)
        ensures
            distinct_ids(pairs@),
            id_pairs_to_map(pairs@) == self@,
    {
        proof {
            use_type_invariant(&self);
        }
        self.entries
    }
}

impl<K: PluginId, V> IdMap<K, V> {
    /// The position of `id` among the entries, if the map holds it.
    fn position(&self, id: &K) -> (pos: Option<usize>)
        requires
        ensures
            match pos {
                Some(i) => i < self.entries@.len() && self.entries@[i as int].0@ == id@,
                None => forall|i: int| 0 <= i < self.entries@.len() ==> self.entries@[i].0@ != id@,
            },
    {
        let mut i: usize = 0;
        while i < self.entries.len()
            invariant
                i <= self.entries@.len(),
                forall|j: int| 0 <= j < i ==> self.entries@[j].0@ != id@,
            decreases self.entries@.len() - i,
        {
            if self.entries[i].0.same_id(id) {
                return Some(i);
            }
            i = i + 1;
        }
        None
    }

    /// The value stored under `id`, if any.
    pub fn get(&self, id: &K) -> (value: Option<&V>)
        requires
        ensures
            match value {
                Some(v) => self@.contains_key(id@) && *v == self@[id@],
                None => !self@.contains_key(id@),
            },
    {
        proof {
            use_type_invariant(self);
            self.lemma_view();
        }
        match self.position(id) {
            Some(i) => Some(&self.entries[i].1),
            None => None,
        }
    }

    /// Stores `value` under `id`, replacing and returning the value that was
    /// stored there before.
    pub fn insert(&mut self, id: K, value: V) -> (previous: Option<V>)
        requires
        ensures
            final(self)@ == old(self)@.insert(id@, value),
            match previous {
                Some(v) => old(self)@.contains_key(id@) && v == old(self)@[id@],
                None => !old(self)@.contains_key(id@),
            },
    {
        proof {
            use_type_invariant(&*self);
            self.lemma_view();
        }
        let ghost old_entries = self.entries@;
        let found = self.position(&id);
        let mut entries: Vec<(K, V)> = Vec::new();
        std::mem::swap(&mut entries, &mut self.entries);
        match found {
            Some(i) => {
                let (_, old_value) = entries.remove(i);
                entries.insert(i, (id, value));
                proof {
                    let new_entries = entries@;
                    assert(new_entries == old_entries.update(i as int, (id, value)));
                    assert(distinct_ids(new_entries)) by {
                        assert forall|a: int, b: int|
                            0 <= a < new_entries.len() && 0 <= b < new_entries.len() && a
                                != b implies (#[trigger] new_entries[a]).0@
                            != (#[trigger] new_entries[b]).0@ by {
                            assert(old_entries[a].0@ != old_entries[b].0@);
                        }
                    }
                    lemma_id_pairs_to_map_distinct(new_entries);
                    lemma_id_pairs_to_map_distinct(old_entries);
                    assert(id_pairs_to_map(new_entries) =~= id_pairs_to_map(old_entries).insert(
                        id@,
                        value,
                    )) by {
                        assert forall|k: K::V|
                            id_pairs_to_map(new_entries).contains_key(k) <==> id_pairs_to_map(
                                old_entries,
                            ).insert(id@, value).contains_key(k) by {
                            if id_pairs_to_map(new_entries).contains_key(k) {
                                let j = choose|j: int|
                                    0 <= j < new_entries.len() && new_entries[j].0@ == k;
                                if j != i {
                                    assert(old_entries[j].0@ == k);
                                }
                            }
                            if id_pairs_to_map(old_entries).contains_key(k) && k != id@ {
                                let j = choose|j: int|
                                    0 <= j < old_entries.len() && old_entries[j].0@ == k;
                                assert(new_entries[j].0@ == k);
                            }
                            if k == id@ {
                                assert(new_entries[i as int].0@ == k);
                            }
                        }
                        assert forall|k: K::V|
                            #[trigger] id_pairs_to_map(new_entries).contains_key(k) implies id_pairs_to_map(
                            new_entries,
                        )[k] == id_pairs_to_map(old_entries).insert(id@, value)[k] by {
                            let j = choose|j: int|
                                0 <= j < new_entries.len() && new_entries[j].0@ == k;
                            assert(id_pairs_to_map(new_entries)[new_entries[j].0@] == new_entries[j].1);
                            if j != i {
                                assert(id_pairs_to_map(old_entries)[old_entries[j].0@]
                                    == old_entries[j].1);
                            }
                        }
                    }
                }
                self.entries = entries;
                Some(old_value)
            },
            None => {
                entries.push((id, value));
                proof {
                    let new_entries = entries@;
                    assert(new_entries.drop_last() == old_entries);
                    assert(distinct_ids(new_entries)) by {
                        assert forall|a: int, b: int|
                            0 <= a < new_entries.len() && 0 <= b < new_entries.len() && a
                                != b implies (#[trigger] new_entries[a]).0@
                            != (#[trigger] new_entries[b]).0@ by {
                            if a < old_entries.len() && b < old_entries.len() {
                                assert(old_entries[a].0@ != old_entries[b].0@);
                            }
                        }
                    }
                }
                self.entries = entries;
                None
            },
        }
    }

    /// Builds a map from `(id, value)` pairs; where an id occurs more than
    /// once, the last pair wins.
    pub fn from_pairs(pairs: Vec<(K, V)>) -> (map: Self)
        requires
        ensures
            map@ == id_pairs_to_map(pairs@),
    {
        let mut map = IdMap::new();
        let mut rest = pairs;
        let ghost all = rest@;
        let ghost mut taken: int = 0;
        while rest.len() > 0
            invariant
                0 <= taken <= all.len(),
                rest@ == all.subrange(taken, all.len() as int),
                map@ == id_pairs_to_map(all.take(taken)),
            decreases rest@.len(),
        {
            let (id, value) = rest.remove(0);
            proof {
                assert(all.take(taken + 1).drop_last() == all.take(taken));
                assert(all.take(taken + 1).last() == all[taken]);
            }
            map.insert(id, value);
            proof {
                taken = taken + 1;
                assert(rest@ == all.subrange(taken, all.len() as int));
            }
        }
        proof {
            assert(all.take(all.len() as int) == all);
        }
        map
    }

    /// Applies `f` to every `(id, value)` pair, keeping the ids.
    pub fn map_ref<N, F: Fn(&K, &V) -> N>(&self, f: F) -> (mapped: IdMap<K, N>)
        requires
            forall|k: &K, v: &V|
                self@.contains_key(k@) && self@[k@] == *v ==> #[trigger] f.requires((k, v)),
        ensures
            mapped@.dom() == self@.dom(),
            mapped@.len() == self@.len(),
            forall|k: K::V| #[trigger]
                self@.contains_key(k) ==> exists|id: K|
                    id@ == k && f.ensures((&id, &self@[k]), mapped@[k]),
    {
        proof {
            use_type_invariant(self);
            self.lemma_view();
        }
        let mut entries: Vec<(K, N)> = Vec::new();
        let mut i: usize = 0;
        while i < self.entries.len()
            invariant
                i <= self.entries@.len(),
                entries@.len() == i,
                forall|k: &K, v: &V|
                    self@.contains_key(k@) && self@[k@] == *v ==> #[trigger] f.requires((k, v)),
                forall|j: int|
                    0 <= j < self.entries@.len() ==> #[trigger] self@[self.entries@[j].0@]
                        == self.entries@[j].1,
                forall|j: int|
                    0 <= j < self.entries@.len() ==> self@.contains_key(
                        (#[trigger] self.entries@[j]).0@,
                    ),
                forall|j: int|
                    0 <= j < i ==> #[trigger] entries@[j].0@ == self.entries@[j].0@ && f.ensures(
                        (&self.entries@[j].0, &self.entries@[j].1),
                        entries@[j].1,
                    ),
            decreases self.entries@.len() - i,
        {
            proof {
                assert(self@.contains_key(self.entries@[i as int].0@));
                assert(self@[self.entries@[i as int].0@] == self.entries@[i as int].1);
            }
            let id = self.entries[i].0.copy_id();
            let value = f(&self.entries[i].0, &self.entries[i].1);
            entries.push((id, value));
            i = i + 1;
        }
        proof {
            let mapped = IdMap { entries };
            assert(distinct_ids(entries@)) by {
                assert forall|a: int, b: int|
                    0 <= a < entries@.len() && 0 <= b < entries@.len() && a
                        != b implies (#[trigger] entries@[a]).0@ != (#[trigger] entries@[b]).0@ by {
                    assert(self.entries@[a].0@ != self.entries@[b].0@);
                }
            }
            lemma_id_pairs_to_map_distinct(entries@);
            assert forall|k: K::V|
                #[trigger] self@.contains_key(k) implies id_pairs_to_map(entries@).contains_key(k) by {
                let j = choose|j: int| 0 <= j < self.entries@.len() && self.entries@[j].0@ == k;
                assert(entries@[j].0@ == k);
            }
            assert forall|k: K::V|
                #[trigger] id_pairs_to_map(entries@).contains_key(k) implies self@.contains_key(k) by {
                let j = choose|j: int| 0 <= j < entries@.len() && entries@[j].0@ == k;
                assert(self.entries@[j].0@ == k);
            }
            assert(id_pairs_to_map(entries@).dom() =~= self@.dom());
            assert forall|k: K::V|
                #[trigger] self@.contains_key(k) implies exists|id: K|
                id@ == k && f.ensures((&id, &self@[k]), id_pairs_to_map(entries@)[k]) by {
                let j = choose|j: int| 0 <= j < self.entries@.len() && self.entries@[j].0@ == k;
                assert(entries@[j].0@ == k);
                assert(self@[self.entries@[j].0@] == self.entries@[j].1);
                assert(id_pairs_to_map(entries@)[entries@[j].0@] == entries@[j].1);
                assert(f.ensures((&self.entries@[j].0, &self@[k]), id_pairs_to_map(entries@)[k]));
            }
        }
        IdMap { entries }
    }
}

impl<K: View, V> IdMap<K, V> {
    /// Applies `f` to every value, consuming the map and keeping the ids.
    pub fn map_owned<N, F: Fn(V) -> N>(self, f: F) -> (mapped: IdMap<K, N>)
        requires
            forall|k: K::V| #[trigger] self@.contains_key(k) ==> f.requires((self@[k],)),
        ensures
            mapped@.dom() == self@.dom(),
            mapped@.len() == self@.len(),
            forall|k: K::V| #[trigger] self@.contains_key(k) ==> f.ensures((self@[k],), mapped@[k]),
    {
        proof {
            use_type_invariant(&self);
            self.lemma_view();
        }
        let ghost initial = self.entries@;
        let ghost model = self@;
        proof {
            assert forall|j: int| 0 <= j < initial.len() implies model.contains_key(
                (#[trigger] initial[j]).0@,
            ) && model[initial[j].0@] == initial[j].1 by {
                assert(model[self.entries@[j].0@] == self.entries@[j].1);
            }
        }
        let mut rest = self.entries;
        let mut entries: Vec<(K, N)> = Vec::new();
        while rest.len() > 0
            invariant
                forall|k: K::V| #[trigger] model.contains_key(k) ==> f.requires((model[k],)),
                forall|j: int|
                    0 <= j < initial.len() ==> model.contains_key((#[trigger] initial[j]).0@)
                        && model[initial[j].0@] == initial[j].1,
                entries@.len() + rest@.len() == initial.len(),
                rest@ == initial.subrange(entries@.len() as int, initial.len() as int),
                forall|j: int|
                    0 <= j < entries@.len() ==> #[trigger] entries@[j].0 == initial[j].0 && f.ensures(
                        (initial[j].1,),
                        entries@[j].1,
                    ),
            decreases rest@.len(),
        {
            let ghost done = entries@.len() as int;
            let (id, value) = rest.remove(0);
            proof {
                assert(initial[done] == (id, value));
                assert(model.contains_key(initial[done].0@));
            }
            let mapped_value = f(value);
            entries.push((id, mapped_value));
            proof {
                assert(rest@ == initial.subrange(entries@.len() as int, initial.len() as int));
            }
        }
        proof {
            assert(distinct_ids(entries@)) by {
                assert forall|a: int, b: int|
                    0 <= a < entries@.len() && 0 <= b < entries@.len() && a
                        != b implies (#[trigger] entries@[a]).0@ != (#[trigger] entries@[b]).0@ by {
                    assert(initial[a].0@ != initial[b].0@);
                }
            }
            lemma_id_pairs_to_map_distinct(entries@);
            lemma_id_pairs_to_map_distinct(initial);
            assert forall|k: K::V|
                #[trigger] id_pairs_to_map(initial).contains_key(k) implies id_pairs_to_map(entries@).contains_key(k) by {
                let j = choose|j: int| 0 <= j < initial.len() && initial[j].0@ == k;
                assert(entries@[j].0@ == k);
            }
            assert forall|k: K::V|
                #[trigger] id_pairs_to_map(entries@).contains_key(k) implies id_pairs_to_map(initial).contains_key(k) by {
                let j = choose|j: int| 0 <= j < entries@.len() && entries@[j].0@ == k;
                assert(initial[j].0@ == k);
            }
            assert(id_pairs_to_map(entries@).dom() =~= id_pairs_to_map(initial).dom());
            assert forall|k: K::V|
                #[trigger] id_pairs_to_map(initial).contains_key(k) implies f.ensures(
                (id_pairs_to_map(initial)[k],),
                id_pairs_to_map(entries@)[k],
            ) by {
                let j = choose|j: int| 0 <= j < initial.len() && initial[j].0@ == k;
                assert(entries@[j].0@ == k);
                assert(id_pairs_to_map(initial)[initial[j].0@] == initial[j].1);
                assert(id_pairs_to_map(entries@)[entries@[j].0@] == entries@[j].1);
            }
        }
        IdMap { entries }
    }
}

impl<K: PluginId, V: Clone> Clone for IdMap<K, V> {
    /// A copy with the same ids, each value cloned.
    fn clone(&self) -> (copy: Self)
        ensures
            copy@.dom() == self@.dom(),
            forall|k: K::V| #[trigger] self@.contains_key(k) ==> cloned::<V>(self@[k], copy@[k]),
    {
        self.map_ref(clone_entry_value::<K, V>)
    }
}

/// Clones the value of an entry.
fn clone_entry_value<K, V: Clone>(_id: &K, value: &V) -> (copy: V)
    ensures
        cloned::<V>(*value, copy),
{
    value.clone()
}

} // verus!
