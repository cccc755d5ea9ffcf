//! Maps keyed by names.
//!
//! Interfaces, functions and remap tables are all looked up by name. A
//! [`NameMap`] stores its entries as a list of `(name, value)` pairs in which
//! no name occurs twice, and is viewed as a mathematical map from the name's
//! characters to the value.

use vstd::prelude::*;

verus! {

/// The map that a list of `(name, value)` pairs denotes when the pairs are
/// applied in order, a later pair replacing an earlier one with the same name.
pub open spec fn pairs_to_map<V>(pairs: Seq<(String, V)>) -> Map<Seq<char>, V>
    decreases pairs.len(),
{
    if pairs.len() == 0 {
        Map::empty()
    } else {
        pairs_to_map(pairs.drop_last()).insert(pairs.last().0@, pairs.last().1)
    }
}

/// No name occurs twice in `pairs`.
pub open spec fn distinct_names<V>(pairs: Seq<(String, V)>) -> bool {
    forall|i: int, j: int|
        0 <= i < pairs.len() && 0 <= j < pairs.len() && i != j ==> #[trigger] pairs[i].0@
            != #[trigger] pairs[j].0@
}

/// With distinct names, the map holds exactly the listed pairs.
pub proof fn lemma_pairs_to_map_distinct<V>(pairs: Seq<(String, V)>)
    requires
        distinct_names(pairs),
    ensures
        pairs_to_map(pairs).dom().finite(),
        pairs_to_map(pairs).len() == pairs.len(),
        forall|k: Seq<char>|
            #[trigger] pairs_to_map(pairs).contains_key(k) <==> exists|i: int|
                0 <= i < pairs.len() && pairs[i].0@ == k,
        forall|i: int|
            0 <= i < pairs.len() ==> #[trigger] pairs_to_map(pairs)[pairs[i].0@] == pairs[i].1,
    decreases pairs.len(),
{
    if pairs.len() > 0 {
        let init = pairs.drop_last();
        assert(distinct_names(init)) by {
            assert forall|i: int, j: int|
                0 <= i < init.len() && 0 <= j < init.len() && i != j implies #[trigger] init[i].0@
                != #[trigger] init[j].0@ by {
                assert(init[i] == pairs[i]);
                assert(init[j] == pairs[j]);
            }
        }
        lemma_pairs_to_map_distinct(init);
        let last = pairs.last();
        assert(!pairs_to_map(init).contains_key(last.0@)) by {
            if pairs_to_map(init).contains_key(last.0@) {
                let i = choose|i: int| 0 <= i < init.len() && init[i].0@ == last.0@;
                assert(pairs[i].0@ == pairs[pairs.len() - 1].0@);
            }
        }
        assert forall|k: Seq<char>|
            #[trigger] pairs_to_map(pairs).contains_key(k) <==> exists|i: int|
                0 <= i < pairs.len() && pairs[i].0@ == k by {
            if pairs_to_map(pairs).contains_key(k) {
                if k == last.0@ {
                    assert(pairs[pairs.len() - 1].0@ == k);
                } else {
                    let i = choose|i: int| 0 <= i < init.len() && init[i].0@ == k;
                    assert(pairs[i].0@ == k);
                }
            }
            if exists|i: int| 0 <= i < pairs.len() && pairs[i].0@ == k {
                let i = choose|i: int| 0 <= i < pairs.len() && pairs[i].0@ == k;
                if i < pairs.len() - 1 {
                    assert(init[i].0@ == k);
                }
            }
        }
        assert forall|i: int|
            0 <= i < pairs.len() implies #[trigger] pairs_to_map(pairs)[pairs[i].0@]
            == pairs[i].1 by {
            if i < pairs.len() - 1 {
                assert(init[i] == pairs[i]);
                assert(pairs[i].0@ != last.0@);
            }
        }
    }
}

/// A map from names to values in which every name occurs once.
///
/// Viewed as the map from each name's characters to its value.
#[derive(Debug)]
pub struct NameMap<V> {
    entries: Vec<(String, V)>,
}

impl<V> View for NameMap<V> {
    type V = Map<Seq<char>, V>;

    closed spec fn view(&self) -> Map<Seq<char>, V> {
        pairs_to_map(self.entries@)
    }
}

impl<V> NameMap<V> {
    #[verifier::type_invariant]
    closed spec fn names_are_distinct(self) -> bool {
        distinct_names(self.entries@)
    }

    /// The entries in the order in which the map lists them.
    pub closed spec fn spec_entries(&self) -> Seq<(String, V)> {
        self.entries@
    }

    proof fn lemma_view(&self)
        requires
            distinct_names(self.entries@),
        ensures
            self@.dom().finite(),
            self@.len() == self.entries@.len(),
            forall|k: Seq<char>|
                #[trigger] self@.contains_key(k) <==> exists|i: int|
                    0 <= i < self.entries@.len() && self.entries@[i].0@ == k,
            forall|i: int|
                0 <= i < self.entries@.len() ==> #[trigger] self@[self.entries@[i].0@]
                    == self.entries@[i].1,
    {
        lemma_pairs_to_map_distinct(self.entries@);
    }

    /// The entry at position `index`; positions `0..len()` list every
    /// entry once.
    pub fn entry_at(&self, index: usize) -> (entry: (&String, &V))
        requires
            index < self@.len(),
        ensures
            self@.contains_key(entry.0@),
            *entry.1 == self@[entry.0@],
            forall|j: int| 0 <= j < self@.len() && j != index ==> #[trigger] self.spec_entries()[j].0@ != entry.0@,
            entry.0@ == self.spec_entries()[index as int].0@,
    {
        proof {
            use_type_invariant(self);
            self.lemma_view();
        }
        let e = &self.entries[index];
        (&e.0, &e.1)
    }

    /// Creates an empty map.
    pub fn new() -> (map: Self)
        ensures
            map@ == Map::<Seq<char>, V>::empty(),
            map.spec_entries().len() == 0,
    {
        NameMap { entries: Vec::new() }
    }

    /// The position of `name` among the entries, if the map holds it.
    fn position(&self, name: &str) -> (pos: Option<usize>)
        ensures
            match pos {
                Some(i) => i < self.entries@.len() && self.entries@[i as int].0@ == name@,
                None => forall|i: int|
                    0 <= i < self.entries@.len() ==> self.entries@[i].0@ != name@,
            },
    {
        let requested = String::from_str(name);
        let mut i: usize = 0;
        while i < self.entries.len()
            invariant
                i <= self.entries@.len(),
                requested@ == name@,
                forall|j: int| 0 <= j < i ==> self.entries@[j].0@ != name@,
            decreases self.entries@.len() - i,
        {
            if self.entries[i].0 == requested {
                return Some(i);
            }
            i = i + 1;
        }
        None
    }

    /// The number of names in the map.
    pub fn len(&self) -> (n: usize)
        ensures
            n == self@.len(),
    {
        proof {
            use_type_invariant(self);
            self.lemma_view();
        }
        self.entries.len()
    }

    /// Whether the map holds `name`.
    pub fn contains_key(&self, name: &str) -> (found: bool)
        ensures
            found == self@.contains_key(name@),
    {
        proof {
            use_type_invariant(self);
            self.lemma_view();
        }
        self.position(name).is_some()
    }

    /// The value stored under `name`, if any.
    pub fn get(&self, name: &str) -> (value: Option<&V>)
        ensures
            match value {
                Some(v) => self@.contains_key(name@) && *v == self@[name@],
                None => !self@.contains_key(name@),
            },
    {
        proof {
            use_type_invariant(self);
            self.lemma_view();
        }
        match self.position(name) {
            Some(i) => Some(&self.entries[i].1),
            None => None,
        }
    }

    /// Stores `value` under `name`, replacing and returning the value that
    /// was stored there before.
    pub fn insert(&mut self, name: String, value: V) -> (previous: Option<V>)
        ensures
            final(self)@ == old(self)@.insert(name@, value),
            match previous {
                Some(v) => old(self)@.contains_key(name@) && v == old(self)@[name@],
                None => !old(self)@.contains_key(name@),
            },
    {
        proof {
            use_type_invariant(&*self);
            self.lemma_view();
        }
        let ghost old_entries = self.entries@;
        let found = self.position(name.as_str());
        let mut entries: Vec<(String, V)> = Vec::new();
        std::mem::swap(&mut entries, &mut self.entries);
        match found {
            Some(i) => {
                let (_, old_value) = entries.remove(i);
                entries.insert(i, (name, value));
                proof {
                    let new_entries = entries@;
                    assert(new_entries == old_entries.update(i as int, (name, value)));
                    assert(distinct_names(new_entries)) by {
                        assert forall|a: int, b: int|
                            0 <= a < new_entries.len() && 0 <= b < new_entries.len() && a
                                != b implies #[trigger] new_entries[a].0@
                            != #[trigger] new_entries[b].0@ by {
                            assert(old_entries[a].0@ != old_entries[b].0@);
                        }
                    }
                    lemma_pairs_to_map_distinct(new_entries);
                    assert(pairs_to_map(new_entries) =~= pairs_to_map(old_entries).insert(
                        name@,
                        value,
                    )) by {
                        assert forall|k: Seq<char>|
                            pairs_to_map(new_entries).contains_key(k) <==> pairs_to_map(
                                old_entries,
                            ).insert(name@, value).contains_key(k) by {
                            if pairs_to_map(new_entries).contains_key(k) {
                                let j = choose|j: int|
                                    0 <= j < new_entries.len() && new_entries[j].0@ == k;
                                if j != i {
                                    assert(old_entries[j].0@ == k);
                                }
                            }
                            if pairs_to_map(old_entries).contains_key(k) && k != name@ {
                                let j = choose|j: int|
                                    0 <= j < old_entries.len() && old_entries[j].0@ == k;
                                assert(new_entries[j].0@ == k);
                            }
                            if k == name@ {
                                assert(new_entries[i as int].0@ == k);
                            }
                        }
                        assert forall|k: Seq<char>|
                            #[trigger] pairs_to_map(new_entries).contains_key(k) implies pairs_to_map(
                            new_entries,
                        )[k] == pairs_to_map(old_entries).insert(name@, value)[k] by {
                            let j = choose|j: int|
                                0 <= j < new_entries.len() && new_entries[j].0@ == k;
                            assert(pairs_to_map(new_entries)[new_entries[j].0@] == new_entries[j].1);
                            if j != i {
                                assert(pairs_to_map(old_entries)[old_entries[j].0@]
                                    == old_entries[j].1);
                            }
                        }
                    }
                }
                self.entries = entries;
                Some(old_value)
            },
            None => {
                entries.push((name, value));
                proof {
                    let new_entries = entries@;
                    assert(new_entries.drop_last() == old_entries);
                    assert(distinct_names(new_entries)) by {
                        assert forall|a: int, b: int|
                            0 <= a < new_entries.len() && 0 <= b < new_entries.len() && a
                                != b implies #[trigger] new_entries[a].0@
                            != #[trigger] new_entries[b].0@ by {
                            if a < old_entries.len() && b < old_entries.len() {
                                assert(old_entries[a].0@ != old_entries[b].0@);
                            }
                        }
                    }
                }
                self.entries = entries;
                None
            },
        }
    }

    /// Builds a map from `(name, value)` pairs; where a name occurs more than
    /// once, the last pair wins.
    pub fn from_pairs(pairs: Vec<(String, V)>) -> (map: Self)
        ensures
            map@ == pairs_to_map(pairs@),
    {
        let mut map = NameMap::new();
        let mut rest = pairs;
        let ghost all = rest@;
        let ghost mut taken: int = 0;
        while rest.len() > 0
            invariant
                0 <= taken <= all.len(),
                rest@ == all.subrange(taken, all.len() as int),
                map@ == pairs_to_map(all.take(taken)),
            decreases rest@.len(),
        {
            let (name, value) = rest.remove(0);
            proof {
                assert(all.take(taken + 1).drop_last() == all.take(taken));
                assert(all.take(taken + 1).last() == all[taken]);
            }
            map.insert(name, value);
            proof {
                taken = taken + 1;
                assert(rest@ == all.subrange(taken, all.len() as int));
            }
        }
        proof {
            assert(all.take(all.len() as int) == all);
        }
        map
    }

    /// Applies `f` to every value, keeping the names.
    pub fn map_values<W, F: Fn(&V) -> W>(&self, f: F) -> (mapped: NameMap<W>)
        requires
            forall|v: &V| #[trigger] f.requires((v,)),
        ensures
            mapped@.dom() == self@.dom(),
            forall|k: Seq<char>|
                #[trigger] self@.contains_key(k) ==> f.ensures((&self@[k],), mapped@[k]),
    {
        proof {
            use_type_invariant(self);
            self.lemma_view();
        }
        let mut entries: Vec<(String, W)> = Vec::new();
        let mut i: usize = 0;
        while i < self.entries.len()
            invariant
                i <= self.entries@.len(),
                entries@.len() == i,
                forall|v: &V| #[trigger] f.requires((v,)),
                forall|j: int|
                    0 <= j < i ==> #[trigger] entries@[j].0@ == self.entries@[j].0@ && f.ensures(
                        (&self.entries@[j].1,),
                        entries@[j].1,
                    ),
            decreases self.entries@.len() - i,
        {
            let name = self.entries[i].0.clone();
            let value = f(&self.entries[i].1);
            entries.push((name, value));
            i = i + 1;
        }
        proof {
            assert(distinct_names(entries@)) by {
                assert forall|a: int, b: int|
                    0 <= a < entries@.len() && 0 <= b < entries@.len() && a
                        != b implies #[trigger] entries@[a].0@ != #[trigger] entries@[b].0@ by {
                    assert(self.entries@[a].0@ != self.entries@[b].0@);
                }
            }
            lemma_pairs_to_map_distinct(entries@);
            assert forall|k: Seq<char>|
                #[trigger] self@.contains_key(k) implies pairs_to_map(entries@).contains_key(k) by {
                let j = choose|j: int| 0 <= j < self.entries@.len() && self.entries@[j].0@ == k;
                assert(entries@[j].0@ == k);
            }
            assert forall|k: Seq<char>|
                #[trigger] pairs_to_map(entries@).contains_key(k) implies self@.contains_key(k) by {
                let j = choose|j: int| 0 <= j < entries@.len() && entries@[j].0@ == k;
                assert(self.entries@[j].0@ == k);
            }
            assert(pairs_to_map(entries@).dom() =~= self@.dom());
            assert forall|k: Seq<char>|
                #[trigger] self@.contains_key(k) implies f.ensures(
                (&self@[k],),
                pairs_to_map(entries@)[k],
            ) by {
                let j = choose|j: int| 0 <= j < self.entries@.len() && self.entries@[j].0@ == k;
                assert(entries@[j].0@ == k);
                assert(self@[self.entries@[j].0@] == self.entries@[j].1);
                assert(pairs_to_map(entries@)[entries@[j].0@] == entries@[j].1);
            }
        }
        NameMap { entries }
    }
}

/// A set of names.
pub type NameSet = NameMap<()>;

impl NameMap<()> {
    /// Builds a set from a list of names; repeated names are kept once.
    pub fn from_names(names: Vec<String>) -> (set: Self)
        ensures
            forall|k: Seq<char>|
                #[trigger] set@.contains_key(k) <==> exists|i: int| 0 <= i < names@.len() && names@[i]@ == k,
    {
        let mut set = NameMap::new();
        let mut i: usize = 0;
        while i < names.len()
            invariant
                i <= names@.len(),
                forall|k: Seq<char>|
                    #[trigger] set@.contains_key(k) <==> exists|j: int| 0 <= j < i && names@[j]@ == k,
            decreases names@.len() - i,
        {
            let name = names[i].clone();
            set.insert(name, ());
            proof {
                assert forall|k: Seq<char>|
                    #[trigger] set@.contains_key(k) implies exists|j: int| 0 <= j < i + 1 && names@[j]@ == k by {
                    if k == names@[i as int]@ {
                        assert(names@[i as int]@ == k);
                    }
                }
            }
            i = i + 1;
        }
        set
    }
}

impl<V: Clone> Clone for NameMap<V> {
    /// A copy with the same names, each value cloned.
    fn clone(&self) -> (copy: Self)
        ensures
            copy@.dom() == self@.dom(),
            forall|k: Seq<char>| #[trigger] self@.contains_key(k) ==> cloned::<V>(self@[k], copy@[k]),
    {
        self.map_values(clone_value::<V>)
    }
}

/// Clones a value.
fn clone_value<V: Clone>(value: &V) -> (copy: V)
    ensures
        cloned::<V>(*value, copy),
{
    value.clone()
}

/// The names that a table of names maps to, by view.
pub open spec fn name_views(table: Map<Seq<char>, String>) -> Map<Seq<char>, Seq<char>> {
    table.map_values(|name: String| name@)
}

impl NameMap<String> {
    /// Whether two tables map the same names to the same names.
    pub fn same_names(&self, other: &Self) -> (same: bool)
        ensures
            same == (name_views(self@) == name_views(other@)),
    {
        proof {
            use_type_invariant(self);
            use_type_invariant(other);
            self.lemma_view();
            other.lemma_view();
            assert(name_views(self@).dom() =~= self@.dom());
            assert(name_views(other@).dom() =~= other@.dom());
        }
        if self.entries.len() != other.entries.len() {
            return false;
        }
        let mut i: usize = 0;
        while i < self.entries.len()
            invariant
                i <= self.entries@.len(),
                self.entries@.len() == other@.len(),
                self@.len() == self.entries@.len(),
                forall|j: int|
                    0 <= j < self.entries@.len() ==> self@.contains_key(
                        (#[trigger] self.entries@[j]).0@,
                    ) && self@[self.entries@[j].0@] == self.entries@[j].1,
                forall|j: int|
                    0 <= j < i ==> other@.contains_key((#[trigger] self.entries@[j]).0@)
                        && other@[self.entries@[j].0@]@ == self.entries@[j].1@,
                name_views(self@).dom() == self@.dom(),
                name_views(other@).dom() == other@.dom(),
            decreases self.entries@.len() - i,
        {
            let name = &self.entries[i].0;
            let value = &self.entries[i].1;
            proof {
                assert(self@.contains_key(self.entries@[i as int].0@));
            }
            match other.get(name.as_str()) {
                Some(found) => {
                    if *found != *value {
                        proof {
                            assert(name_views(self@)[name@] != name_views(other@)[name@]);
                        }
                        return false;
                    }
                },
                None => {
                    proof {
                        assert(!name_views(other@).contains_key(name@));
                        assert(name_views(self@).contains_key(name@));
                    }
                    return false;
                },
            }
            i = i + 1;
        }
        proof {
            assert(self@.dom().subset_of(other@.dom())) by {
                assert forall|k: Seq<char>| #[trigger] self@.contains_key(k) implies other@.contains_key(
                    k,
                ) by {
                    let j = choose|j: int|
                        0 <= j < self.entries@.len() && self.entries@[j].0@ == k;
                    assert(other@.contains_key(self.entries@[j].0@));
                }
            }
            vstd::set_lib::lemma_subset_equality(self@.dom(), other@.dom());
            assert forall|k: Seq<char>| #[trigger] name_views(self@).contains_key(k) implies name_views(
                self@,
            )[k] == name_views(other@)[k] by {
                let j = choose|j: int|
                    0 <= j < self.entries@.len() && self.entries@[j].0@ == k;
                assert(other@[self.entries@[j].0@]@ == self.entries@[j].1@);
            }
            assert(name_views(self@) =~= name_views(other@));
        }
        true
    }
}

} // verus!
