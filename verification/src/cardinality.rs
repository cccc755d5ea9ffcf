//! Cardinality wrappers for plugin collections.
//!
//! A binding holds the plugins that implement it in one of four shapes, each
//! fixing how many plugins there may be. Mapping a wrapper transforms the
//! values it holds and keeps its shape and its plugin ids.

use vstd::prelude::*;

use crate::id_map::{IdMap, PluginId, distinct_ids, id_pairs_to_map};
use crate::value::Value;

verus! {

/// Cardinality behaviour for plugin containers: the plugins a container
/// holds, by id, and lookup by id.
pub trait Cardinality<Id: View, T>: Sized {
    /// The values the container holds, by the view of their plugin ids.
    spec fn contents(&self) -> Map<Id::V, T>;

    /// Whether `get` may be asked for `id`.
    spec fn lookup_allowed(&self, id: Id) -> bool;

    /// Returns the value associated with `id`, if present.
    fn get(&self, id: &Id) -> (value: Option<&T>)
        requires
            self.lookup_allowed(*id),
        ensures
            match value {
                Some(v) => self.contents().contains_key(id@) && *v == self.contents()[id@],
                None => !self.contents().contains_key(id@),
            },
    ;
}

/// Exactly one value with its plugin id, guaranteed present.
#[derive(Debug, Clone)]
pub struct ExactlyOne<Id, T>(
    /// The plugin identifier.
    pub Id,
    /// The associated value.
    pub T,
);

/// Zero or one value with its plugin id.
#[derive(Debug, Clone)]
pub struct AtMostOne<Id, T>(
    /// Optional `(id, value)` pair.
    pub Option<(Id, T)>,
);

/// One or more values keyed by plugin id.
#[derive(Debug)]
pub struct AtLeastOne<Id: View, T> {
    plugins: IdMap<Id, T>,
}

/// Zero or more values keyed by plugin id.
#[derive(Debug)]
pub struct Any<Id: View, T>(
    /// Map keyed by plugin id.
    pub IdMap<Id, T>,
);

impl<Id: View, T> Cardinality<Id, T> for ExactlyOne<Id, T> {
    open spec fn contents(&self) -> Map<Id::V, T> {
        map![self.0@ => self.1]
    }

    /// In a singleton wrapper the requested id is the stored one; a
    /// mismatched id indicates a logic bug upstream.
    open spec fn lookup_allowed(&self, id: Id) -> bool {
        id@ == self.0@
    }

    fn get(&self, id: &Id) -> (value: Option<&T>) {
        Some(&self.1)
    }
}

impl<Id: View, T> Cardinality<Id, T> for AtMostOne<Id, T> {
    open spec fn contents(&self) -> Map<Id::V, T> {
        match self.0 {
            Some((id, value)) => map![id@ => value],
            None => Map::empty(),
        }
    }

    /// In a singleton wrapper the requested id is the stored one; a
    /// mismatched id indicates a logic bug upstream.
    open spec fn lookup_allowed(&self, id: Id) -> bool {
        match self.0 {
            Some((stored, _)) => id@ == stored@,
            None => true,
        }
    }

    fn get(&self, id: &Id) -> (value: Option<&T>) {
        match &self.0 {
            None => None,
            Some((_, value)) => Some(value),
        }
    }
}

impl<Id: PluginId, T> Cardinality<Id, T> for AtLeastOne<Id, T> {
    open spec fn contents(&self) -> Map<Id::V, T> {
        self.spec_plugins()
    }

    open spec fn lookup_allowed(&self, id: Id) -> bool {
        true
    }

    fn get(&self, id: &Id) -> (value: Option<&T>) {
        self.plugins.get(id)
    }
}

impl<Id: PluginId, T> Cardinality<Id, T> for Any<Id, T> {
    open spec fn contents(&self) -> Map<Id::V, T> {
        self.0@
    }

    open spec fn lookup_allowed(&self, id: Id) -> bool {
        true
    }

    fn get(&self, id: &Id) -> (value: Option<&T>) {
        self.0.get(id)
    }
}

impl<Id, T> ExactlyOne<Id, T> {
    /// Maps the value by reference while preserving cardinality.
    pub fn map<N, F: Fn(&Id, &T) -> N>(&self, f: F) -> (mapped: ExactlyOne<Id, N>) where
        Id: Clone,
        requires
            f.requires((&self.0, &self.1)),
        ensures
            cloned::<Id>(self.0, mapped.0),
            f.ensures((&self.0, &self.1), mapped.1),
    {
        ExactlyOne(self.0.clone(), f(&self.0, &self.1))
    }

    /// Maps the value by value while preserving cardinality.
    pub fn map_mut<N, F: Fn(T) -> N>(self, f: F) -> (mapped: ExactlyOne<Id, N>)
        requires
            f.requires((self.1,)),
        ensures
            mapped.0 == self.0,
            f.ensures((self.1,), mapped.1),
    {
        ExactlyOne(self.0, f(self.1))
    }
}

impl<Id, T> AtMostOne<Id, T> {
    /// Maps the value, if any, by reference while preserving cardinality.
    pub fn map<N, F: Fn(&Id, &T) -> N>(&self, f: F) -> (mapped: AtMostOne<Id, N>) where
        Id: Clone,
        requires
            self.0 matches Some((id, value)) ==> f.requires((&id, &value)),
        ensures
            match self.0 {
                None => mapped.0 is None,
                Some((id, value)) => mapped.0 matches Some((new_id, new_value)) && cloned::<Id>(
                    id,
                    new_id,
                ) && f.ensures((&id, &value), new_value),
            },
    {
        match &self.0 {
            None => AtMostOne(None),
            Some((id, value)) => AtMostOne(Some((id.clone(), f(id, value)))),
        }
    }

    /// Maps the value, if any, by value while preserving cardinality.
    pub fn map_mut<N, F: Fn(T) -> N>(self, f: F) -> (mapped: AtMostOne<Id, N>)
        requires
            self.0 matches Some((_, value)) ==> f.requires((value,)),
        ensures
            match self.0 {
                None => mapped.0 is None,
                Some((id, value)) => mapped.0 matches Some((new_id, new_value)) && new_id == id
                    && f.ensures((value,), new_value),
            },
    {
        match self.0 {
            None => AtMostOne(None),
            Some((id, value)) => AtMostOne(Some((id, f(value)))),
        }
    }
}

impl<Id: View, T> AtLeastOne<Id, T> {
    #[verifier::type_invariant]
    closed spec fn never_empty(self) -> bool {
        self.plugins@.len() > 0
    }

    /// The values held, by plugin id.
    pub closed spec fn spec_plugins(&self) -> Map<Id::V, T> {
        self.plugins@
    }

    /// Wraps a map of plugins; `None` when the map is empty.
    pub fn try_new(plugins: IdMap<Id, T>) -> (wrapped: Option<Self>)
        ensures
            match wrapped {
                Some(w) => plugins@.len() > 0 && w.spec_plugins() == plugins@,
                None => plugins@.len() == 0,
            },
    {
        if plugins.is_empty() {
            None
        } else {
            Some(AtLeastOne { plugins })
        }
    }

    /// The map of plugins, which is never empty.
    pub fn plugins(&self) -> (plugins: &IdMap<Id, T>)
        ensures
            plugins@ == self.spec_plugins(),
            plugins@.len() > 0,
    {
        proof {
            use_type_invariant(self);
        }
        &self.plugins
    }

    /// Unwraps the map of plugins, which is never empty.
    pub fn into_plugins(self) -> (plugins: IdMap<Id, T>)
        ensures
            plugins@ == self.spec_plugins(),
            plugins@.len() > 0,
    {
        proof {
            use_type_invariant(&self);
        }
        self.plugins
    }

    /// Maps values by value while preserving cardinality.
    pub fn map_mut<N, F: Fn(T) -> N>(self, f: F) -> (mapped: AtLeastOne<Id, N>)
        requires
            forall|id: Id::V| #[trigger]
                self.spec_plugins().contains_key(id) ==> f.requires((self.spec_plugins()[id],)),
        ensures
            mapped.spec_plugins().dom() == self.spec_plugins().dom(),
            forall|id: Id::V|
                #[trigger] self.spec_plugins().contains_key(id) ==> f.ensures(
                    (self.spec_plugins()[id],),
                    mapped.spec_plugins()[id],
                ),
    {
        proof {
            use_type_invariant(&self);
        }
        proof {
            assert forall|k: Id::V| #[trigger] self.plugins@.contains_key(k) implies f.requires(
                (self.plugins@[k],),
            ) by {
                assert(self.spec_plugins().contains_key(k));
            }
        }
        let plugins = self.plugins.map_owned(f);
        AtLeastOne { plugins }
    }
}

impl<Id: PluginId, T> AtLeastOne<Id, T> {
    /// Maps values by reference while preserving cardinality; `f` is given
    /// each plugin's id and value.
    pub fn map<N, F: Fn(&Id, &T) -> N>(&self, f: F) -> (mapped: AtLeastOne<Id, N>)
        requires
            forall|id: &Id, value: &T|
                self.spec_plugins().contains_key(id@) && self.spec_plugins()[id@] == *value
                    ==> #[trigger] f.requires((id, value)),
        ensures
            mapped.spec_plugins().dom() == self.spec_plugins().dom(),
            forall|k: Id::V| #[trigger]
                self.spec_plugins().contains_key(k) ==> exists|id: Id|
                    id@ == k && f.ensures((&id, &self.spec_plugins()[k]), mapped.spec_plugins()[k]),
    {
        proof {
            use_type_invariant(self);
        }
        let plugins = self.plugins.map_ref(f);
        AtLeastOne { plugins }
    }
}

impl<Id: View, T> Any<Id, T> {
    /// Maps values by value while preserving cardinality.
    pub fn map_mut<N, F: Fn(T) -> N>(self, f: F) -> (mapped: Any<Id, N>)
        requires
            forall|id: Id::V| #[trigger] self.0@.contains_key(id) ==> f.requires((self.0@[id],)),
        ensures
            mapped.0@.dom() == self.0@.dom(),
            forall|id: Id::V|
                #[trigger] self.0@.contains_key(id) ==> f.ensures((self.0@[id],), mapped.0@[id]),
    {
        Any(self.0.map_owned(f))
    }
}

impl<Id: PluginId, T> Any<Id, T> {
    /// Maps values by reference while preserving cardinality; `f` is given
    /// each plugin's id and value.
    pub fn map<N, F: Fn(&Id, &T) -> N>(&self, f: F) -> (mapped: Any<Id, N>)
        requires
            forall|id: &Id, value: &T|
                self.0@.contains_key(id@) && self.0@[id@] == *value ==> #[trigger] f.requires((id, value)),
        ensures
            mapped.0@.dom() == self.0@.dom(),
            forall|k: Id::V| #[trigger]
                self.0@.contains_key(k) ==> exists|id: Id|
                    id@ == k && f.ensures((&id, &self.0@[k]), mapped.0@[k]),
    {
        Any(self.0.map_ref(f))
    }
}


/// The map entries that list `pairs` in order, each id as a string value.
pub open spec fn id_entries(pairs: Seq<(String, Value)>) -> Seq<(Value, Value)> {
    pairs.map_values(|pair: (String, Value)| (Value::String(pair.0), pair.1))
}

/// Lists `pairs` as map entries, each id as a string value.
fn entries_from_pairs(pairs: Vec<(String, Value)>) -> (entries: Vec<(Value, Value)>)
    ensures
        entries@ == id_entries(pairs@),
{
    let mut pending = pairs;
    let mut entries: Vec<(Value, Value)> = Vec::new();
    let mut i: usize = 0;
    while i < pending.len()
        invariant
            pending@.len() == pairs@.len(),
            i <= pairs@.len(),
            forall|j: int| i <= j < pairs@.len() ==> pending@[j] == pairs@[j],
            entries@ == id_entries(pairs@.subrange(0, i as int)),
        decreases pairs@.len() - i,
    {
        let mut pair = (String::new(), Value::Bool(false));
        std::mem::swap(&mut pending[i], &mut pair);
        let (id, value) = pair;
        entries.push((Value::String(id), value));
        proof {
            assert(id_entries(pairs@.subrange(0, i + 1)) =~= id_entries(
                pairs@.subrange(0, i as int),
            ).push((Value::String(pairs@[i as int].0), pairs@[i as int].1)));
        }
        i = i + 1;
    }
    proof {
        assert(pairs@.subrange(0, i as int) =~= pairs@);
    }
    entries
}

impl ExactlyOne<String, Value> {
    /// The plugin's id and value as a tuple value `(id, value)`.
    pub fn into_value(self) -> (value: Value)
        ensures
            value matches Value::Tuple(items) && items@ == seq![Value::String(self.0), self.1],
    {
        let mut items = Vec::new();
        items.push(Value::String(self.0));
        items.push(self.1);
        Value::Tuple(items)
    }
}

impl AtMostOne<String, Value> {
    /// An `option` value: empty without a plugin, otherwise holding the
    /// tuple `(id, value)`.
    pub fn into_value(self) -> (value: Value)
        ensures
            match self.0 {
                None => value == Value::Option(None),
                Some((id, v)) => value matches Value::Option(Some(inner)) && *inner matches Value::Tuple(items)
                    && items@ == seq![Value::String(id), v],
            },
    {
        match self.0 {
            None => Value::Option(None),
            Some((id, value)) => {
                let mut items = Vec::new();
                items.push(Value::String(id));
                items.push(value);
                Value::Option(Some(Box::new(Value::Tuple(items))))
            },
        }
    }
}

impl AtLeastOne<String, Value> {
    /// A `map` value from each plugin's id to its value, one entry per
    /// plugin.
    pub fn into_value(self) -> (value: Value)
        ensures
            value matches Value::Entries(entries) && exists|pairs: Seq<(String, Value)>|
                distinct_ids(pairs) && id_pairs_to_map(pairs) == self.spec_plugins() && entries@
                    == id_entries(pairs),
    {
        let pairs = self.into_plugins().into_pairs();
        let ghost listed = pairs@;
        let entries = entries_from_pairs(pairs);
        let value = Value::Entries(entries);
        proof {
            assert(distinct_ids(listed) && entries@ == id_entries(listed));
        }
        value
    }
}

impl Any<String, Value> {
    /// A `map` value from each plugin's id to its value, one entry per
    /// plugin.
    pub fn into_value(self) -> (value: Value)
        ensures
            value matches Value::Entries(entries) && exists|pairs: Seq<(String, Value)>|
                distinct_ids(pairs) && id_pairs_to_map(pairs) == self.0@ && entries@ == id_entries(
                    pairs,
                ),
    {
        let pairs = self.0.into_pairs();
        let ghost listed = pairs@;
        let entries = entries_from_pairs(pairs);
        let value = Value::Entries(entries);
        proof {
            assert(distinct_ids(listed) && entries@ == id_entries(listed));
        }
        value
    }
}

impl<Id: PluginId, T: Clone> Clone for AtLeastOne<Id, T> {
    /// A copy with the same plugin ids, each value cloned.
    fn clone(&self) -> (copy: Self)
        ensures
            copy.spec_plugins().dom() == self.spec_plugins().dom(),
            forall|k: Id::V| #[trigger]
                self.spec_plugins().contains_key(k) ==> cloned::<T>(
                    self.spec_plugins()[k],
                    copy.spec_plugins()[k],
                ),
    {
        proof {
            use_type_invariant(self);
        }
        let plugins = self.plugins.clone();
        proof {
            assert(plugins@.dom() =~= self.plugins@.dom());
        }
        AtLeastOne { plugins }
    }
}

impl<Id: PluginId, T: Clone> Clone for Any<Id, T> {
    /// A copy with the same plugin ids, each value cloned.
    fn clone(&self) -> (copy: Self)
        ensures
            copy.0@.dom() == self.0@.dom(),
            forall|k: Id::V| #[trigger] self.0@.contains_key(k) ==> cloned::<T>(self.0@[k], copy.0@[k]),
    {
        Any(self.0.clone())
    }
}


/// `mapped` is what [`Any::map_mut`] and [`AtLeastOne::map_mut`] promise for
/// `values` mapped by `f`: the same ids, each new value a result of `f` for
/// the old one.
pub open spec fn mapped_by<K, T, N, F: Fn(T) -> N>(values: Map<K, T>, f: F, mapped: Map<K, N>) -> bool {
    &&& mapped.dom() == values.dom()
    &&& forall|k: K| #[trigger] values.contains_key(k) ==> f.ensures((values[k],), mapped[k])
}

/// `f` gives one result for each argument.
pub open spec fn functional<T, N, F: Fn(T) -> N>(f: F) -> bool {
    forall|v: T, r: N, s: N| f.ensures((v,), r) && f.ensures((v,), s) ==> r == s
}

/// Mapping the values by a function that gives back its argument keeps
/// them as they were.
pub proof fn law_map_mut_identity<K, T, F: Fn(T) -> T>(values: Map<K, T>, f: F, mapped: Map<K, T>)
    requires
        mapped_by(values, f, mapped),
        forall|v: T, r: T| f.ensures((v,), r) ==> r == v,
    ensures
        mapped == values,
{
    assert(mapped =~= values);
}

/// Mapping the values by `f` and then by `g` gives what mapping them once
/// by their composition `h` gives, when `f` and `g` give one result for each
/// argument.
pub proof fn law_map_mut_composition<K, T, M, N, F: Fn(T) -> M, G: Fn(M) -> N, H: Fn(T) -> N>(
    values: Map<K, T>,
    f: F,
    g: G,
    h: H,
    once: Map<K, M>,
    twice: Map<K, N>,
    composed: Map<K, N>,
)
    requires
        functional(f),
        functional(g),
        forall|v: T, r: N|
            #[trigger] h.ensures((v,), r) ==> exists|m: M| f.ensures((v,), m) && g.ensures((m,), r),
        mapped_by(values, f, once),
        mapped_by(once, g, twice),
        mapped_by(values, h, composed),
    ensures
        twice == composed,
{
    assert forall|k: K| #[trigger] values.contains_key(k) implies twice[k] == composed[k] by {
        assert(once.contains_key(k));
        assert(h.ensures((values[k],), composed[k]));
        let m = choose|m: M| f.ensures((values[k],), m) && g.ensures((m,), composed[k]);
        assert(f.ensures((values[k],), once[k]));
        assert(m == once[k]);
        assert(g.ensures((once[k],), twice[k]));
    }
    assert(twice =~= composed);
}

} // verus!
