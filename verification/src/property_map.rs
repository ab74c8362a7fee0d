//! The mapping from property names to values that stands for one result row.

use vstd::prelude::*;
use vstd::set_lib::lemma_subset_equality;
use vstd::std_specs::cmp::PartialEqSpecImpl;

use crate::variant::{Value, Variant};

verus! {

/// The mapping that a list of named values denotes: each name is bound to the
/// value listed with it, and where a name is listed more than once the later
/// listing wins.
pub open spec fn entries_map(entries: Seq<(String, Variant)>) -> Map<Seq<char>, Value>
    decreases entries.len(),
{
    if entries.len() == 0 {
        Map::empty()
    } else {
        entries_map(entries.drop_last()).insert(entries.last().0@, entries.last().1@)
    }
}

/// No name is listed twice.
pub open spec fn distinct_keys(entries: Seq<(String, Variant)>) -> bool {
    forall|i: int, j: int|
        0 <= i < j < entries.len() ==> (#[trigger] entries[i]).0@ != (#[trigger] entries[j]).0@
}

/// The name `key` is listed.
pub open spec fn lists_key(entries: Seq<(String, Variant)>, key: Seq<char>) -> bool {
    exists|i: int| 0 <= i < entries.len() && (#[trigger] entries[i]).0@ == key
}

/// The names bound by `entries_map` are exactly the listed names, and there
/// are finitely many of them.
pub proof fn lemma_entries_map_domain(entries: Seq<(String, Variant)>)
    ensures
        entries_map(entries).dom().finite(),
        forall|key: Seq<char>|
            #[trigger] entries_map(entries).contains_key(key) <==> lists_key(entries, key),
    decreases entries.len(),
{
    if entries.len() > 0 {
        let front = entries.drop_last();
        lemma_entries_map_domain(front);
        assert forall|key: Seq<char>|
            #[trigger] entries_map(entries).contains_key(key) <==> lists_key(
                entries,
                key,
            ) by {
            if lists_key(front, key) {
                let i = choose|i: int| 0 <= i < front.len() && (#[trigger] front[i]).0@ == key;
                assert(entries[i].0@ == key);
            }
            if entries.last().0@ == key {
                assert(entries[entries.len() - 1].0@ == key);
            }
            if lists_key(entries, key) {
                let i = choose|i: int| 0 <= i < entries.len() && (#[trigger] entries[i]).0@ == key;
                if i < front.len() {
                    assert(front[i].0@ == key);
                }
            }
        }
    }
}

/// Where no name is listed twice, every listed name is bound to the value
/// listed with it, and there are as many bindings as listings.
pub proof fn lemma_entries_map_distinct(entries: Seq<(String, Variant)>)
    requires
        distinct_keys(entries),
    ensures
        forall|i: int|
            0 <= i < entries.len() ==> entries_map(entries)[(#[trigger] entries[i]).0@]
                == entries[i].1@,
        entries_map(entries).dom().len() == entries.len(),
    decreases entries.len(),
{
    if entries.len() > 0 {
        let front = entries.drop_last();
        let last = entries.last();
        assert forall|i: int, j: int| 0 <= i < j < front.len() implies (#[trigger] front[i]).0@ != (
        #[trigger] front[j]).0@ by {
            assert(entries[i].0@ != entries[j].0@);
        }
        lemma_entries_map_distinct(front);
        lemma_entries_map_domain(front);
        assert(!lists_key(front, last.0@)) by {
            if lists_key(front, last.0@) {
                let i = choose|i: int| 0 <= i < front.len() && (#[trigger] front[i]).0@ == last.0@;
                assert(entries[i].0@ != entries[entries.len() - 1].0@);
            }
        }
        assert forall|i: int| 0 <= i < entries.len() implies entries_map(entries)[(
        #[trigger] entries[i]).0@] == entries[i].1@ by {
            if i < front.len() {
                assert(front[i] == entries[i]);
                assert(entries[i].0@ != entries[entries.len() - 1].0@);
            }
        }
    }
}

/// The property `key` is listed with the value `value`.
pub open spec fn lists_property(
    entries: Seq<(String, Variant)>,
    key: Seq<char>,
    value: Value,
) -> bool {
    exists|i: int|
        0 <= i < entries.len() && (#[trigger] entries[i]).0@ == key && entries[i].1@ == value
}

/// The two lists agree place by place, in name and in value.
pub open spec fn same_listing(
    first: Seq<(String, Variant)>,
    second: Seq<(String, Variant)>,
) -> bool {
    &&& first.len() == second.len()
    &&& forall|i: int|
        0 <= i < first.len() ==> (#[trigger] first[i]).0@ == second[i].0@ && first[i].1@
            == second[i].1@
}

/// The two lists report the same properties: they agree place by place, or
/// neither lists a name twice and each lists every property that the other
/// lists, with the same value, in whatever order.
pub open spec fn same_properties(
    first: Seq<(String, Variant)>,
    second: Seq<(String, Variant)>,
) -> bool {
    ||| same_listing(first, second)
    ||| {
        &&& distinct_keys(first)
        &&& distinct_keys(second)
        &&& forall|key: Seq<char>, value: Value|
            lists_property(first, key, value) <==> lists_property(second, key, value)
    }
}

/// The mapping depends on the reported properties alone: two lists that
/// report the same properties denote the same mapping.
pub proof fn lemma_same_properties_same_map(
    first: Seq<(String, Variant)>,
    second: Seq<(String, Variant)>,
)
    requires
        same_properties(first, second),
    ensures
        entries_map(first) == entries_map(second),
{
    if same_listing(first, second) {
        lemma_same_listing_same_map(first, second);
    } else {
        lemma_entries_map_domain(first);
        lemma_entries_map_domain(second);
        lemma_entries_map_distinct(first);
        lemma_entries_map_distinct(second);
        let left = entries_map(first);
        let right = entries_map(second);
        assert forall|key: Seq<char>| left.contains_key(key) implies right.contains_key(key)
            && left[key] == right[key] by {
            let i = choose|i: int| 0 <= i < first.len() && (#[trigger] first[i]).0@ == key;
            assert(lists_property(first, key, first[i].1@));
            assert(lists_property(second, key, first[i].1@));
            let j = choose|j: int|
                0 <= j < second.len() && (#[trigger] second[j]).0@ == key && second[j].1@
                    == first[i].1@;
            assert(lists_key(second, key));
            assert(left[first[i].0@] == first[i].1@);
            assert(right[second[j].0@] == second[j].1@);
        }
        assert forall|key: Seq<char>| right.contains_key(key) implies left.contains_key(key) by {
            let j = choose|j: int| 0 <= j < second.len() && (#[trigger] second[j]).0@ == key;
            assert(lists_property(second, key, second[j].1@));
            assert(lists_property(first, key, second[j].1@));
            let i = choose|i: int|
                0 <= i < first.len() && (#[trigger] first[i]).0@ == key && first[i].1@
                    == second[j].1@;
            assert(lists_key(first, key));
        }
        assert(left =~= right);
    }
}

/// Two lists that agree place by place denote the same mapping.
pub proof fn lemma_same_listing_same_map(
    first: Seq<(String, Variant)>,
    second: Seq<(String, Variant)>,
)
    requires
        same_listing(first, second),
    ensures
        entries_map(first) == entries_map(second),
    decreases first.len(),
{
    if first.len() > 0 {
        assert(first.last().0@ == second.last().0@ && first.last().1@ == second.last().1@) by {
            assert(first[first.len() - 1].0@ == second[first.len() - 1].0@);
        }
        assert forall|i: int| 0 <= i < first.drop_last().len() implies (
        #[trigger] first.drop_last()[i]).0@ == second.drop_last()[i].0@ && first.drop_last()[i].1@
            == second.drop_last()[i].1@ by {
            assert(first[i].0@ == second[i].0@);
        }
        lemma_same_listing_same_map(first.drop_last(), second.drop_last());
    }
}

/// A mapping from property names to values.
///
/// Names are unique; the order in which properties were added is not
/// observable.
#[derive(Debug)]
pub struct PropertyMap {
    entries: Vec<(String, Variant)>,
}

impl View for PropertyMap {
    type V = Map<Seq<char>, Value>;

    closed spec fn view(&self) -> Map<Seq<char>, Value> {
        entries_map(self.entries@)
    }
}

impl PropertyMap {
    #[verifier::type_invariant]
    spec fn well_formed(&self) -> bool {
        distinct_keys(self.entries@)
    }

    /// The index at which `key` is stored, if it is stored.
    fn position(&self, key: &String) -> (found: Option<usize>)
        ensures
            match found {
                Some(i) => i < self.entries@.len() && self.entries@[i as int].0@ == key@,
                None => !lists_key(self.entries@, key@),
            },
    {
        let mut i: usize = 0;
        while i < self.entries.len()
            invariant
                i <= self.entries@.len(),
                forall|j: int| 0 <= j < i ==> (#[trigger] self.entries@[j]).0@ != key@,
            decreases self.entries@.len() - i,
        {
            if self.entries[i].0 == *key {
                return Some(i);
            }
            i += 1;
        }
        None
    }

    /// The value stored for `key`, if there is one.
    fn lookup(&self, key: &String) -> (value: Option<&Variant>)
        ensures
            match value {
                Some(found) => self@.contains_key(key@) && found@ == self@[key@],
                None => !self@.contains_key(key@),
            },
    {
        proof {
            use_type_invariant(self);
            lemma_entries_map_domain(self.entries@);
            lemma_entries_map_distinct(self.entries@);
        }
        match self.position(key) {
            Some(i) => Some(&self.entries[i].1),
            None => None,
        }
    }

    /// A mapping without properties.
    pub fn new() -> (map: PropertyMap)
        ensures
            map@ == Map::<Seq<char>, Value>::empty(),
    {
        PropertyMap { entries: Vec::new() }
    }

    /// The value bound to `key`, if there is one.
    pub fn get(&self, key: &str) -> (value: Option<&Variant>)
        ensures
            match value {
                Some(found) => self@.contains_key(key@) && found@ == self@[key@],
                None => !self@.contains_key(key@),
            },
    {
        let wanted = key.to_owned();
        self.lookup(&wanted)
    }

    /// Whether a value is bound to `key`.
    pub fn contains_key(&self, key: &str) -> (present: bool)
        ensures
            present == self@.contains_key(key@),
    {
        let wanted = key.to_owned();
        self.lookup(&wanted).is_some()
    }

    /// The number of properties.
    pub fn len(&self) -> (count: usize)
        ensures
            count == self@.len(),
    {
        proof {
            use_type_invariant(self);
            lemma_entries_map_distinct(self.entries@);
        }
        self.entries.len()
    }

    /// Whether the mapping has no property.
    pub fn is_empty(&self) -> (empty: bool)
        ensures
            empty == (self@ == Map::<Seq<char>, Value>::empty()),
    {
        proof {
            lemma_entries_map_domain(self.entries@);
            if self.entries@.len() > 0 {
                assert(lists_key(self.entries@, self.entries@[0].0@));
                assert(self@.contains_key(self.entries@[0].0@));
            }
        }
        self.entries.len() == 0
    }

    /// Binds `key` to `value` and returns the value that was bound to it before.
    pub fn insert(&mut self, key: String, value: Variant) -> (previous: Option<Variant>)
        ensures
            final(self)@ == old(self)@.insert(key@, value@),
            match previous {
                Some(replaced) => old(self)@.contains_key(key@) && replaced@ == old(self)@[key@],
                None => !old(self)@.contains_key(key@),
            },
    {
        proof {
            use_type_invariant(&*self);
            lemma_entries_map_domain(self.entries@);
            lemma_entries_map_distinct(self.entries@);
        }
        let found = self.position(&key);
        let mut entries: Vec<(String, Variant)> = Vec::new();
        core::mem::swap(&mut self.entries, &mut entries);
        entries.push((key, value));
        let previous = match found {
            Some(i) => {
                let replaced = entries.swap_remove(i);
                proof {
                    assert(entries@ == old(self).entries@.update(i as int, (key, value)));
                    lemma_replace_entry(old(self).entries@, i as int, (key, value));
                }
                Some(replaced.1)
            },
            None => {
                proof {
                    assert(entries@.drop_last() == old(self).entries@);
                    assert forall|i: int, j: int| 0 <= i < j < entries@.len() implies (
                    #[trigger] entries@[i]).0@ != (#[trigger] entries@[j]).0@ by {
                        assert(entries@[i] == old(self).entries@[i]);
                        if j < old(self).entries@.len() {
                            assert(entries@[j] == old(self).entries@[j]);
                        }
                    }
                }
                None
            },
        };
        self.entries = entries;
        previous
    }

    /// The properties as a list that denotes this mapping, each name listed
    /// once.
    pub fn into_entries(self) -> (entries: Vec<(String, Variant)>)
        ensures
            distinct_keys(entries@),
            entries_map(entries@) == self@,
    {
        proof {
            use_type_invariant(&self);
        }
        self.entries
    }

    /// The mapping that `entries` denotes: where a name is listed more than
    /// once, the later listing wins.
    pub fn from_entries(entries: Vec<(String, Variant)>) -> (map: PropertyMap)
        ensures
            map@ == entries_map(entries@),
    {
        let ghost listed = entries@;
        let mut map = PropertyMap::new();
        for entry in it: entries
            invariant
                it.seq() == listed,
                map@ == entries_map(listed.take(it.index() as int)),
        {
            proof {
                assert(listed.take(it.index() + 1).drop_last() == listed.take(it.index() as int));
            }
            map.insert(entry.0, entry.1);
        }
        proof {
            assert(listed.take(listed.len() as int) == listed);
        }
        map
    }
}

impl Default for PropertyMap {
    /// The mapping without properties.
    fn default() -> (map: PropertyMap)
        ensures
            map@ == Map::<Seq<char>, Value>::empty(),
    {
        PropertyMap::new()
    }
}

impl Clone for PropertyMap {
    /// A copy that binds the same names to the same values.
    fn clone(&self) -> (copy: PropertyMap)
        ensures
            copy@ == self@,
    {
        proof {
            use_type_invariant(self);
        }
        let mut entries: Vec<(String, Variant)> = Vec::new();
        let mut i: usize = 0;
        while i < self.entries.len()
            invariant
                i <= self.entries@.len(),
                entries@.len() == i,
                forall|j: int|
                    0 <= j < i ==> (#[trigger] entries@[j]).0@ == self.entries@[j].0@
                        && entries@[j].1@ == self.entries@[j].1@,
            decreases self.entries@.len() - i,
        {
            entries.push((self.entries[i].0.clone(), self.entries[i].1.clone()));
            i += 1;
        }
        proof {
            lemma_same_listing_same_map(entries@, self.entries@);
            assert forall|i: int, j: int| 0 <= i < j < entries@.len() implies (
            #[trigger] entries@[i]).0@ != (#[trigger] entries@[j]).0@ by {
                assert(self.entries@[i].0@ != self.entries@[j].0@);
            }
        }
        PropertyMap { entries }
    }
}

impl PartialEq for PropertyMap {
    /// Two mappings are equal where they bind the same names to the same
    /// values, in whatever order the properties were added.
    fn eq(&self, other: &PropertyMap) -> (equal: bool) {
        proof {
            use_type_invariant(self);
            use_type_invariant(other);
            lemma_entries_map_domain(self.entries@);
            lemma_entries_map_domain(other.entries@);
            lemma_entries_map_distinct(self.entries@);
            lemma_entries_map_distinct(other.entries@);
        }
        if self.entries.len() != other.entries.len() {
            return false;
        }
        let mut i: usize = 0;
        while i < self.entries.len()
            invariant
                i <= self.entries@.len(),
                forall|j: int|
                    0 <= j < i ==> other@.contains_key((#[trigger] self.entries@[j]).0@)
                        && other@[self.entries@[j].0@] == self.entries@[j].1@,
            decreases self.entries@.len() - i,
        {
            let found = other.lookup(&self.entries[i].0);
            let matches = match found {
                Some(value) => *value == self.entries[i].1,
                None => false,
            };
            if !matches {
                proof {
                    use_type_invariant(self);
                    lemma_entries_map_domain(self.entries@);
                    lemma_entries_map_distinct(self.entries@);
                    let key = self.entries@[i as int].0@;
                    assert(lists_key(self.entries@, key));
                    assert(self@.contains_key(key));
                    assert(self@[key] == self.entries@[i as int].1@);
                }
                return false;
            }
            i += 1;
        }
        proof {
            assert forall|key: Seq<char>| self@.contains_key(key) implies other@.contains_key(key)
                && self@[key] == other@[key] by {
                let j = choose|j: int|
                    0 <= j < self.entries@.len() && (#[trigger] self.entries@[j]).0@ == key;
                assert(other@.contains_key(self.entries@[j].0@));
            }
            assert(self@.dom().subset_of(other@.dom()));
            lemma_subset_equality(self@.dom(), other@.dom());
            assert(self@ =~= other@);
        }
        true
    }
}

impl PartialEqSpecImpl for PropertyMap {
    open spec fn obeys_eq_spec() -> bool {
        true
    }

    open spec fn eq_spec(&self, other: &PropertyMap) -> bool {
        self@ == other@
    }
}

impl Eq for PropertyMap {

}

/// Replacing the value listed with a name binds the name to the new value
/// and leaves the other bindings as they were.
proof fn lemma_replace_entry(
    entries: Seq<(String, Variant)>,
    at: int,
    replacement: (String, Variant),
)
    requires
        distinct_keys(entries),
        0 <= at < entries.len(),
        entries[at].0@ == replacement.0@,
    ensures
        distinct_keys(entries.update(at, replacement)),
        entries_map(entries.update(at, replacement)) == entries_map(entries).insert(
            replacement.0@,
            replacement.1@,
        ),
{
    let changed = entries.update(at, replacement);
    assert forall|i: int, j: int| 0 <= i < j < changed.len() implies (#[trigger] changed[i]).0@ != (
    #[trigger] changed[j]).0@ by {
        assert(changed[i].0@ == entries[i].0@ && changed[j].0@ == entries[j].0@);
    }
    lemma_entries_map_domain(entries);
    lemma_entries_map_domain(changed);
    lemma_entries_map_distinct(entries);
    lemma_entries_map_distinct(changed);
    let left = entries_map(changed);
    let right = entries_map(entries).insert(replacement.0@, replacement.1@);
    assert forall|key: Seq<char>| left.contains_key(key) <==> right.contains_key(key) by {
        if lists_key(changed, key) {
            let i = choose|i: int| 0 <= i < changed.len() && (#[trigger] changed[i]).0@ == key;
            assert(entries[i].0@ == key);
        }
        if lists_key(entries, key) {
            let i = choose|i: int| 0 <= i < entries.len() && (#[trigger] entries[i]).0@ == key;
            assert(changed[i].0@ == key);
        }
        if key == replacement.0@ {
            assert(changed[at].0@ == key);
        }
    }
    assert forall|key: Seq<char>| left.contains_key(key) implies left[key] == right[key] by {
        let i = choose|i: int| 0 <= i < changed.len() && (#[trigger] changed[i]).0@ == key;
        assert(left[changed[i].0@] == changed[i].1@);
        if i != at {
            assert(changed[i] == entries[i]);
            assert(right[entries[i].0@] == entries[i].1@);
            if i < at {
                assert(entries[i].0@ != entries[at].0@);
            } else {
                assert(entries[at].0@ != entries[i].0@);
            }
        }
    }
    assert(left =~= right);
}

} // verus!
