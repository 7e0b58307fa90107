//! A map keyed by name and a set of names, both held in ascending
//! dictionary order so that every enumeration is deterministic.

use vstd::prelude::*;
use crate::text::{ascending, compare, precedes, spelled, Rank};
use crate::text::{lemma_precedes_irreflexive, lemma_precedes_total, lemma_precedes_transitive};

verus! {

/// The name under which the `i`-th entry is stored.
pub open spec fn key_at<V>(entries: Seq<(String, V)>, i: int) -> Seq<char> {
    entries[i].0@
}

/// Entries whose keys are in strictly ascending dictionary order.
pub open spec fn keys_ascend<V>(entries: Seq<(String, V)>) -> bool {
    forall|i: int, j: int|
        0 <= i < j < entries.len() ==> precedes(
            #[trigger] key_at(entries, i),
            #[trigger] key_at(entries, j),
        )
}

/// Whether some entry is stored under `key`.
pub open spec fn has_key<V>(entries: Seq<(String, V)>, key: Seq<char>) -> bool {
    exists|i: int| 0 <= i < entries.len() && #[trigger] key_at(entries, i) == key
}

/// The position of an entry stored under `key`.
pub open spec fn slot<V>(entries: Seq<(String, V)>, key: Seq<char>) -> int {
    choose|i: int| 0 <= i < entries.len() && #[trigger] key_at(entries, i) == key
}

/// The finite map that a list of entries stands for.
pub open spec fn as_map<V>(entries: Seq<(String, V)>) -> Map<Seq<char>, V> {
    Map::new(|key: Seq<char>| has_key(entries, key), |key: Seq<char>| entries[slot(entries, key)].1)
}

/// The keys of a list of entries, in storage order.
pub open spec fn key_seq<V>(entries: Seq<(String, V)>) -> Seq<Seq<char>> {
    Seq::new(entries.len(), |i: int| key_at(entries, i))
}

/// In ascending entries every key occurs at one position only.
pub proof fn lemma_slot<V>(entries: Seq<(String, V)>, i: int)
    requires
        keys_ascend(entries),
        0 <= i < entries.len(),
    ensures
        has_key(entries, key_at(entries, i)),
        slot(entries, key_at(entries, i)) == i,
        as_map(entries).contains_key(key_at(entries, i)),
        as_map(entries)[key_at(entries, i)] == entries[i].1,
{
    let key = key_at(entries, i);
    let j = slot(entries, key);
    assert(key_at(entries, j) == key);
    lemma_precedes_irreflexive(key);
    if j < i {
        assert(precedes(key_at(entries, j), key_at(entries, i)));
    } else if i < j {
        assert(precedes(key_at(entries, i), key_at(entries, j)));
    }
}

/// A key that sorts strictly between two neighbours is not stored.
proof fn lemma_gap<V>(entries: Seq<(String, V)>, at: int, key: Seq<char>)
    requires
        0 <= at <= entries.len(),
        forall|j: int| 0 <= j < at ==> precedes(#[trigger] key_at(entries, j), key),
        forall|j: int| at <= j < entries.len() ==> precedes(key, #[trigger] key_at(entries, j)),
    ensures
        !has_key(entries, key),
{
    lemma_precedes_irreflexive(key);
    if has_key(entries, key) {
        let j = slot(entries, key);
        assert(key_at(entries, j) == key);
    }
}

/// Binary search: the position at which `key` is stored, or at which it
/// would have to be inserted.
fn locate<V>(entries: &Vec<(String, V)>, key: &str) -> (r: (usize, bool))
    requires
        keys_ascend(entries@),
    ensures
        r.0 <= entries.len(),
        forall|j: int| 0 <= j < r.0 ==> precedes(#[trigger] key_at(entries@, j), key@),
        r.1 ==> r.0 < entries.len() && key_at(entries@, r.0 as int) == key@,
        !r.1 ==> forall|j: int|
            r.0 <= j < entries.len() ==> precedes(key@, #[trigger] key_at(entries@, j)),
        r.1 == has_key(entries@, key@),
{
    let mut lo: usize = 0;
    let mut hi: usize = entries.len();
    while lo < hi
        invariant
            lo <= hi <= entries.len(),
            keys_ascend(entries@),
            forall|j: int| 0 <= j < lo ==> precedes(#[trigger] key_at(entries@, j), key@),
            forall|j: int| hi <= j < entries.len() ==> precedes(key@, #[trigger] key_at(entries@, j)),
        decreases hi - lo,
    {
        let mid: usize = lo + (hi - lo) / 2;
        let here = compare(entries[mid].0.as_str(), key);
        let ghost pivot = key_at(entries@, mid as int);
        match here {
            Rank::Same => {
                proof {
                    assert forall|j: int| 0 <= j < mid implies precedes(
                        #[trigger] key_at(entries@, j),
                        key@,
                    ) by {
                        assert(precedes(key_at(entries@, j), key_at(entries@, mid as int)));
                    }
                }
                return (mid, true);
            },
            Rank::Before => {
                proof {
                    assert forall|j: int| 0 <= j < mid + 1 implies precedes(
                        #[trigger] key_at(entries@, j),
                        key@,
                    ) by {
                        if j < mid {
                            assert(precedes(key_at(entries@, j), key_at(entries@, mid as int)));
                            lemma_precedes_transitive(key_at(entries@, j), pivot, key@);
                        }
                    }
                }
                lo = mid + 1;
            },
            Rank::After => {
                proof {
                    lemma_precedes_total(pivot, key@);
                    assert forall|j: int| mid <= j < entries.len() implies precedes(
                        key@,
                        #[trigger] key_at(entries@, j),
                    ) by {
                        if mid < j {
                            assert(precedes(key_at(entries@, mid as int), key_at(entries@, j)));
                            lemma_precedes_transitive(key@, pivot, key_at(entries@, j));
                        }
                    }
                }
                hi = mid;
            },
        }
    }
    proof {
        lemma_gap(entries@, lo as int, key@);
    }
    (lo, false)
}

/// A finite map from names to values, enumerated in dictionary order of
/// its keys.
#[derive(Debug)]
pub struct NameMap<V> {
    entries: Vec<(String, V)>,
}

impl<V> View for NameMap<V> {
    type V = Map<Seq<char>, V>;

    closed spec fn view(&self) -> Map<Seq<char>, V> {
        as_map(self.entries@)
    }
}

impl<V> NameMap<V> {
    #[verifier::type_invariant]
    spec fn well_formed(self) -> bool {
        keys_ascend(self.entries@)
    }

    /// The keys in the order in which the map enumerates them.
    pub closed spec fn order(&self) -> Seq<Seq<char>> {
        key_seq(self.entries@)
    }

    /// The empty map.
    pub fn new() -> (m: Self)
        ensures
            m@ == Map::<Seq<char>, V>::empty(),
            m.order() == Seq::<Seq<char>>::empty(),
    {
        let m = NameMap { entries: Vec::new() };
        assert(m@ =~= Map::<Seq<char>, V>::empty());
        assert(m.order() =~= Seq::<Seq<char>>::empty());
        m
    }

    /// The number of keys.
    pub fn len(&self) -> (n: usize)
        ensures
            n == self.order().len(),
            n == self@.dom().len(),
            self@.dom().finite(),
            ascending(self.order()),
            self.order().to_set() == self@.dom(),
    {
        proof {
            use_type_invariant(self);
            lemma_order(self.entries@);
        }
        self.entries.len()
    }

    /// Whether the map has no key.
    pub fn is_empty(&self) -> (b: bool)
        ensures
            b == (self@.dom() == Set::<Seq<char>>::empty()),
            b == (self.order().len() == 0),
    {
        proof {
            use_type_invariant(self);
            lemma_order(self.entries@);
            if self.entries@.len() > 0 {
                lemma_slot(self.entries@, 0);
            } else {
                assert(self@.dom() =~= Set::<Seq<char>>::empty());
            }
        }
        self.entries.len() == 0
    }

    /// Whether `key` is in the map.
    pub fn contains_key(&self, key: &str) -> (b: bool)
        ensures
            b == self@.contains_key(key@),
    {
        proof {
            use_type_invariant(self);
        }
        let (_, found) = locate(&self.entries, key);
        found
    }

    /// The value stored under `key`, if any.
    pub fn get(&self, key: &str) -> (r: Option<&V>)
        ensures
            r == (if self@.contains_key(key@) {
                Some(&self@[key@])
            } else {
                None
            }),
    {
        proof {
            use_type_invariant(self);
        }
        let (at, found) = locate(&self.entries, key);
        if found {
            proof {
                lemma_slot(self.entries@, at as int);
            }
            Some(&self.entries[at].1)
        } else {
            None
        }
    }

    /// Stores `value` under `key`, replacing what was stored there.
    pub fn insert(&mut self, key: String, value: V)
        ensures
            final(self)@ == old(self)@.insert(key@, value),
    {
        proof {
            use_type_invariant(&*self);
        }
        let mut entries: Vec<(String, V)> = Vec::new();
        std::mem::swap(&mut entries, &mut self.entries);
        let ghost before = entries@;
        let (at, found) = locate(&entries, key.as_str());
        if found {
            entries.remove(at);
        }
        let ghost middle = entries@;
        let ghost k = key@;
        entries.insert(at, (key, value));
        proof {
            let after = entries@;
            assert(after[at as int].1 == value);
            assert(key_at(after, at as int) == k);
            assert forall|i: int, j: int| 0 <= i < j < after.len() implies precedes(
                #[trigger] key_at(after, i),
                #[trigger] key_at(after, j),
            ) by {
                let bi = if i < at { i } else if found { i } else { i - 1 };
                let bj = if j < at { j } else if found { j } else { j - 1 };
                if i != at {
                    assert(key_at(after, i) == key_at(before, bi));
                }
                if j != at {
                    assert(key_at(after, j) == key_at(before, bj));
                }
                if i != at && j != at {
                    assert(precedes(key_at(before, bi), key_at(before, bj)));
                }
            }
            assert forall|name: Seq<char>| #[trigger]
                as_map(after).contains_key(name) == as_map(before).insert(k, value).contains_key(
                    name,
                ) by {
                if has_key(after, name) {
                    let i = slot(after, name);
                    assert(key_at(after, i) == name);
                    if i != at {
                        let bi = if i < at { i } else if found { i } else { i - 1 };
                        assert(key_at(before, bi) == name);
                    }
                }
                if has_key(before, name) && name != k {
                    let i = slot(before, name);
                    assert(key_at(before, i) == name);
                    let ai = if i < at { i } else if found { i } else { i + 1 };
                    assert(key_at(after, ai) == name);
                }
            }
            assert forall|name: Seq<char>| #[trigger]
                as_map(after).contains_key(name) implies as_map(after)[name] == as_map(
                before,
            ).insert(k, value)[name] by {
                let i = slot(after, name);
                assert(key_at(after, i) == name);
                lemma_slot(after, i);
                if name != k {
                    lemma_slot(after, at as int);
                    let bi = if i < at { i } else if found { i } else { i - 1 };
                    assert(key_at(before, bi) == name);
                    lemma_slot(before, bi);
                } else {
                    lemma_slot(after, at as int);
                }
            }
            assert(as_map(after) =~= as_map(before).insert(k, value));
        }
        self.entries = entries;
    }

    /// Takes `key` out of the map and returns what was stored under it.
    pub fn remove(&mut self, key: &str) -> (r: Option<V>)
        ensures
            final(self)@ == old(self)@.remove(key@),
            r == (if old(self)@.contains_key(key@) {
                Some(old(self)@[key@])
            } else {
                None
            }),
    {
        proof {
            use_type_invariant(&*self);
        }
        let mut entries: Vec<(String, V)> = Vec::new();
        std::mem::swap(&mut entries, &mut self.entries);
        let ghost before = entries@;
        let (at, found) = locate(&entries, key);
        let r = if found {
            proof {
                lemma_slot(before, at as int);
            }
            let (_, value) = entries.remove(at);
            Some(value)
        } else {
            None
        };
        proof {
            let after = entries@;
            let k = key@;
            assert forall|i: int, j: int| 0 <= i < j < after.len() implies precedes(
                #[trigger] key_at(after, i),
                #[trigger] key_at(after, j),
            ) by {
                let bi = if found && i >= at { i + 1 } else { i };
                let bj = if found && j >= at { j + 1 } else { j };
                assert(key_at(after, i) == key_at(before, bi));
                assert(key_at(after, j) == key_at(before, bj));
                assert(precedes(key_at(before, bi), key_at(before, bj)));
            }
            assert forall|name: Seq<char>| #[trigger]
                as_map(after).contains_key(name) == as_map(before).remove(k).contains_key(
                    name,
                ) by {
                if has_key(after, name) {
                    let i = slot(after, name);
                    assert(key_at(after, i) == name);
                    let bi = if found && i >= at { i + 1 } else { i };
                    assert(key_at(before, bi) == name);
                    if name == k {
                        lemma_slot(before, bi);
                        lemma_slot(before, at as int);
                    }
                }
                if has_key(before, name) && name != k {
                    let i = slot(before, name);
                    assert(key_at(before, i) == name);
                    let ai = if found && i > at { i - 1 } else { i };
                    assert(key_at(after, ai) == name);
                }
            }
            assert forall|name: Seq<char>| #[trigger]
                as_map(after).contains_key(name) implies as_map(after)[name] == as_map(
                before,
            ).remove(k)[name] by {
                let i = slot(after, name);
                assert(key_at(after, i) == name);
                lemma_slot(after, i);
                let bi = if found && i >= at { i + 1 } else { i };
                assert(key_at(before, bi) == name);
                lemma_slot(before, bi);
            }
            assert(as_map(after) =~= as_map(before).remove(k));
        }
        self.entries = entries;
        r
    }

    /// The keys, in ascending dictionary order.
    pub fn keys(&self) -> (names: Vec<String>)
        ensures
            spelled(names@) == self.order(),
            ascending(self.order()),
            self.order().to_set() == self@.dom(),
    {
        proof {
            use_type_invariant(self);
            lemma_order(self.entries@);
        }
        let mut names: Vec<String> = Vec::new();
        let mut i: usize = 0;
        while i < self.entries.len()
            invariant
                i <= self.entries.len(),
                names.len() == i,
                forall|j: int| 0 <= j < i ==> (#[trigger] names[j])@ == key_at(self.entries@, j),
            decreases self.entries.len() - i,
        {
            names.push(self.entries[i].0.clone());
            i += 1;
        }
        assert(spelled(names@) =~= key_seq(self.entries@));
        names
    }
}

/// The keys of ascending entries ascend, and they are the map's domain.
pub proof fn lemma_order<V>(entries: Seq<(String, V)>)
    requires
        keys_ascend(entries),
    ensures
        ascending(key_seq(entries)),
        key_seq(entries).to_set() == as_map(entries).dom(),
        as_map(entries).dom().finite(),
        as_map(entries).dom().len() == entries.len(),
    decreases entries.len(),
{
    let keys = key_seq(entries);
    assert forall|i: int, j: int| 0 <= i < j < keys.len() implies precedes(
        #[trigger] keys[i],
        #[trigger] keys[j],
    ) by {
        assert(precedes(key_at(entries, i), key_at(entries, j)));
    }
    assert forall|name: Seq<char>| keys.to_set().contains(name) == as_map(entries).dom().contains(
        name,
    ) by {
        if keys.to_set().contains(name) {
            let i = choose|i: int| 0 <= i < keys.len() && keys[i] == name;
            assert(key_at(entries, i) == name);
        }
        if has_key(entries, name) {
            let i = slot(entries, name);
            assert(keys[i] == name);
        }
    }
    assert(keys.to_set() =~= as_map(entries).dom());
    assert(keys.no_duplicates()) by {
        assert forall|i: int, j: int| 0 <= i < keys.len() && 0 <= j < keys.len() && i != j implies keys[i]
            != keys[j] by {
            lemma_precedes_irreflexive(keys[i]);
            if i < j {
                assert(precedes(keys[i], keys[j]));
            } else {
                assert(precedes(keys[j], keys[i]));
            }
        }
    }
    keys.unique_seq_to_set();
    vstd::seq_lib::seq_to_set_is_finite(keys);
}

/// A finite set of names, enumerated in dictionary order.
#[derive(Debug)]
pub struct NameSet {
    members: NameMap<()>,
}

impl View for NameSet {
    type V = Set<Seq<char>>;

    closed spec fn view(&self) -> Set<Seq<char>> {
        self.members@.dom()
    }
}

impl NameSet {
    /// The names in the order in which the set enumerates them.
    pub closed spec fn order(&self) -> Seq<Seq<char>> {
        self.members.order()
    }

    /// The empty set: it holds no name and enumerates none.
    pub fn new() -> (s: Self)
        ensures
            s@ == Set::<Seq<char>>::empty(),
            s.order() == Seq::<Seq<char>>::empty(),
    {
        let s = NameSet { members: NameMap::new() };
        assert(s@ =~= Set::<Seq<char>>::empty());
        s
    }

    /// Adds `name`; a name already present stays once.
    pub fn insert(&mut self, name: String)
        ensures
            final(self)@ == old(self)@.insert(name@),
    {
        self.members.insert(name, ());
        assert(self@ =~= old(self)@.insert(name@));
    }

    /// Whether `name` is in the set.
    pub fn contains(&self, name: &str) -> (b: bool)
        ensures
            b == self@.contains(name@),
    {
        self.members.contains_key(name)
    }

    /// Whether the set has no name.
    pub fn is_empty(&self) -> (b: bool)
        ensures
            b == (self@ == Set::<Seq<char>>::empty()),
    {
        self.members.is_empty()
    }

    /// The number of names.
    pub fn len(&self) -> (n: usize)
        ensures
            self@.finite(),
            n == self@.len(),
    {
        self.members.len()
    }

    /// The names, in ascending dictionary order.
    pub fn names(&self) -> (names: Vec<String>)
        ensures
            spelled(names@) == self.order(),
            ascending(self.order()),
            self.order().to_set() == self@,
    {
        self.members.keys()
    }
}

} // verus!
