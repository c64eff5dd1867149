//! Sets of names, and maps keyed by names. Both keep their elements in the
//! order in which they came, and hold no name twice.
use vstd::prelude::*;

use crate::text::{clone_texts, same_text, texts};

verus! {

/// A set of names.
#[derive(Debug)]
pub struct NameSet {
    names: Vec<String>,
}

/// The position of the first entry whose name is `name`.
pub open spec fn position_of<V>(entries: Seq<(Seq<char>, V)>, name: Seq<char>) -> Option<int>
    decreases entries.len(),
{
    if entries.len() == 0 {
        None
    } else if entries[0].0 == name {
        Some(0)
    } else {
        match position_of(entries.drop_first(), name) {
            Some(i) => Some(i + 1),
            None => None,
        }
    }
}

/// What a map with these entries holds under `name`.
pub open spec fn lookup<V>(entries: Seq<(Seq<char>, V)>, name: Seq<char>) -> Option<V> {
    match position_of(entries, name) {
        Some(i) => Some(entries[i].1),
        None => None,
    }
}

/// The names of the entries, in order.
pub open spec fn entry_names<V>(entries: Seq<(Seq<char>, V)>) -> Seq<Seq<char>> {
    entries.map_values(|e: (Seq<char>, V)| e.0)
}

/// The entries after `value` has been put under `name`: in the place of the
/// entry with that name, or else behind the others.
pub open spec fn entry_set<V>(
    entries: Seq<(Seq<char>, V)>,
    name: Seq<char>,
    value: V,
) -> Seq<(Seq<char>, V)> {
    match position_of(entries, name) {
        Some(i) => entries.update(i, (name, value)),
        None => entries.push((name, value)),
    }
}

/// What it means for a position to be that of a name, and for a name to have
/// none.
pub proof fn lemma_position_of<V>(entries: Seq<(Seq<char>, V)>, name: Seq<char>)
    ensures
        match position_of(entries, name) {
            Some(i) => {
                &&& 0 <= i < entries.len()
                &&& entries[i].0 == name
                &&& forall|j: int| 0 <= j < i ==> (#[trigger] entries[j]).0 != name
            },
            None => forall|j: int| 0 <= j < entries.len() ==> (#[trigger] entries[j]).0 != name,
        },
    decreases entries.len(),
{
    if entries.len() > 0 && entries[0].0 != name {
        let rest = entries.drop_first();
        lemma_position_of(rest, name);
        assert forall|j: int| 0 < j < entries.len() implies #[trigger] entries[j] == rest[j - 1] by {}
        match position_of(rest, name) {
            Some(i) => {
                assert forall|j: int| 0 <= j < i + 1 implies (#[trigger] entries[j]).0 != name by {
                    if j > 0 {
                        assert(rest[j - 1].0 != name);
                    }
                }
            },
            None => {
                assert forall|j: int| 0 <= j < entries.len() implies (#[trigger] entries[j]).0
                    != name by {
                    if j > 0 {
                        assert(rest[j - 1].0 != name);
                    }
                }
            },
        }
    }
}

/// A position at which `name` stands, with none before it, is the position of
/// `name`.
pub proof fn lemma_position_is<V>(entries: Seq<(Seq<char>, V)>, name: Seq<char>, i: int)
    requires
        0 <= i < entries.len(),
        entries[i].0 == name,
        forall|j: int| 0 <= j < i ==> (#[trigger] entries[j]).0 != name,
    ensures
        position_of(entries, name) == Some(i),
{
    lemma_position_of(entries, name);
    match position_of(entries, name) {
        Some(k) => {
            if k < i {
                assert(entries[k].0 != name);
            }
            if i < k {
                assert(entries[i].0 != name);
            }
        },
        None => {
            assert(entries[i].0 != name);
        },
    }
}

/// A map gives back what was last put under a name, and putting something
/// under one name leaves what stands under every other name alone.
pub proof fn law_lookup_after_set<V>(
    entries: Seq<(Seq<char>, V)>,
    name: Seq<char>,
    value: V,
    other: Seq<char>,
)
    ensures
        lookup(entry_set(entries, name, value), other) == (if other == name {
            Some(value)
        } else {
            lookup(entries, other)
        }),
{
    let after = entry_set(entries, name, value);
    lemma_position_of(entries, name);
    lemma_position_of(entries, other);
    lemma_position_of(after, other);
    match position_of(entries, name) {
        Some(i) => {
            assert forall|j: int| 0 <= j < entries.len() implies (#[trigger] after[j]).0
                == entries[j].0 by {}
            match position_of(entries, other) {
                Some(k) => {
                    lemma_position_is(after, other, k);
                },
                None => {
                    if position_of(after, other) is Some {
                        let k = position_of(after, other)->0;
                        assert(entries[k].0 == other);
                    }
                },
            }
        },
        None => {
            match position_of(entries, other) {
                Some(k) => {
                    lemma_position_is(after, other, k);
                },
                None => {
                    if other == name {
                        lemma_position_is(after, other, entries.len() as int);
                    } else if position_of(after, other) is Some {
                        let k = position_of(after, other)->0;
                        if k < entries.len() {
                            assert(entries[k].0 == other);
                        }
                    }
                },
            }
        },
    }
}

impl NameSet {
    /// The names of the set, in the order in which they came.
    pub closed spec fn view(&self) -> Seq<Seq<char>> {
        texts(self.names@)
    }

    /// What holds of every set of names.
    #[verifier::type_invariant]
    pub closed spec fn wf(&self) -> bool {
        texts(self.names@).no_duplicates()
    }

    /// A set holds no name twice.
    pub proof fn law_no_name_twice(&self)
        requires
            self.wf(),
        ensures
            self@.no_duplicates(),
    {
    }

    /// The set without any name.
    pub fn new() -> (r: Self)
        ensures
            r@ == Seq::<Seq<char>>::empty(),
    {
        let names: Vec<String> = Vec::new();
        assert(texts(names@) == Seq::<Seq<char>>::empty());
        NameSet { names }
    }

    /// The number of names.
    pub fn len(&self) -> (n: usize)
        ensures
            n == self@.len(),
    {
        self.names.len()
    }

    /// The names of the set, in the order in which they came.
    pub fn names(&self) -> (r: &[String])
        ensures
            texts(r@) == self@,
    {
        self.names.as_slice()
    }

    /// Whether `name` is in the set.
    pub fn contains(&self, name: &str) -> (r: bool)
        ensures
            r == self@.contains(name@),
    {
        let mut i: usize = 0;
        while i < self.names.len()
            invariant
                i <= self.names@.len(),
                forall|j: int| 0 <= j < i ==> (#[trigger] self@[j]) != name@,
            decreases self.names@.len() - i,
        {
            if same_text(self.names[i].as_str(), name) {
                assert(self@[i as int] == name@);
                return true;
            }
            assert(self@[i as int] == self.names@[i as int]@);
            i += 1;
        }
        false
    }

    /// Puts `name` into the set, and says whether it was new.
    pub fn insert(&mut self, name: String) -> (new: bool)
        ensures
            new == !old(self)@.contains(name@),
            final(self)@ == (if new {
                old(self)@.push(name@)
            } else {
                old(self)@
            }),
    {
        proof {
            use_type_invariant(&*self);
        }
        if self.contains(name.as_str()) {
            return false;
        }
        let ghost before = self@;
        let mut names: Vec<String> = Vec::new();
        std::mem::swap(&mut names, &mut self.names);
        names.push(name);
        assert(texts(names@) == before.push(name@));
        assert(before.push(name@).no_duplicates()) by {
            assert(!before.contains(name@));
            assert forall|i: int, j: int|
                0 <= i < before.len() + 1 && 0 <= j < before.len() + 1 && i != j implies before.push(
                name@,
            )[i] != before.push(name@)[j] by {
                if i < before.len() && j < before.len() {
                } else if i < before.len() {
                    assert(before.contains(before[i]));
                } else {
                    assert(before.contains(before[j]));
                }
            }
        }
        self.names = names;
        true
    }
}

impl Clone for NameSet {
    fn clone(&self) -> (r: Self)
        ensures
            r@ == self@,
    {
        proof {
            use_type_invariant(self);
        }
        NameSet { names: clone_texts(self.names.as_slice()) }
    }
}

/// A map from names to values.
#[derive(Debug)]
pub struct NameMap<V> {
    keys: Vec<String>,
    values: Vec<V>,
}

impl<V> NameMap<V> {
    /// The entries of the map, in the order in which their names came.
    pub closed spec fn view(&self) -> Seq<(Seq<char>, V)> {
        Seq::new(self.keys@.len(), |i: int| (self.keys@[i]@, self.values@[i]))
    }

    /// What holds of every map.
    #[verifier::type_invariant]
    pub closed spec fn wf(&self) -> bool {
        &&& texts(self.keys@).no_duplicates()
        &&& self.keys@.len() == self.values@.len()
    }

    /// A map holds no name twice.
    pub proof fn law_no_name_twice(&self)
        requires
            self.wf(),
        ensures
            entry_names(self@).no_duplicates(),
    {
        assert(entry_names(self@) == texts(self.keys@));
    }

    /// The map without any entry.
    pub fn new() -> (r: Self)
        ensures
            r@ == Seq::<(Seq<char>, V)>::empty(),
    {
        let keys: Vec<String> = Vec::new();
        assert(texts(keys@) == Seq::<Seq<char>>::empty());
        NameMap { keys, values: Vec::new() }
    }

    /// The number of entries.
    pub fn len(&self) -> (n: usize)
        ensures
            n == self@.len(),
    {
        self.keys.len()
    }

    /// The name of the entry at a position.
    pub fn name_at(&self, i: usize) -> (r: &str)
        requires
            i < self@.len(),
        ensures
            r@ == self@[i as int].0,
    {
        self.keys[i].as_str()
    }

    /// The value of the entry at a position.
    pub fn value_at(&self, i: usize) -> (r: &V)
        requires
            i < self@.len(),
        ensures
            *r == self@[i as int].1,
    {
        proof {
            use_type_invariant(self);
        }
        &self.values[i]
    }

    /// The position of the entry under `name`.
    pub fn position(&self, name: &str) -> (r: Option<usize>)
        ensures
            match r {
                Some(i) => position_of(self@, name@) == Some(i as int) && i < self@.len(),
                None => position_of(self@, name@) is None,
            },
    {
        let mut i: usize = 0;
        while i < self.keys.len()
            invariant
                i <= self.keys@.len() == self@.len(),
                forall|j: int| 0 <= j < i ==> (#[trigger] self@[j]).0 != name@,
            decreases self.keys@.len() - i,
        {
            if same_text(self.keys[i].as_str(), name) {
                proof {
                    lemma_position_is(self@, name@, i as int);
                }
                return Some(i);
            }
            i += 1;
        }
        proof {
            lemma_position_of(self@, name@);
        }
        None
    }

    /// What stands under `name`.
    pub fn get(&self, name: &str) -> (r: Option<&V>)
        ensures
            r is Some <==> lookup(self@, name@) is Some,
            r matches Some(v) ==> lookup(self@, name@) == Some(*v),
    {
        match self.position(name) {
            Some(i) => Some(self.value_at(i)),
            None => None,
        }
    }

    /// Whether there is an entry under `name`.
    pub fn contains_key(&self, name: &str) -> (r: bool)
        ensures
            r == lookup(self@, name@) is Some,
    {
        self.position(name).is_some()
    }

    /// Makes sure that there is an entry under `name`, with `value` where
    /// there was none, and gives its position.
    pub fn or_insert(&mut self, name: String, value: V) -> (i: usize)
        ensures
            i < final(self)@.len(),
            position_of(final(self)@, name@) == Some(i as int),
            final(self)@ == (match position_of(old(self)@, name@) {
                Some(_) => old(self)@,
                None => old(self)@.push((name@, value)),
            }),
    {
        proof {
            use_type_invariant(&*self);
        }
        if let Some(i) = self.position(name.as_str()) {
            return i;
        }
        let ghost before = self@;
        let ghost old_keys = texts(self.keys@);
        let mut taken = NameMap::new();
        std::mem::swap(&mut taken, self);
        let NameMap { mut keys, mut values } = taken;
        let i: usize = keys.len();
        proof {
            lemma_position_of(before, name@);
        }
        keys.push(name);
        values.push(value);
        assert(texts(keys@) == old_keys.push(name@));
        assert(old_keys.push(name@).no_duplicates()) by {
            assert forall|j: int| 0 <= j < old_keys.len() implies old_keys[j] != name@ by {
                assert(before[j].0 != name@);
            }
        }
        *self = NameMap { keys, values };
        assert(self@ == before.push((name@, value)));
        proof {
            assert forall|j: int| 0 <= j < i implies (#[trigger] self@[j]).0 != name@ by {
                assert(before[j].0 != name@);
            }
            lemma_position_is(self@, name@, i as int);
        }
        i
    }

    /// The value of the entry at a position, to be changed.
    pub fn value_at_mut(&mut self, i: usize) -> (r: &mut V)
        requires
            i < old(self)@.len(),
        ensures
            *r == old(self)@[i as int].1,
            final(self)@ == old(self)@.update(i as int, (old(self)@[i as int].0, *final(r))),
    {
        proof {
            use_type_invariant(&*self);
        }
        &mut self.values[i]
    }

    /// Puts `value` under `name`, in the place of what stood there before.
    pub fn insert(&mut self, name: String, value: V)
        ensures
            final(self)@ == entry_set(old(self)@, name@, value),
    {
        proof {
            use_type_invariant(&*self);
            lemma_position_of(self@, name@);
        }
        match self.position(name.as_str()) {
            Some(i) => {
                *self.value_at_mut(i) = value;
            },
            None => {
                let _i = self.or_insert(name, value);
            },
        }
    }
}

impl<V: Clone> Clone for NameMap<V> {
    fn clone(&self) -> (r: Self)
        ensures
            entry_names(r@) == entry_names(self@),
            forall|i: int| 0 <= i < self@.len() ==> cloned(self@[i].1, #[trigger] r@[i].1),
    {
        proof {
            use_type_invariant(self);
        }
        let keys = clone_texts(self.keys.as_slice());
        let mut values: Vec<V> = Vec::new();
        let mut i: usize = 0;
        while i < self.values.len()
            invariant
                i <= self.values@.len(),
                values@.len() == i,
                forall|j: int| 0 <= j < i ==> cloned(self.values@[j], #[trigger] values@[j]),
            decreases self.values@.len() - i,
        {
            values.push(self.values[i].clone());
            i = i + 1;
        }
        let r = NameMap { keys, values };
        proof {
            assert forall|j: int| 0 <= j < self@.len() implies cloned(
                self@[j].1,
                #[trigger] r@[j].1,
            ) by {
                assert(cloned(self.values@[j], values@[j]));
            }
            assert(entry_names(r@) == texts(keys@));
            assert(entry_names(self@) == texts(self.keys@));
        }
        r
    }
}

/// A name that is new comes behind all others, and one that is not stays in its place.
pub proof fn law_names_keep_their_order<V>(
    entries: Seq<(Seq<char>, V)>,
    name: Seq<char>,
    value: V,
)
    ensures
        entry_names(entries).contains(name) ==> entry_names(entry_set(entries, name, value))
            == entry_names(entries),
        !entry_names(entries).contains(name) ==> entry_names(entry_set(entries, name, value))
            == entry_names(entries).push(name),
        lookup(entries, name) is Some <==> entry_names(entries).contains(name),
{
    lemma_position_of(entries, name);
    let names = entry_names(entries);
    match position_of(entries, name) {
        Some(i) => {
            assert(names[i] == name);
            assert(entry_names(entry_set(entries, name, value)) =~= names);
        },
        None => {
            if names.contains(name) {
                let i = choose|i: int| 0 <= i < names.len() && names[i] == name;
                assert(entries[i].0 == name);
            }
            assert(entry_names(entry_set(entries, name, value)) =~= names.push(name));
        },
    }
}

} // verus!
