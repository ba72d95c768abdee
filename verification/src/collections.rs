//! Maps and sets keyed by text, which keep their entries in the order of insertion.
use vstd::prelude::*;

verus! {

/// The keys of a list of entries.
spec fn keys_of<V>(entries: Seq<(String, V)>) -> Seq<Seq<char>> {
    entries.map_values(|e: (String, V)| e.0@)
}

/// A map from texts to values. No text is a key twice.
pub struct StringMap<V> {
    entries: Vec<(String, V)>,
}

impl<V> View for StringMap<V> {
    type V = Map<Seq<char>, V>;

    closed spec fn view(&self) -> Map<Seq<char>, V> {
        Map::new(
            |k: Seq<char>| self.keys().contains(k),
            |k: Seq<char>| self.entries@[self.keys().index_of(k)].1,
        )
    }
}

impl<V> StringMap<V> {
    #[verifier::type_invariant]
    spec fn well_formed(self) -> bool {
        self.keys().no_duplicates()
    }

    /// The keys in the order of insertion.
    pub closed spec fn keys(self) -> Seq<Seq<char>> {
        keys_of(self.entries@)
    }

    /// An empty map.
    pub fn new() -> (map: Self)
        ensures
            map@ == Map::<Seq<char>, V>::empty(),
            map.keys() == Seq::<Seq<char>>::empty(),
    {
        let map = StringMap { entries: Vec::new() };
        assert(map.keys() =~= Seq::<Seq<char>>::empty());
        assert(map@ =~= Map::<Seq<char>, V>::empty());
        map
    }

    /// The number of keys. Each key of the map stands once in the order of insertion.
    pub fn len(&self) -> (n: usize)
        ensures
            n == self@.dom().len(),
            self@.dom().finite(),
            n == self.keys().len(),
            self.keys().no_duplicates(),
            self.keys().to_set() == self@.dom(),
    {
        proof {
            use_type_invariant(self);
            self.keys().unique_seq_to_set();
            assert(self.keys().to_set() =~= self@.dom());
        }
        self.entries.len()
    }

    /// Whether no text is a key.
    pub fn is_empty(&self) -> (empty: bool)
        ensures
            empty == (self@.dom() == Set::<Seq<char>>::empty()),
    {
        proof {
            if self.entries.len() == 0 {
                assert(self@.dom() =~= Set::<Seq<char>>::empty());
            } else {
                assert(self.keys().contains(self.keys()[0]));
                assert(self@.dom().contains(self.keys()[0]));
            }
        }
        self.entries.len() == 0
    }

    /// The key and the value that stand at a position of the order of insertion.
    pub fn entry(&self, i: usize) -> (found: (&String, &V))
        requires
            i < self.keys().len(),
        ensures
            found.0@ == self.keys()[i as int],
            self@.contains_key(found.0@),
            *found.1 == self@[found.0@],
    {
        proof {
            use_type_invariant(self);
            let key = self.keys()[i as int];
            assert(self.keys().contains(key));
            assert(self.keys().index_of(key) == i);
        }
        let found = &self.entries[i];
        (&found.0, &found.1)
    }

    /// Where a key stands in the order of insertion.
    fn position(&self, key: &str) -> (at: Option<usize>)
        ensures
            match at {
                Some(i) => {
                    &&& i < self.entries.len()
                    &&& self.keys()[i as int] == key@
                    &&& self@.contains_key(key@)
                    &&& self@[key@] == self.entries@[i as int].1
                },
                None => !self@.contains_key(key@),
            },
    {
        let wanted = key.to_string();
        let mut i: usize = 0;
        while i < self.entries.len()
            invariant
                wanted@ == key@,
                i <= self.entries.len(),
                forall|k: int| 0 <= k < i ==> self.keys()[k] != key@,
            decreases self.entries.len() - i,
        {
            if self.entries[i].0 == wanted {
                proof {
                    use_type_invariant(self);
                    assert(self.keys()[i as int] == key@);
                    assert(self.keys().contains(key@));
                    assert(self.keys().index_of(key@) == i);
                }
                return Some(i);
            }
            i += 1;
        }
        None
    }

    /// Whether a text is a key.
    pub fn contains_key(&self, key: &str) -> (found: bool)
        ensures
            found == self@.contains_key(key@),
    {
        self.position(key).is_some()
    }

    /// The value of a key.
    pub fn get(&self, key: &str) -> (value: Option<&V>)
        ensures
            match value {
                Some(v) => self@.contains_key(key@) && *v == self@[key@],
                None => !self@.contains_key(key@),
            },
    {
        match self.position(key) {
            Some(i) => Some(&self.entries[i].1),
            None => None,
        }
    }

    /// Gives a key a value, in place of the one that it had.
    pub fn insert(&mut self, key: String, value: V)
        ensures
            final(self)@ == old(self)@.insert(key@, value),
            final(self).keys() == if old(self)@.contains_key(key@) {
                old(self).keys()
            } else {
                old(self).keys().push(key@)
            },
    {
        proof {
            use_type_invariant(&*self);
        }
        let at = self.position(key.as_str());
        let ghost before = *self;
        let mut entries: Vec<(String, V)> = Vec::new();
        std::mem::swap(&mut entries, &mut self.entries);
        match at {
            Some(i) => {
                entries.set(i, (key, value));
                assert(keys_of(entries@) =~= before.keys());
                let map = StringMap { entries };
                assert(map@ =~= before@.insert(key@, value));
                *self = map;
            },
            None => {
                entries.push((key, value));
                assert(keys_of(entries@) =~= before.keys().push(key@));
                let map = StringMap { entries };
                proof {
                    assert forall|k: Seq<char>| map.keys().contains(k) <==> before.keys().contains(k) || k == key@ by {
                        if before.keys().contains(k) {
                            assert(map.keys()[before.keys().index_of(k)] == k);
                        }
                        assert(map.keys()[before.keys().len() as int] == key@);
                    }
                    assert(map@ =~= before@.insert(key@, value));
                }
                *self = map;
            },
        }
    }
}

/// A set of texts. No text is in it twice.
pub struct StringSet {
    items: StringMap<()>,
}

impl View for StringSet {
    type V = Set<Seq<char>>;

    closed spec fn view(&self) -> Set<Seq<char>> {
        self.items@.dom()
    }
}

impl StringSet {
    /// The texts in the order of insertion.
    pub closed spec fn items(self) -> Seq<Seq<char>> {
        self.items.keys()
    }

    /// An empty set.
    pub fn new() -> (set: Self)
        ensures
            set@ == Set::<Seq<char>>::empty(),
            set.items() == Seq::<Seq<char>>::empty(),
    {
        StringSet { items: StringMap::new() }
    }

    /// The number of texts. Each text of the set stands once in the order of insertion.
    pub fn len(&self) -> (n: usize)
        ensures
            n == self@.len(),
            self@.finite(),
            n == self.items().len(),
            self.items().no_duplicates(),
            self.items().to_set() == self@,
    {
        self.items.len()
    }

    /// The text that stands at a position of the order of insertion.
    pub fn item(&self, i: usize) -> (text: &String)
        requires
            i < self.items().len(),
        ensures
            text@ == self.items()[i as int],
            self@.contains(text@),
    {
        self.items.entry(i).0
    }

    /// Whether a text is in the set.
    pub fn contains(&self, text: &str) -> (found: bool)
        ensures
            found == self@.contains(text@),
    {
        self.items.contains_key(text)
    }

    /// Adds a text.
    pub fn insert(&mut self, text: String)
        ensures
            final(self)@ == old(self)@.insert(text@),
            final(self).items() == if old(self)@.contains(text@) {
                old(self).items()
            } else {
                old(self).items().push(text@)
            },
    {
        self.items.insert(text, ());
    }
}

} // verus!
