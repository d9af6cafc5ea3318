//! The attribute map: a record of typed values under string keys, in which
//! select options are stored.

use vstd::prelude::*;

verus! {

/// A typed value of an attribute map.
#[derive(Debug)]
pub enum AnyValue {
    Str(String),
    Int(i64),
}

/// What an [`AnyValue`] holds, as a mathematical value.
pub ghost enum AnyValueView {
    Str(Seq<char>),
    Int(i64),
}

impl View for AnyValue {
    type V = AnyValueView;

    open spec fn view(&self) -> AnyValueView {
        match self {
            AnyValue::Str(text) => AnyValueView::Str(text@),
            AnyValue::Int(number) => AnyValueView::Int(*number),
        }
    }
}

/// The string that a map holds under a key; `None` where the key is missing
/// or holds a value of another type.
pub open spec fn str_value(map: Map<Seq<char>, AnyValueView>, key: Seq<char>) -> Option<Seq<char>> {
    if map.contains_key(key) {
        match map[key] {
            AnyValueView::Str(text) => Some(text),
            AnyValueView::Int(_) => None,
        }
    } else {
        None
    }
}

/// The integer that a map holds under a key; `None` where the key is missing
/// or holds a value of another type.
pub open spec fn i64_value(map: Map<Seq<char>, AnyValueView>, key: Seq<char>) -> Option<i64> {
    if map.contains_key(key) {
        match map[key] {
            AnyValueView::Int(number) => Some(number),
            AnyValueView::Str(_) => None,
        }
    } else {
        None
    }
}

/// A map from string keys to typed values, kept as a list of entries. The
/// value of a key is that of the first entry under it; a map built by `new`
/// and `insert` has one entry for each key (see [`AnyMap::wf`]).
#[derive(Debug)]
pub struct AnyMap {
    entries: Vec<(String, AnyValue)>,
}

impl View for AnyMap {
    type V = Map<Seq<char>, AnyValueView>;

    closed spec fn view(&self) -> Map<Seq<char>, AnyValueView> {
        Map::new(
            |key: Seq<char>| self.holds(key),
            |key: Seq<char>| self.entries[self.index_of(key)].1@,
        )
    }
}

impl AnyMap {
    spec fn key_at(self, i: int) -> Seq<char> {
        self.entries[i].0@
    }

    /// Entry `i` is the first one under `key`.
    spec fn is_first(self, i: int, key: Seq<char>) -> bool {
        &&& 0 <= i < self.entries.len()
        &&& self.key_at(i) == key
        &&& forall|j: int| 0 <= j < i ==> self.key_at(j) != key
    }

    spec fn holds(self, key: Seq<char>) -> bool {
        exists|i: int| self.is_first(i, key)
    }

    spec fn index_of(self, key: Seq<char>) -> int {
        choose|i: int| self.is_first(i, key)
    }

    /// No key occurs twice among the entries.
    pub closed spec fn wf(&self) -> bool {
        forall|i: int, j: int|
            0 <= i < j < self.entries.len() ==> self.key_at(i) != self.key_at(j)
    }

    proof fn lemma_first(self, i: int, key: Seq<char>)
        requires
            self.is_first(i, key),
        ensures
            self.holds(key),
            self.index_of(key) == i,
            self@.contains_key(key),
            self@[key] == self.entries[i].1@,
    {
        let j = self.index_of(key);
        assert(self.is_first(j, key));
        if j < i {
            assert(self.key_at(j) != key);
        }
        if i < j {
            assert(self.key_at(i) != key);
        }
    }

    /// The empty map.
    pub fn new() -> (map: Self)
        ensures
            map@ == Map::<Seq<char>, AnyValueView>::empty(),
            map.wf(),
    {
        let map = AnyMap { entries: Vec::new() };
        assert(map@ =~= Map::<Seq<char>, AnyValueView>::empty());
        map
    }

    fn position(&self, key: &String) -> (found: Option<usize>)
        ensures
            match found {
                Some(i) => self.is_first(i as int, key@),
                None => forall|j: int| 0 <= j < self.entries.len() ==> self.key_at(j) != key@,
            },
    {
        let mut i: usize = 0;
        while i < self.entries.len()
            invariant
                i <= self.entries.len(),
                forall|j: int| 0 <= j < i ==> self.key_at(j) != key@,
            decreases self.entries.len() - i,
        {
            if self.entries[i].0 == *key {
                return Some(i);
            }
            i += 1;
        }
        None
    }

    /// The value under `key`, if the map holds one.
    pub fn get(&self, key: &str) -> (value: Option<&AnyValue>)
        ensures
            match value {
                Some(held) => self@.contains_key(key@) && self@[key@] == held@,
                None => !self@.contains_key(key@),
            },
    {
        let owned = key.to_owned();
        match self.position(&owned) {
            Some(i) => {
                proof {
                    self.lemma_first(i as int, key@);
                }
                Some(&self.entries[i].1)
            },
            None => None,
        }
    }

    /// Puts `value` under `key`, in place of what the key held before.
    pub fn insert(&mut self, key: &str, value: AnyValue)
        ensures
            final(self)@ == old(self)@.insert(key@, value@),
            old(self).wf() ==> final(self).wf(),
    {
        let owned = key.to_owned();
        let ghost before = *self;
        let ghost held = value@;
        let found = self.position(&owned);
        match found {
            Some(i) => {
                self.entries.set(i, (owned, value));
            },
            None => {
                self.entries.push((owned, value));
            },
        }
        proof {
            let after = *self;
            let n = before.entries.len() as int;
            let at = match found {
                Some(i) => i as int,
                None => n,
            };
            assert forall|j: int| 0 <= j < n implies after.key_at(j) == before.key_at(j) by {}
            assert(after.is_first(at, key@));
            assert forall|i: int, k: Seq<char>| k != key@ implies after.is_first(i, k)
                == before.is_first(i, k) by {}
            assert forall|k: Seq<char>| after.holds(k) == (before.holds(k) || k == key@) by {
                if k != key@ && before.holds(k) {
                    assert(after.is_first(before.index_of(k), k));
                }
                if k != key@ && after.holds(k) {
                    assert(before.is_first(after.index_of(k), k));
                }
            }
            assert forall|k: Seq<char>| after.holds(k) implies #[trigger] after@[k]
                == before@.insert(key@, held)[k] by {
                let j = after.index_of(k);
                after.lemma_first(j, k);
                if k != key@ {
                    before.lemma_first(j, k);
                } else {
                    after.lemma_first(at, k);
                }
            }
            assert(after@ =~= before@.insert(key@, held));
        }
    }

    /// The string under `key`; `None` where the key is missing or holds a
    /// value that is no string.
    pub fn get_str_value(&self, key: &str) -> (value: Option<String>)
        ensures
            match value {
                Some(text) => str_value(self@, key@) == Some(text@),
                None => str_value(self@, key@).is_none(),
            },
    {
        match self.get(key) {
            Some(AnyValue::Str(text)) => Some(text.clone()),
            _ => None,
        }
    }

    /// The integer under `key`; `None` where the key is missing or holds a
    /// value that is no integer.
    pub fn get_i64_value(&self, key: &str) -> (value: Option<i64>)
        ensures
            value == i64_value(self@, key@),
    {
        match self.get(key) {
            Some(AnyValue::Int(number)) => Some(*number),
            _ => None,
        }
    }

    /// Puts the string `value` under `key`.
    pub fn insert_str_value(&mut self, key: &str, value: String)
        ensures
            final(self)@ == old(self)@.insert(key@, AnyValueView::Str(value@)),
            old(self).wf() ==> final(self).wf(),
    {
        self.insert(key, AnyValue::Str(value));
    }

    /// Puts the integer `value` under `key`.
    pub fn insert_i64_value(&mut self, key: &str, value: i64)
        ensures
            final(self)@ == old(self)@.insert(key@, AnyValueView::Int(value)),
            old(self).wf() ==> final(self).wf(),
    {
        self.insert(key, AnyValue::Int(value));
    }
}

} // verus!
