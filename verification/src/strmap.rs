//! A small map from strings to strings, kept in insertion order, each key
//! once.

use vstd::prelude::*;

use crate::text::{push_str, same};

verus! {

/// The map the entries stand for: each key with its value, a later entry
/// for a key standing over an earlier one.
pub open spec fn map_of(entries: Seq<(Seq<char>, Seq<char>)>) -> Map<Seq<char>, Seq<char>>
    decreases entries.len(),
{
    if entries.len() == 0 {
        Map::empty()
    } else {
        map_of(entries.drop_last()).insert(entries.last().0, entries.last().1)
    }
}

/// No key appears twice.
pub open spec fn keys_unique(entries: Seq<(Seq<char>, Seq<char>)>) -> bool {
    forall|i: int, j: int|
        0 <= i < entries.len() && 0 <= j < entries.len() && i != j ==> #[trigger] entries[i].0
            != #[trigger] entries[j].0
}

/// Where a key stands in the entries, with unique keys.
pub proof fn lemma_map_of_at(entries: Seq<(Seq<char>, Seq<char>)>, i: int)
    requires
        keys_unique(entries),
        0 <= i < entries.len(),
    ensures
        map_of(entries).contains_key(entries[i].0),
        map_of(entries)[entries[i].0] == entries[i].1,
    decreases entries.len(),
{
    if i < entries.len() - 1 {
        let rest = entries.drop_last();
        assert(rest[i] == entries[i]);
        assert(keys_unique(rest)) by {
            assert forall|a: int, b: int|
                0 <= a < rest.len() && 0 <= b < rest.len() && a != b implies #[trigger] rest[a].0
                != #[trigger] rest[b].0 by {
                assert(rest[a] == entries[a]);
                assert(rest[b] == entries[b]);
            }
        }
        lemma_map_of_at(rest, i);
        assert(entries.last() == entries[entries.len() - 1]);
        assert(entries[entries.len() - 1].0 != entries[i].0);
    }
}

/// A key not among the entries is not in the map.
pub proof fn lemma_map_of_absent(entries: Seq<(Seq<char>, Seq<char>)>, key: Seq<char>)
    requires
        forall|i: int| 0 <= i < entries.len() ==> #[trigger] entries[i].0 != key,
    ensures
        !map_of(entries).contains_key(key),
    decreases entries.len(),
{
    if entries.len() > 0 {
        let rest = entries.drop_last();
        assert forall|i: int| 0 <= i < rest.len() implies #[trigger] rest[i].0 != key by {
            assert(rest[i] == entries[i]);
        }
        lemma_map_of_absent(rest, key);
        assert(entries.last() == entries[entries.len() - 1]);
    }
}

/// Writing over the entry of a key is inserting it into the map.
pub proof fn lemma_map_of_update(
    entries: Seq<(Seq<char>, Seq<char>)>,
    i: int,
    value: Seq<char>,
)
    requires
        keys_unique(entries),
        0 <= i < entries.len(),
    ensures
        keys_unique(entries.update(i, (entries[i].0, value))),
        map_of(entries.update(i, (entries[i].0, value))) == map_of(entries).insert(
            entries[i].0,
            value,
        ),
    decreases entries.len(),
{
    let key = entries[i].0;
    let updated = entries.update(i, (key, value));
    assert(keys_unique(updated)) by {
        assert forall|a: int, b: int|
            0 <= a < updated.len() && 0 <= b < updated.len() && a != b implies #[trigger] updated[a].0
            != #[trigger] updated[b].0 by {
            assert(updated[a].0 == entries[a].0);
            assert(updated[b].0 == entries[b].0);
        }
    }
    let rest = entries.drop_last();
    assert(keys_unique(rest)) by {
        assert forall|a: int, b: int|
            0 <= a < rest.len() && 0 <= b < rest.len() && a != b implies #[trigger] rest[a].0
            != #[trigger] rest[b].0 by {
            assert(rest[a] == entries[a]);
            assert(rest[b] == entries[b]);
        }
    }
    if i == entries.len() - 1 {
        assert(updated.drop_last() =~= rest);
        assert(map_of(updated) =~= map_of(entries).insert(key, value));
    } else {
        lemma_map_of_update(rest, i, value);
        assert(updated.drop_last() =~= rest.update(i, (key, value)));
        assert(updated.last() == entries.last());
        assert(entries.last().0 != key) by {
            assert(entries.last() == entries[entries.len() - 1]);
        }
        assert(map_of(updated) =~= map_of(entries).insert(key, value));
    }
}

/// A map from strings to strings.
#[derive(Debug)]
pub struct StrMap {
    entries: Vec<(String, String)>,
}

impl View for StrMap {
    type V = Map<Seq<char>, Seq<char>>;

    closed spec fn view(&self) -> Map<Seq<char>, Seq<char>> {
        map_of(self.pairs())
    }
}

pub open spec fn pairs_of(entries: Seq<(String, String)>) -> Seq<(Seq<char>, Seq<char>)> {
    Seq::new(entries.len(), |i: int| (entries[i].0@, entries[i].1@))
}

impl StrMap {
    /// The entries, in the order their keys first came.
    pub closed spec fn pairs(&self) -> Seq<(Seq<char>, Seq<char>)> {
        pairs_of(self.entries@)
    }

    /// Each key once.
    #[verifier::type_invariant]
    closed spec fn keys_once(&self) -> bool {
        keys_unique(pairs_of(self.entries@))
    }

    pub fn new() -> (m: StrMap)
        ensures
            m@ == Map::<Seq<char>, Seq<char>>::empty(),
            m.pairs().len() == 0,
    {
        let m = StrMap { entries: Vec::new() };
        assert(m.pairs() =~= Seq::<(Seq<char>, Seq<char>)>::empty());
        m
    }

    fn find(&self, key: &str) -> (r: Option<usize>)
        ensures
            match r {
                Some(i) => i < self.pairs().len() && self.pairs()[i as int].0 == key@,
                None => forall|i: int| 0 <= i < self.pairs().len() ==> #[trigger] self.pairs()[i].0 != key@,
            },
    {
        let mut i: usize = 0;
        while i < self.entries.len()
            invariant
                i <= self.entries@.len(),
                forall|k: int| 0 <= k < i ==> #[trigger] self.pairs()[k].0 != key@,
            decreases self.entries@.len() - i,
        {
            if same(self.entries[i].0.as_str(), key) {
                return Some(i);
            }
            i = i + 1;
        }
        None
    }

    /// The value at `key`, if there is one.
    pub fn get(&self, key: &str) -> (r: Option<&str>)
        ensures
            match r {
                Some(v) => self@.contains_key(key@) && self@[key@] == v@,
                None => !self@.contains_key(key@),
            },
    {
        proof {
            use_type_invariant(self);
        }
        match self.find(key) {
            Some(i) => {
                proof {
                    lemma_map_of_at(self.pairs(), i as int);
                }
                Some(self.entries[i].1.as_str())
            },
            None => {
                proof {
                    lemma_map_of_absent(self.pairs(), key@);
                }
                None
            },
        }
    }

    /// Whether `key` has a value.
    pub fn contains(&self, key: &str) -> (r: bool)
        ensures
            r == self@.contains_key(key@),
    {
        self.get(key).is_some()
    }

    /// Sets `key` to `value`.
    pub fn insert(&mut self, key: String, value: String)
        ensures
            final(self)@ == old(self)@.insert(key@, value@),
    {
        proof {
            use_type_invariant(&*self);
        }
        let ghost before = self.pairs();
        let found = self.find(key.as_str());
        let mut entries: Vec<(String, String)> = Vec::new();
        std::mem::swap(&mut entries, &mut self.entries);
        assert(pairs_of(entries@) == before);
        match found {
            Some(i) => {
                entries.set(i, (key, value));
                proof {
                    lemma_map_of_update(before, i as int, value@);
                    assert(pairs_of(entries@) =~= before.update(i as int, (key@, value@)));
                }
            },
            None => {
                entries.push((key, value));
                proof {
                    let now = pairs_of(entries@);
                    assert(now.drop_last() =~= before);
                    assert(keys_unique(now)) by {
                        assert forall|a: int, b: int|
                            0 <= a < now.len() && 0 <= b < now.len() && a != b implies #[trigger] now[a].0
                            != #[trigger] now[b].0 by {
                            if a < before.len() && b < before.len() {
                                assert(now[a] == before[a]);
                                assert(now[b] == before[b]);
                            } else if a < before.len() {
                                assert(now[a] == before[a]);
                            } else if b < before.len() {
                                assert(now[b] == before[b]);
                            }
                        }
                    }
                }
            },
        }
        self.entries = entries;
    }

    /// Appends `more` to the value at `key`, starting from nothing when there
    /// is none.
    pub fn append(&mut self, key: &str, more: &str)
        ensures
            final(self)@ == old(self)@.insert(
                key@,
                (if old(self)@.contains_key(key@) {
                    old(self)@[key@]
                } else {
                    Seq::empty()
                }) + more@,
            ),
    {
        let mut value = match self.get(key) {
            Some(v) => v.to_owned(),
            None => String::new(),
        };
        push_str(&mut value, more);
        self.insert(key.to_owned(), value);
    }

    /// Starts `key` at the empty string unless it already has a value.
    pub fn ensure(&mut self, key: &str)
        ensures
            final(self)@ == (if old(self)@.contains_key(key@) {
                old(self)@
            } else {
                old(self)@.insert(key@, Seq::empty())
            }),
    {
        if !self.contains(key) {
            self.insert(key.to_owned(), String::new());
        }
    }

    /// How many keys have a value.
    pub fn len(&self) -> (n: usize)
        ensures
            n == self.pairs().len(),
    {
        self.entries.len()
    }

    /// The key and value at position `i`, in the order keys first came.
    pub fn entry(&self, i: usize) -> (r: (&str, &str))
        requires
            i < self.pairs().len(),
        ensures
            r.0@ == self.pairs()[i as int].0,
            r.1@ == self.pairs()[i as int].1,
    {
        (self.entries[i].0.as_str(), self.entries[i].1.as_str())
    }
}

impl Clone for StrMap {
    fn clone(&self) -> (r: Self)
        ensures
            r@ == self@,
            r.pairs() == self.pairs(),
    {
        proof {
            use_type_invariant(self);
        }
        let mut out: Vec<(String, String)> = Vec::new();
        let mut i: usize = 0;
        while i < self.entries.len()
            invariant
                i <= self.entries@.len(),
                out@.len() == i,
                pairs_of(out@) == self.pairs().subrange(0, i as int),
            decreases self.entries@.len() - i,
        {
            let ghost prev = out@;
            let k0 = self.entries[i].0.clone();
            let k1 = self.entries[i].1.clone();
            out.push((k0, k1));
            proof {
                assert(out@ == prev.push((k0, k1)));
                assert forall|k: int| 0 <= k < i + 1 implies #[trigger] pairs_of(out@)[k]
                    == self.pairs()[k] by {
                    if k < i {
                        assert(out@[k] == prev[k]);
                        assert(pairs_of(prev)[k] == self.pairs().subrange(0, i as int)[k]);
                    }
                }
            }
            i = i + 1;
            assert(pairs_of(out@) =~= self.pairs().subrange(0, i as int));
        }
        assert(pairs_of(out@) =~= self.pairs());
        StrMap { entries: out }
    }
}

impl Default for StrMap {
    fn default() -> (m: Self)
        ensures
            m@ == Map::<Seq<char>, Seq<char>>::empty(),
    {
        StrMap::new()
    }
}

} // verus!
