//! A small map from text to text that remembers the order in which its keys
//! came in.

use vstd::prelude::*;
use vstd::string::*;

use crate::text::same_text;

verus! {

/// A map from text to text. Its entries stay in the order in which their
/// keys were first put in.
#[derive(Debug, Clone)]
pub struct StrMap {
    entries: Vec<(String, String)>,
}

/// The position of the first entry of `pairs` with the key `key`, if there is one.
pub open spec fn position_of(pairs: Seq<(Seq<char>, Seq<char>)>, key: Seq<char>) -> Option<int>
    decreases pairs.len(),
{
    if pairs.len() == 0 {
        None
    } else if pairs[0].0 == key {
        Some(0)
    } else {
        match position_of(pairs.drop_first(), key) {
            Some(i) => Some(i + 1),
            None => None,
        }
    }
}

/// `pairs` with `value` under `key`: in the place of the first entry with
/// that key, or at the end where there is none.
pub open spec fn put(pairs: Seq<(Seq<char>, Seq<char>)>, key: Seq<char>, value: Seq<char>) -> Seq<
    (Seq<char>, Seq<char>),
> {
    match position_of(pairs, key) {
        Some(i) => pairs.update(i, (key, value)),
        None => pairs.push((key, value)),
    }
}

/// The mapping that `pairs` stand for: each key with the value of its first entry.
pub open spec fn mapping(pairs: Seq<(Seq<char>, Seq<char>)>) -> Map<Seq<char>, Seq<char>>
    decreases pairs.len(),
{
    if pairs.len() == 0 {
        Map::empty()
    } else {
        mapping(pairs.drop_first()).insert(pairs[0].0, pairs[0].1)
    }
}

/// What the first position of a key says: the entry there has the key, and
/// none before it has; without a position no entry has the key.
pub proof fn lemma_position_of(pairs: Seq<(Seq<char>, Seq<char>)>, key: Seq<char>)
    ensures
        match position_of(pairs, key) {
            Some(i) => 0 <= i < pairs.len() && pairs[i].0 == key && forall|j: int|
                0 <= j < i ==> pairs[j].0 != key,
            None => forall|j: int| 0 <= j < pairs.len() ==> pairs[j].0 != key,
        },
        position_of(pairs, key) is Some <==> mapping(pairs).dom().contains(key),
        position_of(pairs, key) matches Some(i) ==> mapping(pairs)[key] == pairs[i].1,
    decreases pairs.len(),
{
    if pairs.len() > 0 {
        lemma_position_of(pairs.drop_first(), key);
        if pairs[0].0 != key {
            match position_of(pairs.drop_first(), key) {
                Some(i) => {
                    assert forall|j: int| 0 <= j < i + 1 implies pairs[j].0 != key by {
                        if j > 0 {
                            assert(pairs.drop_first()[j - 1] == pairs[j]);
                        }
                    }
                },
                None => {
                    assert forall|j: int| 0 <= j < pairs.len() implies pairs[j].0 != key by {
                        if j > 0 {
                            assert(pairs.drop_first()[j - 1] == pairs[j]);
                        }
                    }
                },
            }
        }
    }
}

/// Putting a value under a key changes the mapping at that key only.
pub proof fn lemma_put(pairs: Seq<(Seq<char>, Seq<char>)>, key: Seq<char>, value: Seq<char>)
    ensures
        mapping(put(pairs, key, value)) == mapping(pairs).insert(key, value),
    decreases pairs.len(),
{
    if pairs.len() == 0 {
        assert(put(pairs, key, value).drop_first() =~= pairs);
    } else if pairs[0].0 == key {
        assert(put(pairs, key, value).drop_first() =~= pairs.drop_first());
        assert(mapping(put(pairs, key, value)) =~= mapping(pairs).insert(key, value));
    } else {
        let rest = pairs.drop_first();
        lemma_put(rest, key, value);
        lemma_position_of(pairs, key);
        lemma_position_of(rest, key);
        assert(put(pairs, key, value).drop_first() =~= put(rest, key, value));
        assert(put(pairs, key, value)[0] == pairs[0]);
        assert(mapping(put(pairs, key, value)) =~= mapping(pairs).insert(key, value));
    }
}

impl StrMap {
    /// The entries, in order.
    pub closed spec fn pairs(&self) -> Seq<(Seq<char>, Seq<char>)> {
        self.entries@.map_values(|e: (String, String)| (e.0@, e.1@))
    }

    /// An empty map.
    pub fn new() -> (r: Self)
        ensures
            r.pairs() == Seq::<(Seq<char>, Seq<char>)>::empty(),
            r@ == Map::<Seq<char>, Seq<char>>::empty(),
    {
        let r = StrMap { entries: Vec::new() };
        assert(r.pairs() =~= Seq::<(Seq<char>, Seq<char>)>::empty());
        r
    }

    /// The number of entries.
    pub fn len(&self) -> (r: usize)
        ensures
            r == self.pairs().len(),
    {
        self.entries.len()
    }

    /// Whether the map has no entry.
    pub fn is_empty(&self) -> (r: bool)
        ensures
            r == (self.pairs().len() == 0),
    {
        self.entries.len() == 0
    }

    /// The key of the entry at position `i`.
    pub fn key_at(&self, i: usize) -> (r: &String)
        requires
            i < self.pairs().len(),
        ensures
            r@ == self.pairs()[i as int].0,
    {
        &self.entries[i].0
    }

    /// The value of the entry at position `i`.
    pub fn value_at(&self, i: usize) -> (r: &String)
        requires
            i < self.pairs().len(),
        ensures
            r@ == self.pairs()[i as int].1,
    {
        &self.entries[i].1
    }

    /// The position of the first entry with the key `key`.
    fn find(&self, key: &str) -> (r: Option<usize>)
        ensures
            match r {
                Some(i) => position_of(self.pairs(), key@) == Some(i as int),
                None => position_of(self.pairs(), key@) is None,
            },
    {
        let mut i: usize = 0;
        while i < self.entries.len()
            invariant
                i <= self.entries.len(),
                forall|j: int| 0 <= j < i ==> self.pairs()[j].0 != key@,
            decreases self.entries.len() - i,
        {
            assert(self.pairs()[i as int].0 == self.entries@[i as int].0@);
            if same_text(self.entries[i].0.as_str(), key) {
                proof {
                    lemma_position_of(self.pairs(), key@);
                }
                return Some(i);
            }
            i += 1;
        }
        proof {
            lemma_position_of(self.pairs(), key@);
        }
        None
    }

    /// The value under `key`, if there is one.
    pub fn get(&self, key: &str) -> (r: Option<&String>)
        ensures
            match r {
                Some(v) => self@.dom().contains(key@) && self@[key@] == v@,
                None => !self@.dom().contains(key@),
            },
    {
        proof {
            lemma_position_of(self.pairs(), key@);
        }
        match self.find(key) {
            Some(i) => Some(&self.entries[i].1),
            None => None,
        }
    }

    /// Whether there is a value under `key`.
    pub fn contains_key(&self, key: &str) -> (r: bool)
        ensures
            r == self@.dom().contains(key@),
    {
        self.get(key).is_some()
    }

    /// Puts `value` under `key`: in the place of the value that was there,
    /// or as a new entry at the end.
    pub fn insert(&mut self, key: String, value: String)
        ensures
            final(self).pairs() == put(old(self).pairs(), key@, value@),
            final(self)@ == old(self)@.insert(key@, value@),
    {
        proof {
            lemma_put(self.pairs(), key@, value@);
            lemma_position_of(self.pairs(), key@);
        }
        let ghost before = self.pairs();
        match self.find(key.as_str()) {
            Some(i) => {
                self.entries.remove(i);
                self.entries.insert(i, (key, value));
                assert(self.pairs() =~= before.update(i as int, (key@, value@)));
            },
            None => {
                self.entries.push((key, value));
                assert(self.pairs() =~= before.push((key@, value@)));
            },
        }
    }
}

impl View for StrMap {
    type V = Map<Seq<char>, Seq<char>>;

    open spec fn view(&self) -> Map<Seq<char>, Seq<char>> {
        mapping(self.pairs())
    }
}

} // verus!
