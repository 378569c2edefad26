//! A map from text keys to values, held as two parallel vectors with
//! distinct keys; inserting a key that is present replaces its value.

use vstd::prelude::*;

use crate::text::str_eq;

verus! {

/// The map that the keys and values denote: each key to the value beside it.
pub open spec fn map_of<V>(keys: Seq<String>, vals: Seq<V>) -> Map<Seq<char>, V>
    decreases keys.len(),
{
    if keys.len() == 0 || vals.len() == 0 {
        Map::empty()
    } else {
        map_of(keys.drop_last(), vals.drop_last()).insert(keys.last()@, vals.last())
    }
}

pub open spec fn distinct_keys(keys: Seq<String>) -> bool {
    forall|i: int, j: int| 0 <= i < j < keys.len() ==> (#[trigger] keys[i])@ != (#[trigger] keys[j])@
}

proof fn lemma_map_of_dom<V>(keys: Seq<String>, vals: Seq<V>, k: Seq<char>)
    requires
        keys.len() == vals.len(),
    ensures
        map_of(keys, vals).contains_key(k) <==> exists|i: int| 0 <= i < keys.len() && (#[trigger] keys[i])@ == k,
    decreases keys.len(),
{
    if keys.len() > 0 {
        lemma_map_of_dom(keys.drop_last(), vals.drop_last(), k);
        if map_of(keys.drop_last(), vals.drop_last()).contains_key(k) {
            let i = choose|i: int| 0 <= i < keys.len() - 1 && (#[trigger] keys.drop_last()[i])@ == k;
            assert(keys[i]@ == k);
        }
        if exists|i: int| 0 <= i < keys.len() && (#[trigger] keys[i])@ == k {
            let i = choose|i: int| 0 <= i < keys.len() && (#[trigger] keys[i])@ == k;
            if i < keys.len() - 1 {
                assert(keys.drop_last()[i]@ == k);
            }
        }
    }
}

proof fn lemma_map_of_at<V>(keys: Seq<String>, vals: Seq<V>, i: int)
    requires
        keys.len() == vals.len(),
        distinct_keys(keys),
        0 <= i < keys.len(),
    ensures
        map_of(keys, vals).contains_key(keys[i]@),
        map_of(keys, vals)[keys[i]@] == vals[i],
    decreases keys.len(),
{
    if i < keys.len() - 1 {
        assert(distinct_keys(keys.drop_last()));
        lemma_map_of_at(keys.drop_last(), vals.drop_last(), i);
        assert(keys[i]@ != keys.last()@);
    }
}

proof fn lemma_map_of_update<V>(keys: Seq<String>, vals: Seq<V>, i: int, v: V)
    requires
        keys.len() == vals.len(),
        distinct_keys(keys),
        0 <= i < keys.len(),
    ensures
        map_of(keys, vals.update(i, v)) == map_of(keys, vals).insert(keys[i]@, v),
    decreases keys.len(),
{
    if i == keys.len() - 1 {
        assert(vals.update(i, v).drop_last() =~= vals.drop_last());
        assert(map_of(keys, vals.update(i, v)) =~= map_of(keys, vals).insert(keys[i]@, v));
    } else {
        assert(distinct_keys(keys.drop_last()));
        assert(vals.update(i, v).drop_last() =~= vals.drop_last().update(i, v));
        lemma_map_of_update(keys.drop_last(), vals.drop_last(), i, v);
        assert(keys[i]@ != keys.last()@);
        assert(map_of(keys, vals.update(i, v)) =~= map_of(keys, vals).insert(keys[i]@, v));
    }
}

/// Text keys to values.
#[derive(Debug)]
pub struct KeyedMap<V> {
    keys: Vec<String>,
    vals: Vec<V>,
}

impl<V> View for KeyedMap<V> {
    type V = Map<Seq<char>, V>;

    closed spec fn view(&self) -> Map<Seq<char>, V> {
        map_of(self.keys@, self.vals@)
    }
}

impl<V> KeyedMap<V> {
    /// Parallel vectors of equal length, each key once.
    pub closed spec fn wf(&self) -> bool {
        self.keys@.len() == self.vals@.len() && distinct_keys(self.keys@)
    }

    pub fn new() -> (r: Self)
        ensures
            r.wf(),
            r@ == Map::<Seq<char>, V>::empty(),
    {
        KeyedMap { keys: Vec::new(), vals: Vec::new() }
    }

    fn index_of(&self, key: &str) -> (r: Option<usize>)
        requires
            self.wf(),
        ensures
            r matches Some(i) ==> i < self.keys@.len() && self.keys@[i as int]@ == key@,
            r is None ==> forall|j: int| 0 <= j < self.keys@.len() ==> (#[trigger] self.keys@[j])@ != key@,
    {
        let mut i: usize = 0;
        while i < self.keys.len()
            invariant
                i <= self.keys@.len(),
                forall|j: int| 0 <= j < i ==> (#[trigger] self.keys@[j])@ != key@,
            decreases self.keys@.len() - i,
        {
            if str_eq(self.keys[i].as_str(), key) {
                return Some(i);
            }
            i = i + 1;
        }
        None
    }

    /// The value of `key`, if present.
    pub fn get(&self, key: &str) -> (r: Option<&V>)
        requires
            self.wf(),
        ensures
            self@.contains_key(key@) ==> r == Some(&self@[key@]),
            !self@.contains_key(key@) ==> r is None,
    {
        proof { lemma_map_of_dom(self.keys@, self.vals@, key@); }
        match self.index_of(key) {
            Some(i) => {
                proof { lemma_map_of_at(self.keys@, self.vals@, i as int); }
                Some(&self.vals[i])
            },
            None => None,
        }
    }

    /// Whether `key` is present.
    pub fn contains_key(&self, key: &str) -> (r: bool)
        requires
            self.wf(),
        ensures
            r == self@.contains_key(key@),
    {
        proof { lemma_map_of_dom(self.keys@, self.vals@, key@); }
        self.index_of(key).is_some()
    }

    /// Number of keys.
    pub fn len(&self) -> (r: usize)
        requires
            self.wf(),
        ensures
            r == self@.dom().len(),
    {
        proof { self.lemma_len(); }
        self.keys.len()
    }

    /// Whether there is no key.
    pub fn is_empty(&self) -> (r: bool)
        requires
            self.wf(),
        ensures
            r == (self@.dom().len() == 0),
    {
        proof { self.lemma_len(); }
        self.keys.len() == 0
    }

    proof fn lemma_len(&self)
        requires
            self.wf(),
        ensures
            self@.dom().finite(),
            self@.dom().len() == self.keys@.len(),
    {
        lemma_map_of_len(self.keys@, self.vals@);
    }

    /// Sets the value of `key`, replacing the one it had.
    pub fn insert(&mut self, key: String, value: V)
        requires
            old(self).wf(),
        ensures
            final(self).wf(),
            final(self)@ == old(self)@.insert(key@, value),
    {
        match self.index_of(key.as_str()) {
            Some(i) => {
                proof { lemma_map_of_update(self.keys@, self.vals@, i as int, value); }
                self.vals.set(i, value);
            },
            None => {
                self.keys.push(key);
                self.vals.push(value);
                assert(self.keys@.drop_last() =~= old(self).keys@);
                assert(self.vals@.drop_last() =~= old(self).vals@);
            },
        }
    }
}

proof fn lemma_map_of_len<V>(keys: Seq<String>, vals: Seq<V>)
    requires
        keys.len() == vals.len(),
        distinct_keys(keys),
    ensures
        map_of(keys, vals).dom().finite(),
        map_of(keys, vals).dom().len() == keys.len(),
    decreases keys.len(),
{
    if keys.len() > 0 {
        assert(distinct_keys(keys.drop_last()));
        lemma_map_of_len(keys.drop_last(), vals.drop_last());
        lemma_map_of_dom(keys.drop_last(), vals.drop_last(), keys.last()@);
        assert(!map_of(keys.drop_last(), vals.drop_last()).contains_key(keys.last()@)) by {
            if map_of(keys.drop_last(), vals.drop_last()).contains_key(keys.last()@) {
                let i = choose|i: int| 0 <= i < keys.len() - 1 && (#[trigger] keys.drop_last()[i])@ == keys.last()@;
                assert(keys[i]@ == keys[keys.len() - 1]@);
            }
        }
    }
}

} // verus!
