//! A small map from text keys to values, kept as a list in insertion order.
use vstd::prelude::*;

use crate::text::{owned, str_eq};

verus! {

/// The keys of a list of entries, by their characters.
pub open spec fn keys_of<V>(s: Seq<(String, V)>) -> Seq<Seq<char>> {
    s.map_values(|e: (String, V)| e.0@)
}

/// The map that a list of entries with distinct keys stands for.
pub open spec fn map_of<V>(s: Seq<(String, V)>) -> Map<Seq<char>, V>
    decreases s.len(),
{
    if s.len() == 0 {
        Map::empty()
    } else {
        map_of(s.drop_last()).insert(s.last().0@, s.last().1)
    }
}

proof fn lemma_keys_drop_last<V>(s: Seq<(String, V)>)
    requires
        s.len() > 0,
    ensures
        keys_of(s.drop_last()) == keys_of(s).drop_last(),
        keys_of(s).no_duplicates() ==> keys_of(s.drop_last()).no_duplicates(),
        keys_of(s)[s.len() - 1] == s.last().0@,
{
    assert(keys_of(s.drop_last()) =~= keys_of(s).drop_last());
}

proof fn lemma_map_of_dom<V>(s: Seq<(String, V)>, k: Seq<char>)
    ensures
        map_of(s).contains_key(k) <==> keys_of(s).contains(k),
    decreases s.len(),
{
    if s.len() > 0 {
        let t = s.drop_last();
        lemma_map_of_dom(t, k);
        lemma_keys_drop_last(s);
        let ks = keys_of(s);
        if keys_of(t).contains(k) {
            let i = choose|i: int| 0 <= i < keys_of(t).len() && keys_of(t)[i] == k;
            assert(ks[i] == k);
        }
        if ks.contains(k) {
            let i = choose|i: int| 0 <= i < ks.len() && ks[i] == k;
            if i < ks.len() - 1 {
                assert(keys_of(t)[i] == k);
            }
        }
    }
}

proof fn lemma_map_of_at<V>(s: Seq<(String, V)>, i: int)
    requires
        keys_of(s).no_duplicates(),
        0 <= i < s.len(),
    ensures
        map_of(s).contains_key(s[i].0@),
        map_of(s)[s[i].0@] == s[i].1,
    decreases s.len(),
{
    lemma_keys_drop_last(s);
    if i < s.len() - 1 {
        lemma_map_of_at(s.drop_last(), i);
        assert(keys_of(s)[i] == s[i].0@);
    }
}

proof fn lemma_map_of_update<V>(s: Seq<(String, V)>, i: int, v: V)
    requires
        keys_of(s).no_duplicates(),
        0 <= i < s.len(),
    ensures
        map_of(s.update(i, (s[i].0, v))) == map_of(s).insert(s[i].0@, v),
        keys_of(s.update(i, (s[i].0, v))) == keys_of(s),
    decreases s.len(),
{
    let t = s.update(i, (s[i].0, v));
    assert(keys_of(t) =~= keys_of(s));
    lemma_keys_drop_last(s);
    if i == s.len() - 1 {
        assert(t.drop_last() =~= s.drop_last());
        assert(map_of(t) =~= map_of(s).insert(s[i].0@, v));
    } else {
        lemma_map_of_update(s.drop_last(), i, v);
        assert(t.drop_last() =~= s.drop_last().update(i, (s[i].0, v)));
        assert(keys_of(s)[i] == s[i].0@);
        assert(map_of(t) =~= map_of(s).insert(s[i].0@, v));
    }
}

proof fn lemma_map_of_remove<V>(s: Seq<(String, V)>, i: int)
    requires
        keys_of(s).no_duplicates(),
        0 <= i < s.len(),
    ensures
        map_of(s.remove(i)) == map_of(s).remove(s[i].0@),
        keys_of(s.remove(i)) == keys_of(s).remove(i),
        keys_of(s.remove(i)).no_duplicates(),
    decreases s.len(),
{
    let t = s.remove(i);
    assert(keys_of(t) =~= keys_of(s).remove(i));
    lemma_keys_drop_last(s);
    let k = s[i].0@;
    if i == s.len() - 1 {
        assert(t =~= s.drop_last());
        lemma_map_of_dom(t, k);
        assert forall|j: int| 0 <= j < keys_of(t).len() implies keys_of(t)[j] != k by {
            assert(keys_of(s)[j] == keys_of(t)[j]);
        }
        assert(map_of(t) =~= map_of(s).remove(k));
    } else {
        lemma_map_of_remove(s.drop_last(), i);
        assert(t.drop_last() =~= s.drop_last().remove(i));
        assert(t.last() == s.last());
        assert(keys_of(s)[i] == k);
        assert(map_of(t) =~= map_of(s).remove(k));
    }
}

proof fn lemma_map_of_len<V>(s: Seq<(String, V)>)
    requires
        keys_of(s).no_duplicates(),
    ensures
        map_of(s).dom().finite(),
        map_of(s).dom().len() == s.len(),
    decreases s.len(),
{
    if s.len() > 0 {
        lemma_keys_drop_last(s);
        let t = s.drop_last();
        lemma_map_of_len(t);
        lemma_map_of_dom(t, s.last().0@);
        assert forall|j: int| 0 <= j < keys_of(t).len() implies keys_of(t)[j] != s.last().0@ by {
            assert(keys_of(s)[j] == keys_of(t)[j]);
        }
    }
}

/// Values kept under text keys, each key at most once.
pub struct KeyedMap<V> {
    entries: Vec<(String, V)>,
}

impl<V> View for KeyedMap<V> {
    type V = Map<Seq<char>, V>;

    closed spec fn view(&self) -> Map<Seq<char>, V> {
        map_of(self.entries@)
    }
}

impl<V> KeyedMap<V> {
    /// No key is kept twice.
    pub closed spec fn wf(&self) -> bool {
        keys_of(self.entries@).no_duplicates()
    }

    /// An empty map.
    pub fn new() -> (r: KeyedMap<V>)
        ensures
            r.wf(),
            r@ == Map::<Seq<char>, V>::empty(),
    {
        let r = KeyedMap { entries: Vec::new() };
        assert(keys_of(r.entries@) =~= Seq::<Seq<char>>::empty());
        r
    }

    fn position(&self, key: &str) -> (r: Option<usize>)
        ensures
            match r {
                Some(i) => i < self.entries.len() && self.entries@[i as int].0@ == key@,
                None => !keys_of(self.entries@).contains(key@),
            },
    {
        let mut i: usize = 0;
        while i < self.entries.len()
            invariant
                i <= self.entries.len(),
                forall|j: int| 0 <= j < i ==> self.entries@[j].0@ != key@,
            decreases self.entries.len() - i,
        {
            if str_eq(self.entries[i].0.as_str(), key) {
                return Some(i);
            }
            i += 1;
        }
        proof {
            if keys_of(self.entries@).contains(key@) {
                let j = choose|j: int|
                    0 <= j < keys_of(self.entries@).len() && keys_of(self.entries@)[j] == key@;
                assert(self.entries@[j].0@ == key@);
            }
        }
        None
    }

    /// The value kept under `key`.
    pub fn get(&self, key: &str) -> (r: Option<&V>)
        requires
            self.wf(),
        ensures
            r == (if self@.contains_key(key@) {
                Some(&self@[key@])
            } else {
                None
            }),
    {
        proof {
            lemma_map_of_dom(self.entries@, key@);
        }
        match self.position(key) {
            Some(i) => {
                proof {
                    lemma_map_of_at(self.entries@, i as int);
                }
                Some(&self.entries[i].1)
            },
            None => None,
        }
    }

    /// How many keys are kept.
    pub fn len(&self) -> (r: usize)
        requires
            self.wf(),
        ensures
            r == self@.dom().len(),
    {
        proof {
            lemma_map_of_len(self.entries@);
        }
        self.entries.len()
    }

    /// Whether something is kept under `key`.
    pub fn contains_key(&self, key: &str) -> (r: bool)
        requires
            self.wf(),
        ensures
            r == self@.contains_key(key@),
    {
        proof {
            lemma_map_of_dom(self.entries@, key@);
        }
        match self.position(key) {
            Some(i) => {
                assert(keys_of(self.entries@)[i as int] == key@);
                true
            },
            None => false,
        }
    }

    /// Keeps `value` under `key`, replacing what was there.
    pub fn insert(&mut self, key: &str, value: V)
        requires
            old(self).wf(),
        ensures
            final(self).wf(),
            final(self)@ == old(self)@.insert(key@, value),
    {
        match self.position(key) {
            Some(i) => {
                let ghost s = self.entries@;
                let entry = &mut self.entries[i];
                entry.1 = value;
                proof {
                    lemma_map_of_update(s, i as int, value);
                }
            },
            None => {
                let ghost s = self.entries@;
                self.entries.push((owned(key), value));
                proof {
                    assert(self.entries@.drop_last() =~= s);
                    assert(keys_of(self.entries@) =~= keys_of(s).push(key@));
                }
            },
        }
    }

    /// Drops what is kept under `key`, handing it back.
    pub fn remove(&mut self, key: &str) -> (r: Option<V>)
        requires
            old(self).wf(),
        ensures
            final(self).wf(),
            final(self)@ == old(self)@.remove(key@),
            r == (if old(self)@.contains_key(key@) {
                Some(old(self)@[key@])
            } else {
                None
            }),
    {
        proof {
            lemma_map_of_dom(self.entries@, key@);
        }
        match self.position(key) {
            Some(i) => {
                let ghost s = self.entries@;
                proof {
                    lemma_map_of_at(s, i as int);
                    lemma_map_of_remove(s, i as int);
                }
                let (_, v) = self.entries.remove(i);
                Some(v)
            },
            None => {
                assert(self@ =~= self@.remove(key@));
                None
            },
        }
    }
}

} // verus!
