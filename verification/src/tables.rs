//! Tables keyed by text: display names, nonces, instance identities.

use vstd::prelude::*;

use crate::seqs;
use crate::text::same_text;

verus! {

/// A table keyed by text, in the order in which keys were first entered.
pub struct TextMap<V: View> {
    entries: Vec<(String, V)>,
}

/// The pairs that a list of entries stands for.
spec fn entry_pairs<V: View>(entries: Seq<(String, V)>) -> Seq<(Seq<char>, V::V)> {
    entries.map_values(|e: (String, V)| (e.0@, e.1@))
}

impl<V: View> View for TextMap<V> {
    type V = Map<Seq<char>, V::V>;

    closed spec fn view(&self) -> Map<Seq<char>, V::V> {
        seqs::assoc(entry_pairs(self.entries@))
    }
}

impl<V: View> TextMap<V> {
    /// No key occurs twice.
    #[verifier::type_invariant]
    spec fn distinct(self) -> bool {
        seqs::keys_distinct(entry_pairs(self.entries@))
    }

    /// The entries in order.
    pub closed spec fn pairs(&self) -> Seq<(Seq<char>, V::V)> {
        entry_pairs(self.entries@)
    }

    /// An empty table.
    pub fn new() -> (res: Self)
        ensures
            res@ == Map::<Seq<char>, V::V>::empty(),
            res.pairs() == Seq::<(Seq<char>, V::V)>::empty(),
    {
        let res = TextMap { entries: Vec::new() };
        assert(res.pairs() =~= Seq::<(Seq<char>, V::V)>::empty());
        res
    }

    /// The number of entries.
    pub fn len(&self) -> (n: usize)
        ensures
            n == self.pairs().len(),
            seqs::keys_distinct(self.pairs()),
            self@ == seqs::assoc(self.pairs()),
    {
        proof {
            use_type_invariant(self);
        }
        self.entries.len()
    }

    /// The key at a position.
    pub fn key_at(&self, i: usize) -> (res: &String)
        requires
            i < self.pairs().len(),
        ensures
            res@ == self.pairs()[i as int].0,
    {
        &self.entries[i].0
    }

    /// The value at a position.
    pub fn value_at(&self, i: usize) -> (res: &V)
        requires
            i < self.pairs().len(),
        ensures
            res@ == self.pairs()[i as int].1,
    {
        &self.entries[i].1
    }

    /// Where a key stands.
    fn find(&self, key: &str) -> (res: Option<usize>)
        ensures
            match res {
                Some(i) => i < self.pairs().len() && self.pairs()[i as int].0 == key@,
                None => forall|i: int|
                    0 <= i < self.pairs().len() ==> (#[trigger] self.pairs()[i]).0 != key@,
            },
    {
        let mut i: usize = 0;
        let ghost pairs = self.pairs();
        while i < self.entries.len()
            invariant
                i <= self.entries@.len(),
                pairs == entry_pairs(self.entries@),
                forall|j: int| 0 <= j < i ==> (#[trigger] pairs[j]).0 != key@,
            decreases self.entries@.len() - i,
        {
            assert(pairs[i as int].0 == self.entries@[i as int].0@);
            if same_text(self.entries[i].0.as_str(), key) {
                return Some(i);
            }
            i = i + 1;
        }
        None
    }

    /// The value of a key.
    pub fn get(&self, key: &str) -> (res: Option<&V>)
        ensures
            match res {
                Some(v) => self@.contains_key(key@) && self@[key@] == v@,
                None => !self@.contains_key(key@),
            },
    {
        proof {
            use_type_invariant(self);
            seqs::lemma_assoc(self.pairs());
        }
        match self.find(key) {
            Some(i) => {
                assert(self.pairs()[i as int] == (key@, self.entries@[i as int].1@));
                Some(&self.entries[i].1)
            },
            None => {
                proof {
                    if self@.contains_key(key@) {
                        let pairs = self.pairs();
                        let i = choose|i: int|
                            0 <= i < pairs.len() && (#[trigger] pairs[i]).0 == key@;
                        assert(self.pairs()[i].0 == key@);
                    }
                }
                None
            },
        }
    }

    /// Whether a key has a value.
    pub fn contains_key(&self, key: &str) -> (res: bool)
        ensures
            res == self@.contains_key(key@),
    {
        self.get(key).is_some()
    }

    /// Give a key a value.
    pub fn insert(&mut self, key: String, value: V)
        ensures
            final(self)@ == old(self)@.insert(key@, value@),
    {
        proof {
            use_type_invariant(&*self);
        }
        let at = self.find(key.as_str());
        let ghost before = self.pairs();
        let ghost k = key@;
        let ghost v = value@;
        let mut entries: Vec<(String, V)> = Vec::new();
        std::mem::swap(&mut self.entries, &mut entries);
        match at {
            Some(i) => {
                entries.set(i, (key, value));
                proof {
                    assert(before[i as int].0 == k);
                    assert(entry_pairs(entries@) =~= before.update(i as int, (k, v)));
                    seqs::lemma_assoc_update(before, i as int, v);
                }
            },
            None => {
                entries.push((key, value));
                proof {
                    assert(entry_pairs(entries@) =~= before.push((k, v)));
                    seqs::lemma_assoc_push(before, k, v);
                }
            },
        }
        self.entries = entries;
    }

    /// Strike a key.
    pub fn remove(&mut self, key: &str)
        ensures
            final(self)@ == old(self)@.remove(key@),
    {
        proof {
            use_type_invariant(&*self);
            seqs::lemma_assoc(self.pairs());
        }
        let ghost before = self.pairs();
        match self.find(key) {
            Some(i) => {
                let mut entries: Vec<(String, V)> = Vec::new();
                std::mem::swap(&mut self.entries, &mut entries);
                let _ = entries.remove(i);
                proof {
                    assert(entry_pairs(entries@) =~= before.remove(i as int));
                    seqs::lemma_assoc_remove(before, i as int);
                }
                self.entries = entries;
            },
            None => {
                proof {
                    if seqs::assoc(before).contains_key(key@) {
                        let i = choose|i: int|
                            0 <= i < before.len() && (#[trigger] before[i]).0 == key@;
                        assert(self.pairs()[i].0 == key@);
                    }
                    assert(seqs::assoc(before).remove(key@) =~= seqs::assoc(before));
                }
            },
        }
    }
}

} // verus!
