use crate::cf::plist::Plist;
use crate::cf::plist::PlistView;
use vstd::prelude::*;

verus! {

/// A dictionary from string keys to attached values.
///
/// The entries are kept in the order in which their keys were first inserted,
/// and no key occurs twice.
#[derive(Debug)]
pub struct Dictionary {
    entries: Vec<(String, Plist)>,
}

impl View for Dictionary {
    type V = Map<Seq<char>, PlistView>;

    closed spec fn view(&self) -> Map<Seq<char>, PlistView> {
        Map::new(
            |k: Seq<char>| exists|i: int| 0 <= i < self.entries@.len() && self.entries@[i].0@ == k,
            |k: Seq<char>| self.entries@[self.index_of(k)].1@,
        )
    }
}

impl Dictionary {
    /// No key occurs twice.
    #[verifier::type_invariant]
    closed spec fn distinct_keys(&self) -> bool {
        forall|i: int, j: int|
            0 <= i < j < self.entries@.len() ==> (#[trigger] self.entries@[i]).0@ != (
            #[trigger] self.entries@[j]).0@
    }

    /// The place of `key` among the entries, where it is there.
    closed spec fn index_of(&self, key: Seq<char>) -> int {
        choose|i: int| 0 <= i < self.entries@.len() && self.entries@[i].0@ == key
    }

    /// The keys at the first `n` places.
    closed spec fn keys_upto(&self, n: int) -> Set<Seq<char>> {
        Set::new(|k: Seq<char>| exists|i: int| 0 <= i < n && self.entries@[i].0@ == k)
    }

    proof fn lemma_len_upto(&self, n: int)
        requires
            self.distinct_keys(),
            0 <= n <= self.entries@.len(),
        ensures
            self.keys_upto(n).finite(),
            self.keys_upto(n).len() == n,
        decreases n,
    {
        if n == 0 {
            assert(self.keys_upto(0) =~= Set::empty());
        } else {
            self.lemma_len_upto(n - 1);
            let k = self.entries@[n - 1].0@;
            assert(!self.keys_upto(n - 1).contains(k));
            assert(self.keys_upto(n) =~= self.keys_upto(n - 1).insert(k));
        }
    }

    /// A dictionary with no entries.
    pub fn new() -> (d: Dictionary)
        ensures
            d@ == Map::<Seq<char>, PlistView>::empty(),
    {
        let d = Dictionary { entries: Vec::new() };
        assert(d@ =~= Map::empty());
        d
    }

    /// The number of entries.
    pub fn len(&self) -> (n: usize)
        ensures
            self@.dom().finite(),
            n == self@.dom().len(),
    {
        proof {
            use_type_invariant(self);
            self.lemma_len_upto(self.entries@.len() as int);
            assert(self@.dom() =~= self.keys_upto(self.entries@.len() as int));
        }
        self.entries.len()
    }

    /// Whether the dictionary has no entries.
    pub fn is_empty(&self) -> (empty: bool)
        ensures
            empty == (self@ == Map::<Seq<char>, PlistView>::empty()),
    {
        proof {
            if self.entries@.len() == 0 {
                assert(self@ =~= Map::empty());
            } else {
                assert(self@.dom().contains(self.entries@[0].0@));
            }
        }
        self.entries.len() == 0
    }

    /// The place of `key` among the entries, if it is there.
    fn find(&self, key: &str) -> (at: Option<usize>)
        ensures
            at is Some <==> self@.dom().contains(key@),
            at is Some ==> at->0 < self.entries@.len() && self.entries@[at->0 as int].0@ == key@
                && self.index_of(key@) == at->0,
    {
        proof {
            use_type_invariant(self);
        }
        let wanted: String = key.to_owned();
        let mut i: usize = 0;
        while i < self.entries.len()
            invariant
                self.distinct_keys(),
                wanted@ == key@,
                i <= self.entries@.len(),
                forall|j: int| 0 <= j < i ==> (#[trigger] self.entries@[j]).0@ != key@,
            decreases self.entries@.len() - i,
        {
            if self.entries[i].0 == wanted {
                return Some(i);
            }
            i = i + 1;
        }
        None
    }

    /// Whether `key` has a value.
    pub fn contains_key(&self, key: &str) -> (found: bool)
        ensures
            found == self@.dom().contains(key@),
    {
        self.find(key).is_some()
    }

    /// The value of `key`, if it has one.
    pub fn get(&self, key: &str) -> (val: Option<&Plist>)
        ensures
            val is Some <==> self@.dom().contains(key@),
            val is Some ==> val->0@ == self@[key@],
    {
        match self.find(key) {
            Some(i) => Some(&self.entries[i].1),
            None => None,
        }
    }

    /// Gives `key` the value `val`, in place of the one it had, if any.
    pub fn insert(&mut self, key: &str, val: Plist)
        ensures
            final(self)@ == old(self)@.insert(key@, val@),
    {
        proof {
            use_type_invariant(&*self);
        }
        match self.find(key) {
            Some(i) => {
                let mut entries: Vec<(String, Plist)> = Vec::new();
                std::mem::swap(&mut self.entries, &mut entries);
                entries[i].1 = val;
                std::mem::swap(&mut self.entries, &mut entries);
                proof {
                    assert forall|k: Seq<char>| self@.dom().contains(k) implies #[trigger] self@[k]
                        == old(self)@.insert(key@, val@)[k] by {
                        let j = self.index_of(k);
                        assert(old(self).entries@[j].0@ == k);
                        assert(old(self).index_of(k) == j);
                    }
                    assert forall|k: Seq<char>|
                        old(self)@.insert(key@, val@).dom().contains(k) implies self@.dom().contains(
                        k,
                    ) by {
                        if k == key@ {
                            assert(self.entries@[i as int].0@ == k);
                        } else {
                            let j = old(self).index_of(k);
                            assert(self.entries@[j].0@ == k);
                        }
                    }
                    assert(self@ =~= old(self)@.insert(key@, val@));
                }
            },
            None => {
                let ghost n = self.entries@.len() as int;
                let mut entries: Vec<(String, Plist)> = Vec::new();
                std::mem::swap(&mut self.entries, &mut entries);
                entries.push((key.to_owned(), val));
                std::mem::swap(&mut self.entries, &mut entries);
                proof {
                    assert forall|k: Seq<char>|
                        old(self)@.insert(key@, val@).dom().contains(k) implies self@.dom().contains(
                        k,
                    ) by {
                        if k == key@ {
                            assert(self.entries@[n].0@ == k);
                        } else {
                            let j = old(self).index_of(k);
                            assert(self.entries@[j].0@ == k);
                        }
                    }
                    assert forall|k: Seq<char>| self@.dom().contains(k) implies #[trigger] self@[k]
                        == old(self)@.insert(key@, val@)[k] by {
                        let j = self.index_of(k);
                        if j < n {
                            assert(old(self).entries@[j].0@ == k);
                            assert(old(self).index_of(k) == j);
                        }
                    }
                    assert(self@ =~= old(self)@.insert(key@, val@));
                }
            },
        }
    }

    /// A copy of the dictionary.
    pub fn duplicate(&self) -> (copy: Dictionary)
        ensures
            copy@ == self@,
    {
        proof {
            use_type_invariant(self);
        }
        let mut entries: Vec<(String, Plist)> = Vec::new();
        let mut i: usize = 0;
        while i < self.entries.len()
            invariant
                self.distinct_keys(),
                i <= self.entries@.len(),
                entries@.len() == i,
                forall|j: int| 0 <= j < i ==> (#[trigger] entries@[j]).0@ == self.entries@[j].0@,
                forall|j: int| 0 <= j < i ==> (#[trigger] entries@[j]).1@ == self.entries@[j].1@,
            decreases self.entries@.len() - i,
        {
            entries.push((self.entries[i].0.clone(), self.entries[i].1.duplicate()));
            i = i + 1;
        }
        let copy = Dictionary { entries };
        proof {
            assert forall|k: Seq<char>| self@.dom().contains(k) implies copy@.dom().contains(k) by {
                let j = self.index_of(k);
                assert(copy.entries@[j].0@ == k);
            }
            assert forall|k: Seq<char>| copy@.dom().contains(k) implies self@.dom().contains(k)
                && #[trigger] copy@[k] == self@[k] by {
                let j = copy.index_of(k);
                assert(self.entries@[j].0@ == k);
                assert(self.index_of(k) == j);
            }
            assert(copy@ =~= self@);
        }
        copy
    }
}

} // verus!
