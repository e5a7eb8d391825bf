//! Settings kept per message id.

use crate::text;
use vstd::prelude::*;

verus! {

/// A value for each of some ids. No id occurs twice.
pub struct IdMap<T> {
    pub entries: Vec<(String, T)>,
}

/// The position of the entry with the given key, from `i` on; the length if none.
pub open spec fn entry_at<T>(entries: Seq<(String, T)>, key: Seq<char>, i: int) -> int
    decreases entries.len() - i,
{
    if i < 0 || i >= entries.len() {
        entries.len() as int
    } else if entries[i].0@ == key {
        i
    } else {
        entry_at(entries, key, i + 1)
    }
}

proof fn entry_at_spec<T>(entries: Seq<(String, T)>, key: Seq<char>, i: int)
    requires
        0 <= i <= entries.len(),
    ensures
        i <= entry_at(entries, key, i) <= entries.len(),
        entry_at(entries, key, i) < entries.len() ==> entries[entry_at(entries, key, i)].0@ == key,
        forall|j: int| i <= j < entry_at(entries, key, i) ==> entries[j].0@ != key,
    decreases entries.len() - i,
{
    if i < entries.len() && entries[i].0@ != key {
        entry_at_spec(entries, key, i + 1);
    }
}

impl<T> View for IdMap<T> {
    type V = Map<Seq<char>, T>;

    open spec fn view(&self) -> Map<Seq<char>, T> {
        Map::new(
            |key: Seq<char>| entry_at(self.entries@, key, 0) < self.entries@.len(),
            |key: Seq<char>| self.entries@[entry_at(self.entries@, key, 0)].1,
        )
    }
}

impl<T> IdMap<T> {
    /// No id occurs twice.
    pub open spec fn wf(self) -> bool {
        forall|i: int, j: int|
            0 <= i < j < self.entries@.len() ==> (#[trigger] self.entries@[i]).0@ != (
            #[trigger] self.entries@[j]).0@
    }

    proof fn at(self, i: int)
        requires
            self.wf(),
            0 <= i < self.entries@.len(),
        ensures
            entry_at(self.entries@, self.entries@[i].0@, 0) == i,
            self@.contains_key(self.entries@[i].0@),
            self@[self.entries@[i].0@] == self.entries@[i].1,
    {
        let key = self.entries@[i].0@;
        entry_at_spec(self.entries@, key, 0);
        let k = entry_at(self.entries@, key, 0);
        if k < i {
            assert(self.entries@[k].0@ != self.entries@[i].0@);
        } else if k > i {
            assert(self.entries@[i].0@ != key);
        }
    }

    /// A map without entries.
    pub fn new() -> (r: IdMap<T>)
        ensures
            r.wf(),
            r@ == Map::<Seq<char>, T>::empty(),
    {
        let r = IdMap { entries: Vec::new() };
        assert(r@ =~= Map::<Seq<char>, T>::empty());
        r
    }

    /// Whether there are no entries.
    pub fn is_empty(&self) -> (r: bool)
        requires
            self.wf(),
        ensures
            r == (self@ == Map::<Seq<char>, T>::empty()),
    {
        proof {
            if self.entries@.len() > 0 {
                self.at(0);
            } else {
                assert(self@ =~= Map::<Seq<char>, T>::empty());
            }
        }
        self.entries.len() == 0
    }

    fn position(&self, key: &str) -> (r: usize)
        ensures
            r == entry_at(self.entries@, key@, 0),
            r <= self.entries@.len(),
    {
        let mut i: usize = 0;
        while i < self.entries.len()
            invariant
                i <= self.entries@.len(),
                entry_at(self.entries@, key@, 0) == entry_at(self.entries@, key@, i as int),
            decreases self.entries.len() - i,
        {
            if text::same_text(self.entries[i].0.as_str(), key) {
                return i;
            }
            i = i + 1;
        }
        i
    }

    /// Whether no id occurs twice.
    pub fn ids_differ(&self) -> (r: bool)
        ensures
            r == self.wf(),
    {
        for i in 0..self.entries.len()
            invariant
                forall|a: int, b: int|
                    0 <= a < b < i ==> (#[trigger] self.entries@[a]).0@ != (
                    #[trigger] self.entries@[b]).0@,
        {
            let k: usize = self.position(self.entries[i].0.as_str());
            proof {
                entry_at_spec(self.entries@, self.entries@[i as int].0@, 0);
            }
            if k != i {
                assert(self.entries@[k as int].0@ == self.entries@[i as int].0@);
                return false;
            }
        }
        true
    }

    /// The value of an id.
    pub fn get(&self, key: &str) -> (r: Option<&T>)
        ensures
            match r {
                Some(v) => self@.contains_key(key@) && self@[key@] == *v,
                None => !self@.contains_key(key@),
            },
    {
        let i: usize = self.position(key);
        if i < self.entries.len() {
            Some(&self.entries[i].1)
        } else {
            None
        }
    }

    /// Gives an id a value.
    pub fn insert(&mut self, key: String, value: T)
        requires
            old(self).wf(),
        ensures
            final(self).wf(),
            final(self)@ == old(self)@.insert(key@, value),
    {
        let i: usize = self.position(key.as_str());
        let ghost before = *self;
        let ghost k = key@;
        proof {
            entry_at_spec(self.entries@, k, 0);
        }
        if i < self.entries.len() {
            self.entries.set(i, (key, value));
        } else {
            self.entries.push((key, value));
        }
        assert(self.wf());
        assert forall|q: Seq<char>| #[trigger]
            self@.contains_key(q) == before@.insert(k, value).contains_key(q) && (self@.contains_key(
                q,
            ) ==> self@[q] == before@.insert(k, value)[q]) by {
            entry_at_spec(before.entries@, q, 0);
            entry_at_spec(self.entries@, q, 0);
            let a = entry_at(before.entries@, q, 0);
            let b = entry_at(self.entries@, q, 0);
            if b < self.entries@.len() {
                self.at(b);
            }
            if a < before.entries@.len() {
                before.at(a);
                if q != k {
                    assert(self.entries@[a].0@ == q);
                    self.at(a);
                }
            }
            if q == k {
                self.at(i as int);
            } else if b < self.entries@.len() {
                assert(b != i);
                assert(before.entries@[b].0@ == q);
                before.at(b);
            }
        }
        assert(self@ =~= before@.insert(k, value));
    }

    /// Takes an id's value away.
    pub fn remove(&mut self, key: &str)
        requires
            old(self).wf(),
        ensures
            final(self).wf(),
            final(self)@ == old(self)@.remove(key@),
    {
        let i: usize = self.position(key);
        proof {
            entry_at_spec(self.entries@, key@, 0);
        }
        if i < self.entries.len() {
            self.remove_at(i);
        } else {
            assert(self@ =~= self@.remove(key@));
        }
    }

    /// Keeps only the entries whose id is in `ids`.
    pub fn keep(&mut self, ids: &Vec<String>)
        requires
            old(self).wf(),
        ensures
            final(self).wf(),
            final(self)@ == old(self)@.restrict(
                Set::new(|key: Seq<char>| text::texts(ids@).contains(key)),
            ),
    {
        let ghost before = *self;
        let ghost keep_set = Set::new(|key: Seq<char>| text::texts(ids@).contains(key));
        let mut i: usize = 0;
        assert(before@.restrict(keep_set).union_prefer_right(Map::empty()) =~= before@.restrict(
            keep_set,
        ));
        while i < self.entries.len()
            invariant
                before.wf(),
                self.wf(),
                keep_set == Set::new(|key: Seq<char>| text::texts(ids@).contains(key)),
                i <= self.entries@.len() <= before.entries@.len(),
                forall|j: int|
                    0 <= j < i ==> keep_set.contains((#[trigger] self.entries@[j]).0@),
                forall|q: Seq<char>|
                    keep_set.contains(q) ==> #[trigger] self@.contains_key(q)
                        == before@.contains_key(q),
                forall|q: Seq<char>|
                    #[trigger] self@.contains_key(q) ==> before@.contains_key(q) && self@[q]
                        == before@[q],
            decreases self.entries.len() - i,
        {
            if text::has_text(ids, self.entries[i].0.as_str()) {
                i = i + 1;
            } else {
                let key = text::copy_text(self.entries[i].0.as_str());
                let ghost prev = *self;
                proof {
                    prev.at(i as int);
                }
                self.remove_at(i);
                assert(key@ == prev.entries@[i as int].0@);
                assert(self@ == prev@.remove(key@));
                assert forall|q: Seq<char>| #[trigger] self@.contains_key(q) implies before@.contains_key(q)
                    && self@[q] == before@[q] by {
                    assert(prev@.contains_key(q));
                    assert(prev@[q] == before@[q]);
                }
            }
        }
        assert forall|q: Seq<char>| #[trigger] self@.contains_key(q) implies keep_set.contains(q) by {
            entry_at_spec(self.entries@, q, 0);
        }
        assert(self@ =~= before@.restrict(keep_set));
    }

    fn remove_at(&mut self, i: usize)
        requires
            old(self).wf(),
            i < old(self).entries@.len(),
        ensures
            final(self).wf(),
            final(self).entries@ == old(self).entries@.remove(i as int),
            final(self)@ == old(self)@.remove(old(self).entries@[i as int].0@),
    {
        let ghost before = *self;
        let ghost key = self.entries@[i as int].0@;
        self.entries.remove(i);
        assert forall|x: int, y: int| 0 <= x < y < self.entries@.len() implies (
        #[trigger] self.entries@[x]).0@ != (#[trigger] self.entries@[y]).0@ by {
            let x1 = if x < i {
                x
            } else {
                x + 1
            };
            let y1 = if y < i {
                y
            } else {
                y + 1
            };
            assert(before.entries@[x1].0@ != before.entries@[y1].0@);
        }
        assert(self.wf());
        proof {
            before.at(i as int);
        }
        assert forall|q: Seq<char>| #[trigger]
            self@.contains_key(q) == before@.remove(key).contains_key(q) && (self@.contains_key(q)
                ==> self@[q] == before@.remove(key)[q]) by {
            entry_at_spec(before.entries@, q, 0);
            entry_at_spec(self.entries@, q, 0);
            let a = entry_at(before.entries@, q, 0);
            let b = entry_at(self.entries@, q, 0);
            if b < self.entries@.len() {
                self.at(b);
                let b1 = if b < i {
                    b
                } else {
                    b + 1
                };
                assert(before.entries@[b1].0@ == q);
                before.at(b1);
            }
            if a < before.entries@.len() && q != key {
                let a1 = if a < i {
                    a
                } else {
                    a - 1
                };
                before.at(a);
                assert(self.entries@[a1].0@ == q);
                self.at(a1);
            }
        }
        assert(self@ =~= before@.remove(key));
    }
}

} // verus!
