//! A small map from strings to strings in which each key occurs once and
//! inserting an existing key replaces its value.
//!
//! vstd specifies std's `HashMap` only for key types with a key model
//! (integers, `bool` and boxes of them); `String` has none, so a
//! `HashMap<String, String>` would carry no contract. This map keeps its
//! entries in a `Vec` instead, with uniqueness of keys as its invariant.

use vstd::prelude::*;

use crate::text::str_equal;

verus! {

/// A string-keyed map of strings.
#[derive(Debug)]
pub struct StringMap {
    entries: Vec<(String, String)>,
}

impl StringMap {
    /// No key is stored twice.
    #[verifier::type_invariant]
    closed spec fn keys_unique(self) -> bool {
        forall|i: int, j: int|
            0 <= i < j < self.entries@.len() ==> #[trigger] self.entries@[i].0@
                != #[trigger] self.entries@[j].0@
    }

    closed spec fn has(self, k: Seq<char>) -> bool {
        exists|i: int| 0 <= i < self.entries@.len() && #[trigger] self.entries@[i].0@ == k
    }

    closed spec fn slot(self, k: Seq<char>) -> int {
        choose|i: int| 0 <= i < self.entries@.len() && #[trigger] self.entries@[i].0@ == k
    }

    /// An empty map.
    pub fn new() -> (m: StringMap)
        ensures
            m@ == Map::<Seq<char>, Seq<char>>::empty(),
    {
        let m = StringMap { entries: Vec::new() };
        assert(m@ =~= Map::<Seq<char>, Seq<char>>::empty());
        m
    }

    /// Maps `k` to `v`, replacing any earlier value of `k`.
    pub fn insert(&mut self, k: String, v: String)
        ensures
            final(self)@ == old(self)@.insert(k@, v@),
    {
        proof {
            use_type_invariant(&*self);
        }
        let ghost old_entries = self.entries@;
        let ghost old_view = self@;
        let mut i: usize = 0;
        while i < self.entries.len()
            invariant
                self.entries@ == old_entries,
                i <= self.entries@.len(),
                forall|j: int| 0 <= j < i ==> #[trigger] self.entries@[j].0@ != k@,
            ensures
                self.entries@ == old_entries,
                i <= self.entries@.len(),
                forall|j: int| 0 <= j < i ==> #[trigger] self.entries@[j].0@ != k@,
                i < self.entries@.len() ==> self.entries@[i as int].0@ == k@,
            decreases self.entries.len() - i,
        {
            if self.entries[i].0 == k {
                break;
            }
            i = i + 1;
        }
        let mut es: Vec<(String, String)> = Vec::new();
        std::mem::swap(&mut es, &mut self.entries);
        if i < es.len() {
            assert(es@[i as int].0@ == k@);
            let ghost ki = k@;
            es.set(i, (k, v));
            assert forall|a: int, b: int| 0 <= a < b < es@.len() implies #[trigger] es@[a].0@
                != #[trigger] es@[b].0@ by {
                assert(old_entries[a].0@ != old_entries[b].0@);
            }
            self.entries = es;
            proof {
                let m = self@;
                assert forall|q: Seq<char>| #[trigger] m.dom().contains(q) == old_view.insert(
                    ki,
                    v@,
                ).dom().contains(q) by {
                    if q == ki {
                        assert(self.entries@[i as int].0@ == q);
                    } else if old_view.dom().contains(q) {
                        let j = choose|j: int|
                            0 <= j < old_entries.len() && #[trigger] old_entries[j].0@ == q;
                        assert(self.entries@[j].0@ == q);
                    } else if m.dom().contains(q) {
                        let j = choose|j: int|
                            0 <= j < self.entries@.len() && #[trigger] self.entries@[j].0@ == q;
                        assert(old_entries[j].0@ == q);
                    }
                }
                assert forall|q: Seq<char>| #[trigger] m.dom().contains(q) implies m[q]
                    == old_view.insert(ki, v@)[q] by {
                    let j = self.slot(q);
                    assert(self.entries@[j].0@ == q);
                    if q == ki {
                        assert(self.entries@[i as int].0@ == q);
                    } else {
                        assert(old_entries[j].0@ == q);
                        let j2 = choose|j2: int|
                            0 <= j2 < old_entries.len() && #[trigger] old_entries[j2].0@ == q;
                        assert(self.entries@[j2].0@ == q);
                    }
                }
                assert(m =~= old_view.insert(ki, v@));
            }
        } else {
            let ghost ki = k@;
            let ghost vi = v@;
            es.push((k, v));
            assert forall|a: int, b: int| 0 <= a < b < es@.len() implies #[trigger] es@[a].0@
                != #[trigger] es@[b].0@ by {
                if b < old_entries.len() {
                    assert(old_entries[a].0@ != old_entries[b].0@);
                }
            }
            self.entries = es;
            proof {
                let m = self@;
                let n = old_entries.len() as int;
                assert forall|q: Seq<char>| #[trigger] m.dom().contains(q) == old_view.insert(
                    ki,
                    vi,
                ).dom().contains(q) by {
                    if q == ki {
                        assert(self.entries@[n].0@ == q);
                    } else if old_view.dom().contains(q) {
                        let j = choose|j: int|
                            0 <= j < old_entries.len() && #[trigger] old_entries[j].0@ == q;
                        assert(self.entries@[j].0@ == q);
                    } else if m.dom().contains(q) {
                        let j = choose|j: int|
                            0 <= j < self.entries@.len() && #[trigger] self.entries@[j].0@ == q;
                        assert(old_entries[j].0@ == q);
                    }
                }
                assert forall|q: Seq<char>| #[trigger] m.dom().contains(q) implies m[q]
                    == old_view.insert(ki, vi)[q] by {
                    let j = self.slot(q);
                    assert(self.entries@[j].0@ == q);
                    if q == ki {
                        assert(self.entries@[n].0@ == q);
                    } else {
                        assert(old_entries[j].0@ == q);
                        let j2 = choose|j2: int|
                            0 <= j2 < old_entries.len() && #[trigger] old_entries[j2].0@ == q;
                        assert(self.entries@[j2].0@ == q);
                    }
                }
                assert(m =~= old_view.insert(ki, vi));
            }
        }
    }

    /// The value stored for `key`, if any.
    pub fn get(&self, key: &str) -> (r: Option<&String>)
        ensures
            match r {
                Some(v) => self@.dom().contains(key@) && v@ == self@[key@],
                None => !self@.dom().contains(key@),
            },
    {
        proof {
            use_type_invariant(self);
        }
        let mut i: usize = 0;
        while i < self.entries.len()
            invariant
                i <= self.entries@.len(),
                forall|j: int| 0 <= j < i ==> #[trigger] self.entries@[j].0@ != key@,
            decreases self.entries.len() - i,
        {
            if str_equal(self.entries[i].0.as_str(), key) {
                proof {
                    use_type_invariant(self);
                    assert(self.entries@[i as int].0@ == key@);
                    let j = self.slot(key@);
                    assert(self.entries@[j].0@ == key@);
                    if j < i {
                        assert(self.entries@[j].0@ != self.entries@[i as int].0@);
                    } else if j > i {
                        assert(self.entries@[i as int].0@ != self.entries@[j].0@);
                    }
                }
                return Some(&self.entries[i].1);
            }
            i = i + 1;
        }
        None
    }

    /// The number of keys.
    pub fn len(&self) -> (n: usize)
        ensures
            self@.dom().finite(),
            n == self@.dom().len(),
    {
        proof {
            use_type_invariant(self);
            let keys = self.entries@.map_values(|e: (String, String)| e.0@);
            assert(keys.no_duplicates()) by {
                assert forall|i: int, j: int|
                    0 <= i < keys.len() && 0 <= j < keys.len() && i != j implies keys[i]
                    != keys[j] by {
                    if i < j {
                        assert(self.entries@[i].0@ != self.entries@[j].0@);
                    } else {
                        assert(self.entries@[j].0@ != self.entries@[i].0@);
                    }
                }
            }
            assert forall|q: Seq<char>| #[trigger] self@.dom().contains(q) == keys.to_set().contains(
                q,
            ) by {
                if self@.dom().contains(q) {
                    let i = choose|i: int|
                        0 <= i < self.entries@.len() && #[trigger] self.entries@[i].0@ == q;
                    assert(keys[i] == q);
                }
                if keys.to_set().contains(q) {
                    assert(keys.contains(q));
                    let i = choose|i: int| 0 <= i < keys.len() && keys[i] == q;
                    assert(self.entries@[i].0@ == q);
                }
            }
            assert(self@.dom() =~= keys.to_set());
            keys.unique_seq_to_set();
            vstd::seq_lib::seq_to_set_is_finite(keys);
        }
        self.entries.len()
    }
}

impl View for StringMap {
    type V = Map<Seq<char>, Seq<char>>;

    closed spec fn view(&self) -> Map<Seq<char>, Seq<char>> {
        Map::new(|k: Seq<char>| self.has(k), |k: Seq<char>| self.entries@[self.slot(k)].1@)
    }
}

} // verus!
