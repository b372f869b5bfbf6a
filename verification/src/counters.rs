//! Counters keyed by text.

use vstd::prelude::*;

verus! {

/// One more than `c`, and `c` itself at the largest value.
pub open spec fn bump(c: u64) -> u64 {
    if c < u64::MAX {
        (c + 1) as u64
    } else {
        c
    }
}

/// The count that `m` holds for `key`: zero where it holds none.
pub open spec fn count_in(m: Map<Seq<char>, u64>, key: Seq<char>) -> u64 {
    if m.dom().contains(key) {
        m[key]
    } else {
        0
    }
}

/// `m` with the count of `key` raised by one: a key that was absent starts at 1.
pub open spec fn bumped(m: Map<Seq<char>, u64>, key: Seq<char>) -> Map<Seq<char>, u64> {
    m.insert(key, bump(count_in(m, key)))
}

/// One more than `c`, saturating.
pub fn bump_count(c: u64) -> (r: u64)
    ensures
        r == bump(c),
{
    if c < u64::MAX {
        c + 1
    } else {
        c
    }
}

/// A key and its count.
#[derive(Debug)]
pub struct Counter {
    pub key: String,
    pub count: u64,
}

/// Keys and counts as mathematical values.
pub open spec fn counters_view(v: Seq<Counter>) -> Seq<(Seq<char>, u64)> {
    Seq::new(v.len(), |i: int| (v[i].key@, v[i].count))
}

/// Counts by key. No key stands twice, and keys stay in the order in which
/// they were first counted.
#[derive(Debug)]
pub struct CounterTable {
    entries: Vec<Counter>,
}

impl View for CounterTable {
    type V = Map<Seq<char>, u64>;

    closed spec fn view(&self) -> Map<Seq<char>, u64> {
        Map::new(
            |k: Seq<char>| self.holds(k),
            |k: Seq<char>| self.entries@[self.index_of(k)].count,
        )
    }
}

impl CounterTable {
    /// No key stands twice.
    pub closed spec fn wf(&self) -> bool {
        forall|i: int, j: int|
            0 <= i < j < self.entries@.len() ==> self.entries@[i].key@ != self.entries@[j].key@
    }

    /// Whether some entry has the key `k`.
    pub closed spec fn holds(&self, k: Seq<char>) -> bool {
        exists|i: int| 0 <= i < self.entries@.len() && #[trigger] self.entries@[i].key@ == k
    }

    /// The place of an entry with the key `k`.
    pub closed spec fn index_of(&self, k: Seq<char>) -> int {
        choose|i: int| 0 <= i < self.entries@.len() && #[trigger] self.entries@[i].key@ == k
    }

    /// The keys and counts in the order in which the keys were first counted.
    pub closed spec fn listing(&self) -> Seq<(Seq<char>, u64)> {
        Seq::new(self.entries@.len(), |i: int| (self.entries@[i].key@, self.entries@[i].count))
    }

    /// An entry of the listing is an entry of the map, and the listing has one
    /// entry for each key of the map.
    pub proof fn lemma_listing(&self)
        requires
            self.wf(),
        ensures
            forall|i: int|
                0 <= i < self.listing().len() ==> self@.dom().contains(
                    (#[trigger] self.listing()[i]).0,
                ) && self@[self.listing()[i].0] == self.listing()[i].1,
            forall|i: int, j: int|
                0 <= i < j < self.listing().len() ==> self.listing()[i].0 != self.listing()[j].0,
            forall|k: Seq<char>|
                self@.dom().contains(k) ==> exists|i: int|
                    0 <= i < self.listing().len() && (#[trigger] self.listing()[i]).0 == k,
    {
        assert forall|i: int| 0 <= i < self.listing().len() implies self@.dom().contains(
            (#[trigger] self.listing()[i]).0,
        ) && self@[self.listing()[i].0] == self.listing()[i].1 by {
            let k = self.entries@[i].key@;
            assert(self.holds(k));
            let j = self.index_of(k);
            assert(j == i);
        }
        assert forall|k: Seq<char>| self@.dom().contains(k) implies exists|i: int|
            0 <= i < self.listing().len() && (#[trigger] self.listing()[i]).0 == k by {
            let j = self.index_of(k);
            assert(self.listing()[j].0 == k);
        }
    }

    /// A table without entries.
    pub fn new() -> (r: Self)
        ensures
            r.wf(),
            r@ == Map::<Seq<char>, u64>::empty(),
            r.listing() == Seq::<(Seq<char>, u64)>::empty(),
    {
        let r = CounterTable { entries: Vec::new() };
        assert(r@ =~= Map::<Seq<char>, u64>::empty());
        assert(r.listing() =~= Seq::<(Seq<char>, u64)>::empty());
        r
    }

    /// The place of `key` among the entries.
    fn find(&self, key: &String) -> (r: Option<usize>)
        ensures
            match r {
                Some(i) => i < self.entries@.len() && self.entries@[i as int].key@ == key@,
                None => !self.holds(key@),
            },
    {
        let mut i: usize = 0;
        while i < self.entries.len()
            invariant
                i <= self.entries@.len(),
                forall|j: int| 0 <= j < i ==> self.entries@[j].key@ != key@,
            decreases self.entries@.len() - i,
        {
            if self.entries[i].key == *key {
                return Some(i);
            }
            i += 1;
        }
        None
    }

    /// The count of `key`: zero where it was never counted.
    pub fn get(&self, key: &String) -> (r: u64)
        requires
            self.wf(),
        ensures
            r == count_in(self@, key@),
    {
        match self.find(key) {
            Some(i) => {
                assert(self.holds(key@));
                assert(self.index_of(key@) == i);
                self.entries[i].count
            },
            None => 0,
        }
    }

    /// Counts `key` once more: a key that was absent starts at 1, and a count
    /// at the largest value stays there.
    pub fn increment(&mut self, key: String)
        requires
            old(self).wf(),
        ensures
            final(self).wf(),
            final(self)@ == bumped(old(self)@, key@),
            final(self).listing() == if old(self)@.dom().contains(key@) {
                old(self).listing().update(
                    old(self).index_of(key@),
                    (key@, bump(count_in(old(self)@, key@))),
                )
            } else {
                old(self).listing().push((key@, 1u64))
            },
    {
        let ghost before = *self;
        match self.find(&key) {
            Some(i) => {
                assert(before.holds(key@));
                assert(before.index_of(key@) == i);
                let count = bump_count(self.entries[i].count);
                self.entries.set(i, Counter { key, count });
                assert forall|k: Seq<char>| self.holds(k) == before.holds(k) by {
                    if self.holds(k) {
                        let j = self.index_of(k);
                        assert(before.entries@[j].key@ == k);
                    }
                    if before.holds(k) {
                        let j = before.index_of(k);
                        assert(self.entries@[j].key@ == k);
                    }
                }
                assert forall|k: Seq<char>| self.holds(k) implies self@[k] == bumped(before@, key@)[k] by {
                    let j = self.index_of(k);
                    let b = before.index_of(k);
                    assert(before.entries@[j].key@ == k);
                    assert(j == b);
                }
                assert(self@ =~= bumped(before@, key@));
                assert(self.listing() =~= before.listing().update(
                    i as int,
                    (key@, bump(count_in(before@, key@))),
                ));
            },
            None => {
                self.entries.push(Counter { key, count: 1 });
                let ghost n = before.entries@.len() as int;
                assert(self.entries@[n].key@ == key@);
                assert forall|k: Seq<char>| self.holds(k) == (before.holds(k) || k == key@) by {
                    if self.holds(k) {
                        let j = self.index_of(k);
                        if j < n {
                            assert(before.entries@[j].key@ == k);
                        }
                    }
                    if before.holds(k) {
                        let j = before.index_of(k);
                        assert(self.entries@[j].key@ == k);
                    }
                }
                assert forall|k: Seq<char>| self.holds(k) implies self@[k] == bumped(before@, key@)[k] by {
                    let j = self.index_of(k);
                    if k != key@ {
                        let b = before.index_of(k);
                        assert(self.entries@[b].key@ == k);
                        assert(j == b);
                    } else {
                        assert(j == n);
                    }
                }
                assert(self@ =~= bumped(before@, key@));
                assert(self.listing() =~= before.listing().push((key@, 1u64)));
            },
        }
    }

    /// The keys and counts, in the order of the listing.
    pub fn to_vec(&self) -> (r: Vec<Counter>)
        ensures
            counters_view(r@) == self.listing(),
    {
        let mut r: Vec<Counter> = Vec::new();
        let mut i: usize = 0;
        while i < self.entries.len()
            invariant
                i <= self.entries@.len(),
                r@.len() == i,
                counters_view(r@) == self.listing().subrange(0, i as int),
            decreases self.entries@.len() - i,
        {
            let ghost before = r@;
            let key = self.entries[i].key.clone();
            r.push(Counter { key, count: self.entries[i].count });
            i += 1;
            assert forall|j: int| 0 <= j < i implies counters_view(r@)[j] == self.listing()[j] by {
                if j < i - 1 {
                    assert(counters_view(before)[j] == self.listing().subrange(0, i - 1)[j]);
                }
            }
            assert(counters_view(r@) =~= self.listing().subrange(0, i as int));
        }
        assert(self.listing().subrange(0, i as int) =~= self.listing());
        r
    }

    /// The number of keys.
    pub fn len(&self) -> (n: usize)
        ensures
            n == self.listing().len(),
    {
        self.entries.len()
    }

    /// The key and the count at place `i` of the listing.
    pub fn entry(&self, i: usize) -> (r: (&String, u64))
        requires
            i < self.listing().len(),
        ensures
            (r.0@, r.1) == self.listing()[i as int],
    {
        (&self.entries[i].key, self.entries[i].count)
    }
}

} // verus!
