//! A map from artists and albums to small values.

use crate::protocol::{EntityView, LibraryEnrichmentEntity};
use vstd::prelude::*;

verus! {

/// The texts of a list of entities.
pub open spec fn entity_views(s: Seq<LibraryEnrichmentEntity>) -> Seq<EntityView> {
    s.map_values(|e: LibraryEnrichmentEntity| e@)
}

/// The elements of a list, each once, in the order of their first occurrence.
pub open spec fn distinct<A>(s: Seq<A>) -> Seq<A>
    decreases s.len(),
{
    if s.len() == 0 {
        Seq::empty()
    } else {
        let front = distinct(s.drop_last());
        if front.contains(s.last()) {
            front
        } else {
            front.push(s.last())
        }
    }
}

/// A list is distinct once repeated elements are left out, and holds the same elements.
pub proof fn distinct_keeps_each_once<A>(s: Seq<A>)
    ensures
        distinct(s).no_duplicates(),
        forall|x: A| distinct(s).contains(x) <==> s.contains(x),
        distinct(s).len() <= s.len(),
    decreases s.len(),
{
    if s.len() > 0 {
        let front = s.drop_last();
        distinct_keeps_each_once(front);
        assert(s =~= front.push(s.last()));
        assert forall|x: A| distinct(s).contains(x) <==> s.contains(x) by {
            if s.contains(x) {
                let i = choose|i: int| 0 <= i < s.len() && s[i] == x;
                if i < front.len() {
                    assert(front[i] == x);
                    assert(front.contains(x));
                    assert(distinct(front).contains(x));
                    let j = choose|j: int| 0 <= j < distinct(front).len() && distinct(front)[j] == x;
                    assert(distinct(s)[j] == x);
                } else {
                    if !distinct(front).contains(s.last()) {
                        assert(distinct(s)[distinct(s).len() - 1] == x);
                    }
                }
            }
            if distinct(s).contains(x) {
                let j = choose|j: int| 0 <= j < distinct(s).len() && distinct(s)[j] == x;
                if j < distinct(front).len() {
                    assert(distinct(front)[j] == x);
                    assert(front.contains(x));
                    let i = choose|i: int| 0 <= i < front.len() && front[i] == x;
                    assert(s[i] == x);
                } else {
                    assert(s[s.len() - 1] == x);
                }
            }
        }
    }
}

/// Entries with distinct keys.
#[derive(Debug)]
pub struct EntityMap<V> {
    pub entries: Vec<(LibraryEnrichmentEntity, V)>,
}

pub open spec fn key_at<V>(entries: Seq<(LibraryEnrichmentEntity, V)>, i: int) -> EntityView {
    entries[i].0@
}

pub open spec fn has_key<V>(entries: Seq<(LibraryEnrichmentEntity, V)>, k: EntityView) -> bool {
    exists|i: int| 0 <= i < entries.len() && #[trigger] key_at(entries, i) == k
}

pub open spec fn index_of_key<V>(entries: Seq<(LibraryEnrichmentEntity, V)>, k: EntityView) -> int {
    choose|i: int| 0 <= i < entries.len() && #[trigger] key_at(entries, i) == k
}

pub open spec fn entry_map<V>(entries: Seq<(LibraryEnrichmentEntity, V)>) -> Map<EntityView, V> {
    Map::new(|k: EntityView| has_key(entries, k), |k: EntityView| entries[index_of_key(entries, k)].1)
}

pub open spec fn keys_distinct<V>(entries: Seq<(LibraryEnrichmentEntity, V)>) -> bool {
    forall|i: int, j: int|
        0 <= i < j < entries.len() ==> #[trigger] key_at(entries, i) != #[trigger] key_at(
            entries,
            j,
        )
}

impl<V: Copy> EntityMap<V> {
    pub open spec fn wf(self) -> bool {
        keys_distinct(self.entries@)
    }

    pub open spec fn map(self) -> Map<EntityView, V> {
        entry_map(self.entries@)
    }

    pub proof fn lemma_entry(self, i: int)
        requires
            self.wf(),
            0 <= i < self.entries@.len(),
        ensures
            self.map().contains_key(key_at(self.entries@, i)),
            self.map()[key_at(self.entries@, i)] == self.entries@[i].1,
    {
        let k = key_at(self.entries@, i);
        assert(has_key(self.entries@, k));
        let j = index_of_key(self.entries@, k);
        assert(0 <= j < self.entries@.len() && key_at(self.entries@, j) == k);
        assert(i == j);
    }

    pub fn new() -> (r: Self)
        ensures
            r.wf(),
            r.map() == Map::<EntityView, V>::empty(),
    {
        let r = EntityMap { entries: Vec::new() };
        assert(r.map() =~= Map::<EntityView, V>::empty());
        r
    }

    fn position(&self, key: &LibraryEnrichmentEntity) -> (r: Option<usize>)
        requires
            self.wf(),
        ensures
            match r {
                Some(i) => i < self.entries.len() && key_at(self.entries@, i as int) == key@,
                None => !self.map().contains_key(key@),
            },
    {
        let mut i: usize = 0;
        while i < self.entries.len()
            invariant
                i <= self.entries.len(),
                forall|k: int| 0 <= k < i ==> #[trigger] key_at(self.entries@, k) != key@,
            decreases self.entries.len() - i,
        {
            if self.entries[i].0.same(key) {
                assert(key_at(self.entries@, i as int) == key@);
                return Some(i);
            }
            assert(key_at(self.entries@, i as int) != key@);
            i += 1;
        }
        None
    }

    pub fn get(&self, key: &LibraryEnrichmentEntity) -> (r: Option<V>)
        requires
            self.wf(),
        ensures
            r == (if self.map().contains_key(key@) {
                Some(self.map()[key@])
            } else {
                None
            }),
    {
        match self.position(key) {
            Some(i) => {
                proof {
                    self.lemma_entry(i as int);
                }
                Some(self.entries[i].1)
            },
            None => None,
        }
    }

    pub fn contains_key(&self, key: &LibraryEnrichmentEntity) -> (r: bool)
        requires
            self.wf(),
        ensures
            r == self.map().contains_key(key@),
    {
        match self.position(key) {
            Some(i) => {
                proof {
                    self.lemma_entry(i as int);
                }
                true
            },
            None => false,
        }
    }

    pub fn insert(&mut self, key: LibraryEnrichmentEntity, value: V)
        requires
            old(self).wf(),
        ensures
            final(self).wf(),
            final(self).map() == old(self).map().insert(key@, value),
    {
        let ghost before = *self;
        let ghost k = key@;
        match self.position(&key) {
            Some(i) => {
                let ghost old_key = self.entries@[i as int].0;
                self.entries.set(i, (key, value));
                proof {
                    assert forall|j: int| 0 <= j < self.entries@.len() implies #[trigger] key_at(
                        self.entries@,
                        j,
                    ) == key_at(before.entries@, j) by {}
                    self.lemma_same_keys_but(before, i as int, value);
                }
            },
            None => {
                self.entries.push((key, value));
                proof {
                    assert forall|j: int| 0 <= j < before.entries@.len() implies #[trigger] key_at(
                        self.entries@,
                        j,
                    ) == key_at(before.entries@, j) by {}
                    assert(key_at(self.entries@, before.entries@.len() as int) == k);
                    assert(self.wf()) by {
                        assert forall|a: int, b: int|
                            0 <= a < b < self.entries@.len() implies #[trigger] key_at(
                            self.entries@,
                            a,
                        ) != #[trigger] key_at(self.entries@, b) by {
                            if b == before.entries@.len() {
                                before.lemma_entry(a);
                            } else {
                                assert(key_at(before.entries@, a) != key_at(before.entries@, b));
                            }
                        }
                    }
                    assert(self.map() =~= before.map().insert(k, value)) by {
                        assert forall|x: EntityView|
                            self.map().contains_key(x) <==> #[trigger] before.map().insert(
                                k,
                                value,
                            ).contains_key(x) by {
                            if has_key(self.entries@, x) {
                                let j = index_of_key(self.entries@, x);
                                if j < before.entries@.len() {
                                    assert(key_at(before.entries@, j) == x);
                                }
                            }
                            if has_key(before.entries@, x) {
                                let j = index_of_key(before.entries@, x);
                                assert(key_at(self.entries@, j) == x);
                            }
                        }
                        assert forall|x: EntityView| #[trigger]
                            self.map().contains_key(x) implies self.map()[x]
                            == before.map().insert(k, value)[x] by {
                            let j = index_of_key(self.entries@, x);
                            self.lemma_entry(j);
                            if j < before.entries@.len() {
                                before.lemma_entry(j);
                            }
                        }
                    }
                }
            },
        }
    }

    proof fn lemma_same_keys_but(self, before: Self, i: int, value: V)
        requires
            before.wf(),
            0 <= i < before.entries@.len(),
            self.entries@.len() == before.entries@.len(),
            forall|j: int|
                0 <= j < self.entries@.len() ==> #[trigger] key_at(self.entries@, j) == key_at(
                    before.entries@,
                    j,
                ),
            forall|j: int|
                0 <= j < self.entries@.len() && j != i ==> (#[trigger] self.entries@[j]).1
                    == before.entries@[j].1,
            self.entries@[i].1 == value,
        ensures
            self.wf(),
            self.map() == before.map().insert(key_at(before.entries@, i), value),
    {
        let k = key_at(before.entries@, i);
        assert(self.wf()) by {
            assert forall|a: int, b: int| 0 <= a < b < self.entries@.len() implies #[trigger] key_at(
                self.entries@,
                a,
            ) != #[trigger] key_at(self.entries@, b) by {
                assert(key_at(before.entries@, a) != key_at(before.entries@, b));
            }
        }
        before.lemma_entry(i);
        assert(self.map() =~= before.map().insert(k, value)) by {
            assert forall|x: EntityView| self.map().contains_key(x) <==> #[trigger] before.map().insert(
                k,
                value,
            ).contains_key(x) by {
                if has_key(self.entries@, x) {
                    let j = index_of_key(self.entries@, x);
                    assert(key_at(before.entries@, j) == x);
                }
                if has_key(before.entries@, x) {
                    let j = index_of_key(before.entries@, x);
                    assert(key_at(self.entries@, j) == x);
                }
            }
            assert forall|x: EntityView| #[trigger] self.map().contains_key(x) implies self.map()[x]
                == before.map().insert(k, value)[x] by {
                let j = index_of_key(self.entries@, x);
                self.lemma_entry(j);
                before.lemma_entry(j);
            }
        }
    }

    pub fn remove(&mut self, key: &LibraryEnrichmentEntity)
        requires
            old(self).wf(),
        ensures
            final(self).wf(),
            final(self).map() == old(self).map().remove(key@),
    {
        let ghost before = *self;
        match self.position(key) {
            Some(i) => {
                let _ = self.entries.remove(i);
                proof {
                    assert forall|j: int| 0 <= j < self.entries@.len() implies #[trigger] key_at(
                        self.entries@,
                        j,
                    ) == key_at(before.entries@, if j < i { j } else { j + 1 }) by {}
                    assert(self.wf()) by {
                        assert forall|a: int, b: int|
                            0 <= a < b < self.entries@.len() implies #[trigger] key_at(
                            self.entries@,
                            a,
                        ) != #[trigger] key_at(self.entries@, b) by {
                            let a2 = if a < i { a } else { a + 1 };
                            let b2 = if b < i { b } else { b + 1 };
                            assert(key_at(before.entries@, a2) != key_at(before.entries@, b2));
                        }
                    }
                    before.lemma_entry(i as int);
                    assert(self.map() =~= before.map().remove(key@)) by {
                        assert forall|x: EntityView|
                            self.map().contains_key(x) <==> #[trigger] before.map().remove(
                                key@,
                            ).contains_key(x) by {
                            if has_key(self.entries@, x) {
                                let j = index_of_key(self.entries@, x);
                                let j2 = if j < i { j } else { j + 1 };
                                assert(key_at(before.entries@, j2) == x);
                                assert(key_at(before.entries@, i as int) == key@);
                            }
                            if has_key(before.entries@, x) && x != key@ {
                                let j = index_of_key(before.entries@, x);
                                let j2 = if j < i { j } else { j - 1 };
                                assert(key_at(self.entries@, j2) == x);
                            }
                        }
                        assert forall|x: EntityView| #[trigger]
                            self.map().contains_key(x) implies self.map()[x] == before.map().remove(
                            key@,
                        )[x] by {
                            let j = index_of_key(self.entries@, x);
                            self.lemma_entry(j);
                            before.lemma_entry(if j < i { j } else { j + 1 });
                        }
                    }
                }
            },
            None => {
                assert(self.map() =~= before.map().remove(key@));
            },
        }
    }

    pub fn is_empty(&self) -> (r: bool)
        requires
            self.wf(),
        ensures
            r == (self.map() == Map::<EntityView, V>::empty()),
    {
        if self.entries.len() == 0 {
            assert(self.map() =~= Map::<EntityView, V>::empty());
            true
        } else {
            proof {
                self.lemma_entry(0);
            }
            assert(self.map().contains_key(key_at(self.entries@, 0)));
            false
        }
    }

    pub fn clear(&mut self)
        ensures
            final(self).wf(),
            final(self).map() == Map::<EntityView, V>::empty(),
    {
        self.entries.clear();
        assert(self.map() =~= Map::<EntityView, V>::empty());
    }
}

} // verus!
