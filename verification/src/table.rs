//! Tables from texts to values.
use vstd::prelude::*;

use crate::text::{same, texts};

verus! {

/// A table in which no key occurs twice.
pub struct Table<V> {
    pub entries: Vec<(String, V)>,
}

impl<V> Table<V> {
    /// Whether entry number `i` has this key.
    pub open spec fn at(self, i: int, key: Seq<char>) -> bool {
        0 <= i < self.entries@.len() && self.entries@[i].0@ == key
    }

    pub open spec fn has(self, key: Seq<char>) -> bool {
        exists|i: int| self.at(i, key)
    }

    /// No key occurs twice.
    pub open spec fn wf(self) -> bool {
        forall|i: int, j: int|
            0 <= i < j < self.entries@.len() ==> (#[trigger] self.entries@[i]).0@ != (
            #[trigger] self.entries@[j]).0@
    }
}

impl<V> View for Table<V> {
    type V = Map<Seq<char>, V>;

    open spec fn view(&self) -> Map<Seq<char>, V> {
        Map::new(
            |key: Seq<char>| self.has(key),
            |key: Seq<char>| self.entries@[choose|i: int| self.at(i, key)].1,
        )
    }
}

/// An entry is what the table has for its key.
proof fn lemma_entry<V>(t: Table<V>, i: int)
    requires
        t.wf(),
        0 <= i < t.entries@.len(),
    ensures
        t@.dom().contains(t.entries@[i].0@),
        t@[t.entries@[i].0@] == t.entries@[i].1,
{
    let key = t.entries@[i].0@;
    assert(t.at(i, key));
    let k = choose|k: int| t.at(k, key);
    if k < i {
        assert(t.entries@[k].0@ != t.entries@[i].0@);
    } else if i < k {
        assert(t.entries@[i].0@ != t.entries@[k].0@);
    }
}

impl<V> Table<V> {
    pub fn new() -> (r: Self)
        ensures
            r.wf(),
            r@ == Map::<Seq<char>, V>::empty(),
    {
        let r = Table { entries: Vec::new() };
        assert(r@ =~= Map::<Seq<char>, V>::empty());
        r
    }

    /// Place of a key.
    pub fn position(&self, key: &str) -> (r: Option<usize>)
        requires
            self.wf(),
        ensures
            match r {
                Some(i) => self.at(i as int, key@) && self@.dom().contains(key@) && self@[key@]
                    == self.entries@[i as int].1,
                None => !self@.dom().contains(key@),
            },
    {
        let mut i: usize = 0;
        while i < self.entries.len()
            invariant
                self.wf(),
                i <= self.entries@.len(),
                forall|j: int| 0 <= j < i ==> !self.at(j, key@),
            decreases self.entries@.len() - i,
        {
            if same(self.entries[i].0.as_str(), key) {
                proof {
                    lemma_entry(*self, i as int);
                }
                return Some(i);
            }
            assert(!self.at(i as int, key@));
            i = i + 1;
        }
        None
    }

    /// The value of a key.
    pub fn get(&self, key: &str) -> (r: Option<&V>)
        requires
            self.wf(),
        ensures
            match r {
                Some(v) => self@.dom().contains(key@) && self@[key@] == *v,
                None => !self@.dom().contains(key@),
            },
    {
        match self.position(key) {
            Some(i) => Some(&self.entries[i].1),
            None => None,
        }
    }

    /// Sets the value of a key.
    pub fn insert(&mut self, key: String, value: V)
        requires
            old(self).wf(),
        ensures
            final(self).wf(),
            final(self)@ == old(self)@.insert(key@, value),
    {
        let ghost before = *self;
        match self.position(key.as_str()) {
            Some(i) => {
                self.entries[i].1 = value;
                proof {
                    let now = *self;
                    assert(now.wf());
                    assert forall|k: Seq<char>| now@.dom().contains(k) == before@.insert(
                        key@,
                        value,
                    ).dom().contains(k) by {
                        if now.has(k) {
                            let j = choose|j: int| now.at(j, k);
                            assert(before.at(j, k));
                        }
                        if before.has(k) {
                            let j = choose|j: int| before.at(j, k);
                            assert(now.at(j, k));
                        }
                        assert(now.at(i as int, key@));
                    }
                    assert forall|k: Seq<char>| now@.dom().contains(k) implies now@[k]
                        == before@.insert(key@, value)[k] by {
                        let j = choose|j: int| now.at(j, k);
                        lemma_entry(now, j);
                        if k != key@ {
                            lemma_entry(before, j);
                        } else {
                            lemma_entry(now, i as int);
                        }
                    }
                    assert(now@ =~= before@.insert(key@, value));
                }
            },
            None => {
                let ghost n = self.entries@.len() as int;
                let ghost k0 = key@;
                self.entries.push((key, value));
                proof {
                    let now = *self;
                    assert forall|i: int, j: int|
                        0 <= i < j < now.entries@.len() implies (#[trigger] now.entries@[i]).0@ != (
                    #[trigger] now.entries@[j]).0@ by {
                        if j == n {
                            assert(before.at(i, before.entries@[i].0@));
                        }
                    }
                    assert forall|k: Seq<char>| now@.dom().contains(k) == before@.insert(
                        k0,
                        value,
                    ).dom().contains(k) by {
                        assert(now.at(n, k0));
                        if now.has(k) {
                            let j = choose|j: int| now.at(j, k);
                            if j < n {
                                assert(before.at(j, k));
                            }
                        }
                        if before.has(k) {
                            let j = choose|j: int| before.at(j, k);
                            assert(now.at(j, k));
                        }
                    }
                    assert forall|k: Seq<char>| now@.dom().contains(k) implies now@[k]
                        == before@.insert(k0, value)[k] by {
                        let j = choose|j: int| now.at(j, k);
                        lemma_entry(now, j);
                        if j < n {
                            lemma_entry(before, j);
                            assert(before.at(j, k));
                        }
                    }
                    assert(now@ =~= before@.insert(k0, value));
                }
            },
        }
    }

    /// Takes the value of a key out.
    pub fn take(&mut self, key: &str) -> (r: Option<V>)
        requires
            old(self).wf(),
        ensures
            final(self).wf(),
            final(self)@ == old(self)@.remove(key@),
            match r {
                Some(v) => old(self)@.dom().contains(key@) && v == old(self)@[key@],
                None => !old(self)@.dom().contains(key@),
            },
    {
        let ghost before = *self;
        match self.position(key) {
            None => {
                assert(before@.remove(key@) =~= before@);
                None
            },
            Some(i) => {
                let entry = self.entries.remove(i);
                proof {
                    let now = *self;
                    assert(now.entries@ =~= before.entries@.remove(i as int));
                    assert forall|a: int, b: int| 0 <= a < b < now.entries@.len() implies (
                    #[trigger] now.entries@[a]).0@ != (#[trigger] now.entries@[b]).0@ by {
                        let x = if a < i { a } else { a + 1 };
                        let y = if b < i { b } else { b + 1 };
                        assert(before.entries@[x].0@ != before.entries@[y].0@);
                    }
                    assert(now.wf());
                    assert forall|k: Seq<char>| #[trigger] now@.dom().contains(k) == before@.remove(
                        key@,
                    ).dom().contains(k) by {
                        if now.has(k) {
                            let j = choose|j: int| now.at(j, k);
                            let x = if j < i { j } else { j + 1 };
                            assert(before.at(x, k));
                            if k == key@ {
                                if x < i {
                                    assert(before.entries@[x].0@ != before.entries@[i as int].0@);
                                } else {
                                    assert(before.entries@[i as int].0@ != before.entries@[x].0@);
                                }
                            }
                        }
                        if before.has(k) && k != key@ {
                            let j = choose|j: int| before.at(j, k);
                            assert(now.at(if j < i { j } else { j - 1 }, k));
                        }
                    }
                    assert forall|k: Seq<char>| #[trigger] now@.dom().contains(k) implies now@[k]
                        == before@.remove(key@)[k] by {
                        let j = choose|j: int| now.at(j, k);
                        lemma_entry(now, j);
                        let x = if j < i { j } else { j + 1 };
                        lemma_entry(before, x);
                        assert(before.entries@[x] == now.entries@[j]);
                    }
                    assert(now@ =~= before@.remove(key@));
                }
                Some(entry.1)
            },
        }
    }

    /// Keeps only some keys.
    pub fn retain(&mut self, keys: &Vec<String>)
        requires
            old(self).wf(),
        ensures
            final(self).wf(),
            final(self)@ == old(self)@.restrict(
                Set::new(|k: Seq<char>| texts(keys@).contains(k)),
            ),
    {
        let ghost all = *self;
        let ghost wanted = Set::new(|k: Seq<char>| texts(keys@).contains(k));
        let mut kept: Vec<(String, V)> = Vec::new();
        let ghost mut done: int = 0;
        assert(all.entries@.skip(0) =~= all.entries@);
        while self.entries.len() > 0
            invariant
                all.wf(),
                0 <= done <= all.entries@.len(),
                wanted == Set::new(|k: Seq<char>| texts(keys@).contains(k)),
                self.entries@ == all.entries@.skip(done),
                forall|i: int|
                    0 <= i < kept@.len() ==> exists|j: int|
                        0 <= j < done && all.entries@[j] == #[trigger] kept@[i] && wanted.contains(
                            kept@[i].0@,
                        ),
                forall|j: int|
                    0 <= j < done && wanted.contains((#[trigger] all.entries@[j]).0@)
                        ==> kept@.contains(all.entries@[j]),
                (Table { entries: kept }).wf(),
            decreases self.entries@.len(),
        {
            let ghost was = kept@;
            let ghost prior = Table { entries: kept };
            let ghost rest = self.entries@;
            let entry = self.entries.remove(0);
            proof {
                assert(rest[0] == all.entries@[done]);
                assert(self.entries@ =~= all.entries@.skip(done + 1));
            }
            if is_listed(keys, entry.0.as_str()) {
                kept.push(entry);
                proof {
                    assert(kept@[was.len() as int] == entry);
                    assert forall|i: int, j: int|
                        0 <= i < j < kept@.len() implies (#[trigger] kept@[i]).0@ != (
                    #[trigger] kept@[j]).0@ by {
                        if j == was.len() {
                            assert(kept@[i] == was[i]);
                            let m = choose|m: int|
                                0 <= m < done && all.entries@[m] == was[i] && wanted.contains(
                                    was[i].0@,
                                );
                            assert(all.entries@[m].0@ != all.entries@[done].0@);
                        } else {
                            assert(kept@[i] == prior.entries@[i] && kept@[j] == prior.entries@[j]);
                        }
                    }
                    assert forall|i: int| 0 <= i < kept@.len() implies exists|j: int|
                        0 <= j < done + 1 && all.entries@[j] == #[trigger] kept@[i]
                            && wanted.contains(kept@[i].0@) by {
                        if i < was.len() {
                            assert(kept@[i] == was[i]);
                            let m = choose|m: int|
                                0 <= m < done && all.entries@[m] == was[i] && wanted.contains(
                                    was[i].0@,
                                );
                            assert(all.entries@[m] == kept@[i]);
                        } else {
                            assert(all.entries@[done] == kept@[i]);
                        }
                    }
                    assert forall|j: int|
                        0 <= j < done + 1 && wanted.contains(
                            (#[trigger] all.entries@[j]).0@,
                        ) implies kept@.contains(all.entries@[j]) by {
                        if j < done {
                            let m = choose|m: int| 0 <= m < was.len() && was[m] == all.entries@[j];
                            assert(kept@[m] == all.entries@[j]);
                        }
                    }
                }
            }
            proof {
                done = done + 1;
            }
        }
        self.entries = kept;
        proof {
            let now = *self;
            assert forall|k: Seq<char>| now@.dom().contains(k) == all@.restrict(
                wanted,
            ).dom().contains(k) by {
                if now.has(k) {
                    let i = choose|i: int| now.at(i, k);
                    let j = choose|j: int|
                        0 <= j < done && all.entries@[j] == now.entries@[i] && wanted.contains(
                            now.entries@[i].0@,
                        );
                    assert(all.at(j, k));
                }
                if all.has(k) && wanted.contains(k) {
                    let j = choose|j: int| all.at(j, k);
                    assert(now.entries@.contains(all.entries@[j]));
                    let i = choose|i: int|
                        0 <= i < now.entries@.len() && now.entries@[i] == all.entries@[j];
                    assert(now.at(i, k));
                }
            }
            assert forall|k: Seq<char>| now@.dom().contains(k) implies now@[k] == all@.restrict(
                wanted,
            )[k] by {
                let i = choose|i: int| now.at(i, k);
                lemma_entry(now, i);
                let j = choose|j: int|
                    0 <= j < done && all.entries@[j] == now.entries@[i] && wanted.contains(
                        now.entries@[i].0@,
                    );
                lemma_entry(all, j);
            }
            assert(now@ =~= all@.restrict(wanted));
        }
    }
}

fn is_listed(list: &Vec<String>, text: &str) -> (r: bool)
    ensures
        r == texts(list@).contains(text@),
{
    let mut i: usize = 0;
    while i < list.len()
        invariant
            i <= list@.len(),
            forall|j: int| 0 <= j < i ==> texts(list@)[j] != text@,
        decreases list@.len() - i,
    {
        if same(list[i].as_str(), text) {
            assert(texts(list@)[i as int] == text@);
            return true;
        }
        i = i + 1;
    }
    false
}

/// Whether no key has a value.
pub open spec fn nowhere(map: Map<Seq<char>, String>, value: Seq<char>) -> bool {
    forall|k: Seq<char>| map.dom().contains(k) ==> (#[trigger] map[k])@ != value
}

impl Table<String> {
    /// A key with a given value.
    pub fn key_of(&self, value: &str) -> (r: Option<String>)
        requires
            self.wf(),
        ensures
            match r {
                Some(k) => self@.dom().contains(k@) && self@[k@]@ == value@,
                None => nowhere(self@, value@),
            },
    {
        let mut i: usize = 0;
        while i < self.entries.len()
            invariant
                self.wf(),
                i <= self.entries@.len(),
                forall|j: int| 0 <= j < i ==> (#[trigger] self.entries@[j]).1@ != value@,
            decreases self.entries@.len() - i,
        {
            if same(self.entries[i].1.as_str(), value) {
                proof {
                    lemma_entry(*self, i as int);
                }
                return Some(self.entries[i].0.clone());
            }
            i = i + 1;
        }
        proof {
            assert forall|k: Seq<char>| self@.dom().contains(k) implies (#[trigger] self@[k])@
                != value@ by {
                let j = choose|j: int| self.at(j, k);
                lemma_entry(*self, j);
            }
        }
        None
    }
}

impl Table<u64> {
    /// A key with a given value.
    pub fn key_of_number(&self, value: u64) -> (r: Option<String>)
        requires
            self.wf(),
        ensures
            match r {
                Some(k) => self@.dom().contains(k@) && self@[k@] == value,
                None => forall|k: Seq<char>|
                    self@.dom().contains(k) ==> #[trigger] self@[k] != value,
            },
    {
        let mut i: usize = 0;
        while i < self.entries.len()
            invariant
                self.wf(),
                i <= self.entries@.len(),
                forall|j: int| 0 <= j < i ==> (#[trigger] self.entries@[j]).1 != value,
            decreases self.entries@.len() - i,
        {
            if self.entries[i].1 == value {
                proof {
                    lemma_entry(*self, i as int);
                }
                return Some(self.entries[i].0.clone());
            }
            i = i + 1;
        }
        proof {
            assert forall|k: Seq<char>| self@.dom().contains(k) implies #[trigger] self@[k]
                != value by {
                let j = choose|j: int| self.at(j, k);
                lemma_entry(*self, j);
            }
        }
        None
    }
}

} // verus!
