//! A small map from names to values that remembers the order in which the
//! names were first inserted.

use vstd::prelude::*;

verus! {

/// Whether `key` is the name at position `i` of `keys`.
pub open spec fn key_at(keys: Seq<Seq<char>>, key: Seq<char>, i: int) -> bool {
    0 <= i < keys.len() && keys[i] == key
}

/// Whether `key` is one of `keys`.
pub open spec fn holds(keys: Seq<Seq<char>>, key: Seq<char>) -> bool {
    exists|i: int| key_at(keys, key, i)
}

/// A position of `key` in `keys`, if it is one of them.
pub open spec fn place(keys: Seq<Seq<char>>, key: Seq<char>) -> int {
    choose|i: int| key_at(keys, key, i)
}

/// No name occurs twice.
pub open spec fn distinct(keys: Seq<Seq<char>>) -> bool {
    forall|i: int, j: int| 0 <= i < j < keys.len() ==> keys[i] != keys[j]
}

/// Among distinct names a name stands at one position only.
pub proof fn lemma_place(keys: Seq<Seq<char>>, key: Seq<char>, i: int)
    requires
        distinct(keys),
        key_at(keys, key, i),
    ensures
        holds(keys, key),
        place(keys, key) == i,
{
    let j = place(keys, key);
    assert(key_at(keys, key, j));
}

/// The names and values after `val` is stored under `key`: a name that is
/// already there keeps its position, a new one goes to the end.
pub open spec fn put<T>(keys: Seq<Seq<char>>, vals: Seq<T>, key: Seq<char>, val: T) -> (
    Seq<Seq<char>>,
    Seq<T>,
) {
    if holds(keys, key) {
        (keys, vals.update(place(keys, key), val))
    } else {
        (keys.push(key), vals.push(val))
    }
}

/// Storing under a name keeps the names distinct.
pub proof fn lemma_put_distinct<T>(keys: Seq<Seq<char>>, vals: Seq<T>, key: Seq<char>, val: T)
    requires
        distinct(keys),
    ensures
        distinct(put(keys, vals, key, val).0),
{
    if !holds(keys, key) {
        let after = keys.push(key);
        assert forall|i: int, j: int| 0 <= i < j < after.len() implies after[i] != after[j] by {
            if j == keys.len() {
                assert(!key_at(keys, key, i));
            }
        }
    }
}

/// Entries in first-insertion order. A table holds no name twice.
#[derive(Debug)]
pub struct Table<V> {
    entries: Vec<(String, V)>,
}

impl<V> Table<V> {
    /// The names, in first-insertion order.
    pub closed spec fn keys(&self) -> Seq<Seq<char>> {
        Seq::new(self.entries@.len(), |i: int| self.entries@[i].0@)
    }

    /// The values, in the order of their names.
    pub closed spec fn values(&self) -> Seq<V> {
        Seq::new(self.entries@.len(), |i: int| self.entries@[i].1)
    }

    /// No name occurs twice, and every name has its value. This holds of
    /// every table.
    #[verifier::type_invariant]
    pub open spec fn wf(&self) -> bool {
        distinct(self.keys()) && self.keys().len() == self.values().len()
    }

    /// Whether the table holds `key`.
    pub open spec fn has(&self, key: Seq<char>) -> bool {
        holds(self.keys(), key)
    }

    /// The value stored under `key`, if the table holds it.
    pub open spec fn value_of(&self, key: Seq<char>) -> V {
        self.values()[place(self.keys(), key)]
    }

    /// The table as a mathematical map.
    pub open spec fn view(&self) -> Map<Seq<char>, V> {
        Map::new(|k: Seq<char>| self.has(k), |k: Seq<char>| self.value_of(k))
    }

    /// An empty table.
    pub fn new() -> (t: Self)
        ensures
            t.wf(),
            t.keys() == Seq::<Seq<char>>::empty(),
            t.values() == Seq::<V>::empty(),
            t@ == Map::<Seq<char>, V>::empty(),
    {
        let t = Table { entries: Vec::new() };
        proof {
            assert(t.keys() =~= Seq::<Seq<char>>::empty());
            assert(t.values() =~= Seq::<V>::empty());
            assert forall|k: Seq<char>| !t.has(k) by {
                if t.has(k) {
                    assert(key_at(t.keys(), k, place(t.keys(), k)));
                }
            }
            assert(t@ =~= Map::<Seq<char>, V>::empty());
        }
        t
    }

    /// The number of names.
    pub fn len(&self) -> (n: usize)
        ensures
            self.wf(),
            n == self.keys().len(),
            n == self.values().len(),
    {
        proof {
            use_type_invariant(self);
        }
        self.entries.len()
    }

    /// The first position of `key`.
    pub fn position(&self, key: &String) -> (r: Option<usize>)
        ensures
            self.wf(),
            match r {
                Some(i) => key_at(self.keys(), key@, i as int) && self.has(key@) && place(
                    self.keys(),
                    key@,
                ) == i,
                None => !self.has(key@),
            },
    {
        proof {
            use_type_invariant(self);
        }
        let mut i: usize = 0;
        while i < self.entries.len()
            invariant
                self.wf(),
                i <= self.entries@.len(),
                forall|j: int| 0 <= j < i ==> !key_at(self.keys(), key@, j),
            decreases self.entries@.len() - i,
        {
            if self.entries[i].0 == *key {
                proof {
                    assert(key_at(self.keys(), key@, i as int));
                    lemma_place(self.keys(), key@, i as int);
                }
                return Some(i);
            }
            i = i + 1;
        }
        proof {
            if self.has(key@) {
                assert(key_at(self.keys(), key@, place(self.keys(), key@)));
            }
        }
        None
    }

    /// Whether the table holds `key`.
    pub fn contains_key(&self, key: &String) -> (b: bool)
        ensures
            self.wf(),
            b == self.has(key@),
            b == self@.dom().contains(key@),
    {
        self.position(key).is_some()
    }

    /// The value stored under `key`.
    pub fn get(&self, key: &String) -> (r: Option<&V>)
        ensures
            self.wf(),
            match r {
                Some(v) => self.has(key@) && *v == self.value_of(key@),
                None => !self.has(key@),
            },
            r.is_some() == self@.dom().contains(key@),
            r.is_some() ==> self@[key@] == *r.unwrap(),
    {
        match self.position(key) {
            Some(i) => Some(&self.entries[i].1),
            None => None,
        }
    }

    /// The name at position `i`.
    pub fn key(&self, i: usize) -> (k: &String)
        requires
            i < self.keys().len(),
        ensures
            self.wf(),
            k@ == self.keys()[i as int],
    {
        proof {
            use_type_invariant(self);
        }
        &self.entries[i].0
    }

    /// The value at position `i`.
    pub fn value(&self, i: usize) -> (v: &V)
        requires
            i < self.values().len(),
        ensures
            *v == self.values()[i as int],
    {
        &self.entries[i].1
    }

    /// Takes the oldest entry out of a table that is not empty.
    pub fn remove_first(&mut self)
        requires
            old(self).keys().len() > 0,
        ensures
            final(self).wf(),
            final(self).keys() == old(self).keys().skip(1),
            final(self).values() == old(self).values().skip(1),
    {
        proof {
            use_type_invariant(&*self);
        }
        let ghost before = *self;
        let mut entries: Vec<(String, V)> = Vec::new();
        core::mem::swap(&mut self.entries, &mut entries);
        let _ = entries.remove(0);
        proof {
            let after = Table { entries };
            assert(after.keys() =~= before.keys().skip(1));
            assert(after.values() =~= before.values().skip(1));
        }
        core::mem::swap(&mut self.entries, &mut entries);
    }

    /// Stores `value` under `key`. A name that the table already holds keeps
    /// its position and gets the new value; a new name goes to the end.
    pub fn insert(&mut self, key: String, value: V)
        ensures
            final(self).wf(),
            (final(self).keys(), final(self).values()) == put(
                old(self).keys(),
                old(self).values(),
                key@,
                value,
            ),
            final(self)@ == old(self)@.insert(key@, value),
    {
        let ghost before = *self;
        proof {
            use_type_invariant(&*self);
            lemma_put_distinct(before.keys(), before.values(), key@, value);
        }
        let found = self.position(&key);
        let mut entries: Vec<(String, V)> = Vec::new();
        core::mem::swap(&mut self.entries, &mut entries);
        match found {
            Some(i) => {
                entries.set(i, (key, value));
            },
            None => {
                entries.push((key, value));
            },
        }
        proof {
            let after = Table { entries };
            if found.is_some() {
                assert(after.keys() =~= before.keys());
                assert(after.values() =~= before.values().update(found.unwrap() as int, value));
            } else {
                assert(after.keys() =~= before.keys().push(key@));
                assert(after.values() =~= before.values().push(value));
            }
        }
        core::mem::swap(&mut self.entries, &mut entries);
        proof {
            lemma_put_is_insert(before, *self, key@, value);
        }
    }
}

/// The texts that a vector of strings holds.
pub open spec fn strings(v: Seq<String>) -> Seq<Seq<char>> {
    Seq::new(v.len(), |i: int| v[i]@)
}

/// The lists of texts that the values of a table of lists hold.
pub open spec fn lists(vals: Seq<Vec<String>>) -> Seq<Seq<Seq<char>>> {
    Seq::new(vals.len(), |i: int| strings(vals[i]@))
}

/// The names and lists after `item` is added to the list of `key`: at the end
/// of the list that is there, or as the only item of a new list at the end.
pub open spec fn append_spec(
    keys: Seq<Seq<char>>,
    vals: Seq<Seq<Seq<char>>>,
    key: Seq<char>,
    item: Seq<char>,
) -> (Seq<Seq<char>>, Seq<Seq<Seq<char>>>) {
    if holds(keys, key) {
        let i = place(keys, key);
        (keys, vals.update(i, vals[i].push(item)))
    } else {
        (keys.push(key), vals.push(seq![item]))
    }
}

/// Adds `item` to the list stored under `key`, starting a list where the
/// table has none for it yet.
pub fn append_item(t: &mut Table<Vec<String>>, key: String, item: String)
    ensures
        final(t).wf(),
        (final(t).keys(), lists(final(t).values())) == append_spec(
            old(t).keys(),
            lists(old(t).values()),
            key@,
            item@,
        ),
{
    let ghost before = *t;
    let found = t.position(&key);
    let mut entries: Vec<(String, Vec<String>)> = Vec::new();
    core::mem::swap(&mut t.entries, &mut entries);
    assert(entries@ == before.entries@);
    match found {
        Some(i) => {
            let (name, mut list) = entries.remove(i);
            let ghost old_list = list@;
            list.push(item);
            proof {
                assert(strings(list@) =~= strings(old_list).push(item@));
            }
            entries.insert(i, (name, list));
        },
        None => {
            let mut list: Vec<String> = Vec::new();
            list.push(item);
            proof {
                assert(strings(list@) =~= seq![item@]);
                lemma_put_distinct(before.keys(), before.values(), key@, list);
            }
            entries.push((key, list));
        },
    }
    proof {
        let after = Table { entries };
        if found.is_some() {
            let i = found.unwrap() as int;
            assert(after.keys() =~= before.keys());
            assert(lists(after.values()) =~= lists(before.values()).update(
                i,
                lists(before.values())[i].push(item@),
            ));
        } else {
            assert(after.keys() =~= before.keys().push(key@));
            assert(lists(after.values()) =~= lists(before.values()).push(seq![item@]));
        }
    }
    core::mem::swap(&mut t.entries, &mut entries);
}

/// A table with the same names in the same order, each with a copy of its
/// list.
pub fn copy_lists(t: &Table<Vec<String>>) -> (copy: Table<Vec<String>>)
    ensures
        copy.wf(),
        copy.keys() == t.keys(),
        lists(copy.values()) == lists(t.values()),
{
    proof {
        use_type_invariant(t);
    }
    let mut entries: Vec<(String, Vec<String>)> = Vec::new();
    let mut i: usize = 0;
    while i < t.entries.len()
        invariant
            i <= t.entries@.len(),
            entries@.len() == i,
            forall|j: int| 0 <= j < i ==> (#[trigger] entries@[j]).0@ == t.entries@[j].0@,
            forall|j: int|
                0 <= j < i ==> strings((#[trigger] entries@[j]).1@) == strings(t.entries@[j].1@),
        decreases t.entries@.len() - i,
    {
        let list = t.entries[i].1.clone();
        proof {
            assert(strings(list@) =~= strings(t.entries@[i as int].1@));
        }
        entries.push((t.entries[i].0.clone(), list));
        i = i + 1;
    }
    proof {
        let copy = Table { entries };
        assert(copy.keys() =~= t.keys());
        assert(lists(copy.values()) =~= lists(t.values()));
    }
    Table { entries }
}

/// On the map that a table stands for, `put` is `Map::insert`.
pub proof fn lemma_put_is_insert<V>(before: Table<V>, after: Table<V>, key: Seq<char>, value: V)
    requires
        before.wf(),
        (after.keys(), after.values()) == put(before.keys(), before.values(), key, value),
    ensures
        after.wf(),
        after@ == before@.insert(key, value),
{
    lemma_put_distinct(before.keys(), before.values(), key, value);
    let target = before@.insert(key, value);
    if holds(before.keys(), key) {
        let i = place(before.keys(), key);
        assert(key_at(before.keys(), key, i));
        assert forall|k: Seq<char>| after.has(k) == target.dom().contains(k) by {}
        assert forall|k: Seq<char>| after.has(k) implies after.value_of(k) == target[k] by {
            let j = place(after.keys(), k);
            assert(key_at(after.keys(), k, j));
            lemma_place(before.keys(), k, j);
            if k == key {
                lemma_place(before.keys(), key, i);
            }
        }
    } else {
        let n = before.keys().len() as int;
        assert(key_at(after.keys(), key, n));
        assert forall|k: Seq<char>| after.has(k) == target.dom().contains(k) by {
            if after.has(k) {
                let j = place(after.keys(), k);
                assert(key_at(after.keys(), k, j));
                if j < n {
                    assert(key_at(before.keys(), k, j));
                }
            }
            if before.has(k) {
                let j = place(before.keys(), k);
                assert(key_at(before.keys(), k, j));
                assert(key_at(after.keys(), k, j));
            }
        }
        assert forall|k: Seq<char>| after.has(k) implies after.value_of(k) == target[k] by {
            let j = place(after.keys(), k);
            assert(key_at(after.keys(), k, j));
            lemma_place(after.keys(), k, j);
            if j < n {
                assert(key_at(before.keys(), k, j));
                lemma_place(before.keys(), k, j);
            }
        }
    }
    assert(after@ =~= target);
}

} // verus!
