//! A densely keyed component table: a mapping from entity identifiers to
//! component values of one kind, kept in insertion order.
//!
//! The table is stored as an association vector whose keys are distinct.
//! Its mathematical view is a `Map<usize, V>`; the order in which entries
//! were inserted is exposed separately through `key_seq`, since the frame
//! traversal walks one table in that order.

use vstd::prelude::*;

verus! {

/// The map described by an association vector: later entries win,
/// although the table never stores a key twice.
pub open spec fn assoc_map<V>(entries: Seq<(usize, V)>) -> Map<usize, V>
    decreases entries.len(),
{
    if entries.len() == 0 {
        Map::empty()
    } else {
        assoc_map(entries.drop_last()).insert(entries.last().0, entries.last().1)
    }
}

/// The keys of an association vector, in storage order.
pub open spec fn assoc_keys<V>(entries: Seq<(usize, V)>) -> Seq<usize> {
    Seq::new(entries.len(), |i: int| entries[i].0)
}

proof fn lemma_assoc_dom<V>(entries: Seq<(usize, V)>)
    ensures
        forall|k: usize| #[trigger] assoc_map(entries).dom().contains(k)
            <==> assoc_keys(entries).contains(k),
    decreases entries.len(),
{
    if entries.len() == 0 {
    } else {
        let pre = entries.drop_last();
        lemma_assoc_dom(pre);
        assert forall|k: usize| #[trigger] assoc_map(entries).dom().contains(k)
            <==> assoc_keys(entries).contains(k) by {
            if assoc_map(entries).dom().contains(k) {
                if k == entries.last().0 {
                    assert(assoc_keys(entries)[entries.len() - 1] == k);
                } else {
                    assert(assoc_map(pre).dom().contains(k));
                    let i = choose|i: int|
                        0 <= i < assoc_keys(pre).len() && assoc_keys(pre)[i] == k;
                    assert(assoc_keys(entries)[i] == k);
                }
            }
            if assoc_keys(entries).contains(k) {
                let i = choose|i: int|
                    0 <= i < assoc_keys(entries).len() && assoc_keys(entries)[i] == k;
                if i == entries.len() - 1 {
                    assert(assoc_map(entries).dom().contains(k));
                } else {
                    assert(assoc_keys(pre)[i] == k);
                    assert(assoc_map(pre).dom().contains(k));
                }
            }
        }
    }
}

proof fn lemma_assoc_at<V>(entries: Seq<(usize, V)>, i: int)
    requires
        0 <= i < entries.len(),
        assoc_keys(entries).no_duplicates(),
    ensures
        assoc_map(entries).dom().contains(entries[i].0),
        assoc_map(entries)[entries[i].0] == entries[i].1,
    decreases entries.len(),
{
    if i == entries.len() - 1 {
    } else {
        let pre = entries.drop_last();
        assert(assoc_keys(pre) =~= assoc_keys(entries).drop_last());
        lemma_assoc_at(pre, i);
        assert(assoc_keys(entries)[i] != assoc_keys(entries)[entries.len() - 1]);
    }
}

proof fn lemma_assoc_update<V>(entries: Seq<(usize, V)>, i: int, v: V)
    requires
        0 <= i < entries.len(),
        assoc_keys(entries).no_duplicates(),
    ensures
        assoc_map(entries.update(i, (entries[i].0, v)))
            =~= assoc_map(entries).insert(entries[i].0, v),
    decreases entries.len(),
{
    let updated = entries.update(i, (entries[i].0, v));
    if i == entries.len() - 1 {
        assert(updated.drop_last() =~= entries.drop_last());
    } else {
        let pre = entries.drop_last();
        assert(assoc_keys(pre) =~= assoc_keys(entries).drop_last());
        assert(updated.drop_last() =~= pre.update(i, (entries[i].0, v)));
        lemma_assoc_update(pre, i, v);
        assert(assoc_keys(entries)[i] != assoc_keys(entries)[entries.len() - 1]);
        assert(updated.last() == entries.last());
    }
}

proof fn lemma_assoc_remove<V>(entries: Seq<(usize, V)>, i: int)
    requires
        0 <= i < entries.len(),
        assoc_keys(entries).no_duplicates(),
    ensures
        assoc_map(entries.remove(i)) =~= assoc_map(entries).remove(entries[i].0),
    decreases entries.len(),
{
    if i == entries.len() - 1 {
        assert(entries.remove(i) =~= entries.drop_last());
        lemma_assoc_dom(entries.drop_last());
        assert forall|j: int| 0 <= j < entries.len() - 1
            implies assoc_keys(entries.drop_last())[j] != entries[i].0 by {
            assert(assoc_keys(entries)[j] != assoc_keys(entries)[i]);
        }
        if assoc_keys(entries.drop_last()).contains(entries[i].0) {
            let j = choose|j: int|
                0 <= j < assoc_keys(entries.drop_last()).len()
                    && assoc_keys(entries.drop_last())[j] == entries[i].0;
            assert(false);
        }
        assert(!assoc_map(entries.drop_last()).dom().contains(entries[i].0));
    } else {
        let pre = entries.drop_last();
        assert(assoc_keys(pre) =~= assoc_keys(entries).drop_last());
        assert(entries.remove(i).drop_last() =~= pre.remove(i));
        lemma_assoc_remove(pre, i);
        assert(assoc_keys(entries)[i] != assoc_keys(entries)[entries.len() - 1]);
        assert(entries.remove(i).last() == entries.last());
    }
}

proof fn lemma_push_no_dup(keys: Seq<usize>, k: usize)
    requires
        keys.no_duplicates(),
        !keys.contains(k),
    ensures
        keys.push(k).no_duplicates(),
{
    assert forall|i: int, j: int|
        0 <= i < keys.push(k).len() && 0 <= j < keys.push(k).len() && i != j
        implies keys.push(k)[i] != keys.push(k)[j] by {
        if i < keys.len() && j < keys.len() {
            assert(keys[i] != keys[j]);
        } else if i < keys.len() {
            assert(keys[i] != k);
        } else {
            assert(keys[j] != k);
        }
    }
}

proof fn lemma_remove_no_dup(keys: Seq<usize>, i: int)
    requires
        keys.no_duplicates(),
        0 <= i < keys.len(),
    ensures
        keys.remove(i).no_duplicates(),
        !keys.remove(i).contains(keys[i]),
        forall|x: usize| x != keys[i]
            ==> keys.remove(i).contains(x) == keys.contains(x),
{
    let rest = keys.remove(i);
    assert forall|a: int, b: int| 0 <= a < rest.len() && 0 <= b < rest.len() && a != b
        implies rest[a] != rest[b] by {
        let a0 = if a < i { a } else { a + 1 };
        let b0 = if b < i { b } else { b + 1 };
        assert(keys[a0] != keys[b0]);
    }
    if rest.contains(keys[i]) {
        let j = choose|j: int| 0 <= j < rest.len() && rest[j] == keys[i];
        let j0 = if j < i { j } else { j + 1 };
        assert(keys[j0] != keys[i]);
        assert(false);
    }
    assert forall|x: usize| x != keys[i]
        implies rest.contains(x) == keys.contains(x) by {
        if rest.contains(x) {
            let j = choose|j: int| 0 <= j < rest.len() && rest[j] == x;
            let j0 = if j < i { j } else { j + 1 };
            assert(keys[j0] == x);
        }
        if keys.contains(x) {
            let j = choose|j: int| 0 <= j < keys.len() && keys[j] == x;
            if j < i {
                assert(rest[j] == x);
            } else {
                assert(rest[j - 1] == x);
            }
        }
    }
}

/// One component table of the world.
pub struct Table<V> {
    entries: Vec<(usize, V)>,
}

impl<V> View for Table<V> {
    type V = Map<usize, V>;

    closed spec fn view(&self) -> Map<usize, V> {
        assoc_map(self.entries@)
    }
}

impl<V> Table<V> {
    /// Invariant of every table value: no key is stored twice.
    #[verifier::type_invariant]
    pub closed spec fn wf(self) -> bool {
        assoc_keys(self.entries@).no_duplicates()
    }

    /// The keys currently present, in the order iteration yields them.
    pub closed spec fn key_seq(self) -> Seq<usize> {
        assoc_keys(self.entries@)
    }

    /// Facts tying the key order to the map view: keys are distinct and
    /// enumerate exactly the view's domain. The hypothesis holds of every
    /// table an executable caller can hold, by the type invariant.
    pub proof fn lemma_wf_facts(self)
        requires
            self.wf(),
        ensures
            self.key_seq().no_duplicates(),
            forall|k: usize| #[trigger] self@.dom().contains(k) <==> self.key_seq().contains(k),
    {
        lemma_assoc_dom(self.entries@);
    }

    /// An empty table.
    pub fn new() -> (r: Table<V>)
        ensures
            r@ == Map::<usize, V>::empty(),
            r.key_seq() == Seq::<usize>::empty(),
    {
        let r = Table { entries: Vec::new() };
        proof {
            assert(r.key_seq() =~= Seq::<usize>::empty());
        }
        r
    }

    /// How many entities have this component.
    pub fn len(&self) -> (n: usize)
        ensures
            n == self.key_seq().len(),
    {
        self.entries.len()
    }

    fn find(&self, key: usize) -> (r: Option<usize>)
        ensures
            match r {
                Some(i) => i < self.entries@.len() && self.entries@[i as int].0 == key,
                None => !self.key_seq().contains(key),
            },
    {
        let n = self.entries.len();
        let mut i: usize = 0;
        while i < n
            invariant
                n == self.entries@.len(),
                i <= n,
                forall|j: int| 0 <= j < i ==> self.entries@[j].0 != key,
            decreases n - i,
        {
            if self.entries[i].0 == key {
                return Some(i);
            }
            i = i + 1;
        }
        proof {
            if self.key_seq().contains(key) {
                let j = choose|j: int|
                    0 <= j < self.key_seq().len() && self.key_seq()[j] == key;
                assert(self.entries@[j].0 == key);
            }
        }
        None
    }

    /// The key at a given position of the iteration order.
    pub fn key_at(&self, i: usize) -> (k: usize)
        requires
            i < self.key_seq().len(),
        ensures
            k == self.key_seq()[i as int],
            self@.dom().contains(k),
    {
        proof {
            use_type_invariant(self);
            lemma_assoc_at(self.entries@, i as int);
        }
        self.entries[i].0
    }

    /// Look the entity up; absence means the entity lacks this component.
    pub fn get(&self, key: usize) -> (r: Option<&V>)
        ensures
            match r {
                Some(v) => self@.dom().contains(key) && *v == self@[key],
                None => !self@.dom().contains(key),
            },
    {
        proof {
            use_type_invariant(self);
            lemma_assoc_dom(self.entries@);
        }
        match self.find(key) {
            Some(i) => {
                proof {
                    lemma_assoc_at(self.entries@, i as int);
                }
                Some(&self.entries[i].1)
            },
            None => None,
        }
    }

    /// Whether the entity has this component.
    pub fn contains_key(&self, key: usize) -> (r: bool)
        ensures
            r == self@.dom().contains(key),
    {
        proof {
            use_type_invariant(self);
            lemma_assoc_dom(self.entries@);
        }
        match self.find(key) {
            Some(i) => {
                proof {
                    assert(self.key_seq()[i as int] == key);
                }
                true
            },
            None => false,
        }
    }

    /// Attach or overwrite the entity's component: last write wins.
    /// A key inserted for the first time goes to the end of the iteration
    /// order; overwriting keeps the old position.
    pub fn insert(&mut self, key: usize, value: V)
        ensures
            final(self)@ == old(self)@.insert(key, value),
            final(self).key_seq() == (if old(self)@.dom().contains(key) {
                old(self).key_seq()
            } else {
                old(self).key_seq().push(key)
            }),
    {
        proof {
            use_type_invariant(&*self);
            lemma_assoc_dom(self.entries@);
        }
        let ghost orig = self.entries@;
        let found = self.find(key);
        let mut es: Vec<(usize, V)> = Vec::new();
        core::mem::swap(&mut es, &mut self.entries);
        match found {
            Some(i) => {
                proof {
                    lemma_assoc_update(orig, i as int, value);
                    assert(orig[i as int].0 == key);
                    assert(assoc_keys(orig.update(i as int, (key, value))) =~= assoc_keys(orig));
                    assert(assoc_keys(orig).contains(key)) by {
                        assert(assoc_keys(orig)[i as int] == key);
                    }
                }
                es.set(i, (key, value));
            },
            None => {
                proof {
                    lemma_push_no_dup(assoc_keys(orig), key);
                    assert(assoc_keys(orig.push((key, value))) =~= assoc_keys(orig).push(key));
                    assert(orig.push((key, value)).drop_last() =~= orig);
                }
                es.push((key, value));
            },
        }
        self.entries = es;
    }

    /// Detach the entity's component; a no-op when the entity lacks it.
    pub fn remove(&mut self, key: usize)
        ensures
            final(self)@ == old(self)@.remove(key),
            !final(self).key_seq().contains(key),
            forall|x: usize| x != key
                ==> final(self).key_seq().contains(x) == old(self).key_seq().contains(x),
    {
        proof {
            use_type_invariant(&*self);
            lemma_assoc_dom(self.entries@);
        }
        let ghost orig = self.entries@;
        let found = self.find(key);
        match found {
            Some(i) => {
                let mut es: Vec<(usize, V)> = Vec::new();
                core::mem::swap(&mut es, &mut self.entries);
                proof {
                    lemma_assoc_remove(orig, i as int);
                    lemma_remove_no_dup(assoc_keys(orig), i as int);
                    assert(orig[i as int].0 == key);
                    assert(assoc_keys(orig.remove(i as int)) =~= assoc_keys(orig).remove(i as int));
                }
                es.remove(i);
                self.entries = es;
            },
            None => {
                proof {
                    assert(old(self)@.remove(key) =~= old(self)@);
                }
            },
        }
    }
}

} // verus!
