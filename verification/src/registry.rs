//! An insertion-ordered table keyed by strings.

use vstd::prelude::*;

verus! {

/// One row of a [`Table`].
#[derive(Debug, Clone)]
pub struct Entry<V> {
    pub key: String,
    pub value: V,
}

/// A table from string keys to values in which no key occurs twice.
///
/// The view is the finite map from each key (as a sequence of characters) to
/// the value stored under it. Rows keep the order in which their keys were
/// first inserted.
#[derive(Debug)]
pub struct Table<V> {
    entries: Vec<Entry<V>>,
}

/// The map that a sequence of rows stands for; a later row wins over an
/// earlier one with the same key.
pub open spec fn rows_to_map<V>(rows: Seq<Entry<V>>) -> Map<Seq<char>, V>
    decreases rows.len(),
{
    if rows.len() == 0 {
        Map::empty()
    } else {
        rows_to_map(rows.drop_last()).insert(rows.last().key@, rows.last().value)
    }
}

/// No two rows share a key.
pub open spec fn distinct_keys<V>(rows: Seq<Entry<V>>) -> bool {
    forall|i: int, j: int|
        0 <= i < j < rows.len() ==> (#[trigger] rows[i]).key@ != (#[trigger] rows[j]).key@
}

pub proof fn lemma_rows_domain<V>(rows: Seq<Entry<V>>, k: Seq<char>)
    ensures
        rows_to_map(rows).contains_key(k) <==> exists|i: int|
            0 <= i < rows.len() && (#[trigger] rows[i]).key@ == k,
    decreases rows.len(),
{
    if rows.len() > 0 {
        let init = rows.drop_last();
        lemma_rows_domain(init, k);
        if rows_to_map(rows).contains_key(k) {
            if rows.last().key@ == k {
                assert(rows[rows.len() - 1].key@ == k);
            } else {
                let i = choose|i: int| 0 <= i < init.len() && (#[trigger] init[i]).key@ == k;
                assert(rows[i].key@ == k);
            }
        }
        if exists|i: int| 0 <= i < rows.len() && (#[trigger] rows[i]).key@ == k {
            let i = choose|i: int| 0 <= i < rows.len() && (#[trigger] rows[i]).key@ == k;
            if i < rows.len() - 1 {
                assert(init[i].key@ == k);
            }
        }
    }
}

pub proof fn lemma_rows_value<V>(rows: Seq<Entry<V>>, i: int)
    requires
        distinct_keys(rows),
        0 <= i < rows.len(),
    ensures
        rows_to_map(rows).contains_key(rows[i].key@),
        rows_to_map(rows)[rows[i].key@] == rows[i].value,
    decreases rows.len(),
{
    let init = rows.drop_last();
    if i < rows.len() - 1 {
        assert(init[i] == rows[i]);
        assert(distinct_keys(init)) by {
            assert forall|a: int, b: int| 0 <= a < b < init.len() implies (#[trigger] init[a]).key@
                != (#[trigger] init[b]).key@ by {
                assert(init[a] == rows[a]);
                assert(init[b] == rows[b]);
            }
        }
        lemma_rows_value(init, i);
        assert(rows[i].key@ != rows[rows.len() - 1].key@);
    }
}

pub proof fn lemma_rows_remove<V>(rows: Seq<Entry<V>>, i: int)
    requires
        distinct_keys(rows),
        0 <= i < rows.len(),
    ensures
        distinct_keys(rows.remove(i)),
        rows_to_map(rows.remove(i)) =~= rows_to_map(rows).remove(rows[i].key@),
    decreases rows.len(),
{
    let out = rows.remove(i);
    assert(distinct_keys(out)) by {
        assert forall|a: int, b: int| 0 <= a < b < out.len() implies (#[trigger] out[a]).key@
            != (#[trigger] out[b]).key@ by {
            let a2 = if a < i { a } else { a + 1 };
            let b2 = if b < i { b } else { b + 1 };
            assert(out[a] == rows[a2]);
            assert(out[b] == rows[b2]);
        }
    }
    let init = rows.drop_last();
    if i == rows.len() - 1 {
        assert(out =~= init);
        assert(!rows_to_map(init).contains_key(rows[i].key@)) by {
            lemma_rows_domain(init, rows[i].key@);
            if exists|j: int| 0 <= j < init.len() && (#[trigger] init[j]).key@ == rows[i].key@ {
                let j = choose|j: int| 0 <= j < init.len() && (#[trigger] init[j]).key@ == rows[i].key@;
                assert(init[j] == rows[j]);
            }
        }
    } else {
        assert(distinct_keys(init)) by {
            assert forall|a: int, b: int| 0 <= a < b < init.len() implies (#[trigger] init[a]).key@
                != (#[trigger] init[b]).key@ by {
                assert(init[a] == rows[a]);
                assert(init[b] == rows[b]);
            }
        }
        assert(init[i] == rows[i]);
        lemma_rows_remove(init, i);
        assert(out.drop_last() =~= init.remove(i));
        assert(out.last() == rows.last());
        assert(rows[i].key@ != rows[rows.len() - 1].key@);
    }
}

pub proof fn lemma_rows_replace<V>(rows: Seq<Entry<V>>, i: int, row: Entry<V>)
    requires
        distinct_keys(rows),
        0 <= i < rows.len(),
        row.key@ == rows[i].key@,
    ensures
        distinct_keys(rows.update(i, row)),
        rows_to_map(rows.update(i, row)) =~= rows_to_map(rows).insert(row.key@, row.value),
    decreases rows.len(),
{
    let out = rows.update(i, row);
    assert(distinct_keys(out)) by {
        assert forall|a: int, b: int| 0 <= a < b < out.len() implies (#[trigger] out[a]).key@
            != (#[trigger] out[b]).key@ by {
            assert(out[a].key@ == rows[a].key@);
            assert(out[b].key@ == rows[b].key@);
        }
    }
    let init = rows.drop_last();
    if i == rows.len() - 1 {
        assert(out.drop_last() =~= init);
    } else {
        assert(distinct_keys(init)) by {
            assert forall|a: int, b: int| 0 <= a < b < init.len() implies (#[trigger] init[a]).key@
                != (#[trigger] init[b]).key@ by {
                assert(init[a] == rows[a]);
                assert(init[b] == rows[b]);
            }
        }
        assert(init[i] == rows[i]);
        lemma_rows_replace(init, i, row);
        assert(out.drop_last() =~= init.update(i, row));
        assert(out.last() == rows.last());
        assert(rows[i].key@ != rows[rows.len() - 1].key@);
    }
}

impl<V> View for Table<V> {
    type V = Map<Seq<char>, V>;

    closed spec fn view(&self) -> Map<Seq<char>, V> {
        rows_to_map(self.entries@)
    }
}

impl<V> Table<V> {
    /// The rows in insertion order.
    pub closed spec fn rows(&self) -> Seq<Entry<V>> {
        self.entries@
    }

    /// The table's validity, which every table has: no key occurs twice.
    #[verifier::type_invariant]
    pub closed spec fn wf(&self) -> bool {
        distinct_keys(self.entries@)
    }

    /// What `wf`, `rows` and the view have to do with each other.
    pub proof fn lemma_rows(&self)
        requires
            self.wf(),
        ensures
            distinct_keys(self.rows()),
            self@ == rows_to_map(self.rows()),
            self@.dom().finite(),
            forall|i: int|
                0 <= i < self.rows().len() ==> self@.contains_key((#[trigger] self.rows()[i]).key@)
                    && self@[self.rows()[i].key@] == self.rows()[i].value,
            forall|k: Seq<char>| #[trigger]
                self@.contains_key(k) ==> exists|i: int|
                    0 <= i < self.rows().len() && (#[trigger] self.rows()[i]).key@ == k,
    {
        let rows = self.rows();
        assert forall|i: int| 0 <= i < rows.len() implies self@.contains_key(
            (#[trigger] rows[i]).key@,
        ) && self@[rows[i].key@] == rows[i].value by {
            lemma_rows_value(rows, i);
        }
        assert forall|k: Seq<char>| #[trigger] self@.contains_key(k) implies exists|i: int|
            0 <= i < rows.len() && (#[trigger] rows[i]).key@ == k by {
            lemma_rows_domain(rows, k);
        }
        lemma_rows_finite(rows);
    }

    /// An empty table.
    pub fn new() -> (table: Self)
        ensures
            table@ == Map::<Seq<char>, V>::empty(),
            table.rows().len() == 0,
    {
        Table { entries: Vec::new() }
    }

    /// The number of keys.
    pub fn len(&self) -> (n: usize)
        ensures
            n == self.rows().len(),
            self.wf(),
    {
        proof {
            use_type_invariant(self);
        }
        self.entries.len()
    }

    /// The row at position `i`, in insertion order.
    pub fn row(&self, i: usize) -> (row: &Entry<V>)
        requires
            i < self.rows().len(),
        ensures
            *row == self.rows()[i as int],
    {
        &self.entries[i]
    }

    fn position(&self, key: &String) -> (at: Option<usize>)
        ensures
            match at {
                Some(i) => i < self.entries@.len() && self.entries@[i as int].key@ == key@,
                None => forall|j: int|
                    0 <= j < self.entries@.len() ==> (#[trigger] self.entries@[j]).key@ != key@,
            },
    {
        let mut i: usize = 0;
        while i < self.entries.len()
            invariant
                i <= self.entries@.len(),
                forall|j: int| 0 <= j < i ==> (#[trigger] self.entries@[j]).key@ != key@,
            decreases self.entries@.len() - i,
        {
            if self.entries[i].key == *key {
                return Some(i);
            }
            i += 1;
        }
        None
    }

    /// Whether `key` is in the table.
    pub fn contains_key(&self, key: &String) -> (found: bool)
        ensures
            found == self@.contains_key(key@),
    {
        proof {
            use_type_invariant(self);
            lemma_rows_domain(self.entries@, key@);
        }
        self.position(key).is_some()
    }

    /// The value stored under `key`, if any.
    pub fn get(&self, key: &String) -> (value: Option<&V>)
        ensures
            match value {
                Some(v) => self@.contains_key(key@) && *v == self@[key@],
                None => !self@.contains_key(key@),
            },
    {
        proof {
            use_type_invariant(self);
            lemma_rows_domain(self.entries@, key@);
        }
        match self.position(key) {
            Some(i) => {
                proof {
                    lemma_rows_value(self.entries@, i as int);
                }
                Some(&self.entries[i].value)
            },
            None => None,
        }
    }

    /// Stores `value` under `key` and returns what was stored there before.
    /// A key that is already present keeps its place in the order of rows.
    pub fn insert(&mut self, key: String, value: V) -> (previous: Option<V>)
        ensures
            final(self)@ == old(self)@.insert(key@, value),
            match previous {
                Some(v) => old(self)@.contains_key(key@) && v == old(self)@[key@]
                    && final(self).rows().len() == old(self).rows().len(),
                None => !old(self)@.contains_key(key@) && final(self).rows() == old(
                    self,
                ).rows().push(Entry { key, value }),
            },
    {
        proof {
            use_type_invariant(&*self);
            lemma_rows_domain(self.entries@, key@);
        }
        match self.position(&key) {
            Some(i) => {
                proof {
                    lemma_rows_value(self.entries@, i as int);
                }
                let ghost before = self.entries@;
                let mut rows: Vec<Entry<V>> = Vec::new();
                core::mem::swap(&mut self.entries, &mut rows);
                let row = rows.remove(i);
                rows.insert(i, Entry { key, value });
                proof {
                    let put = Entry { key, value };
                    assert(rows@ =~= before.update(i as int, put));
                    lemma_rows_replace(before, i as int, put);
                }
                self.entries = rows;
                Some(row.value)
            },
            None => {
                let ghost before = self.entries@;
                let mut rows: Vec<Entry<V>> = Vec::new();
                core::mem::swap(&mut self.entries, &mut rows);
                rows.push(Entry { key, value });
                proof {
                    assert(rows@.drop_last() =~= before);
                    assert forall|a: int, b: int| 0 <= a < b < rows@.len() implies (#[trigger] rows@[a]).key@
                        != (#[trigger] rows@[b]).key@ by {
                        assert(rows@[a] == before[a]);
                        if b < before.len() {
                            assert(rows@[b] == before[b]);
                        }
                    }
                }
                self.entries = rows;
                None
            },
        }
    }

    /// Removes `key` and returns what was stored under it.
    pub fn remove(&mut self, key: &String) -> (removed: Option<V>)
        ensures
            final(self)@ == old(self)@.remove(key@),
            match removed {
                Some(v) => old(self)@.contains_key(key@) && v == old(self)@[key@],
                None => !old(self)@.contains_key(key@),
            },
    {
        proof {
            use_type_invariant(&*self);
            lemma_rows_domain(self.entries@, key@);
        }
        match self.position(key) {
            Some(i) => {
                proof {
                    lemma_rows_value(self.entries@, i as int);
                    lemma_rows_remove(self.entries@, i as int);
                }
                let mut rows: Vec<Entry<V>> = Vec::new();
                core::mem::swap(&mut self.entries, &mut rows);
                let row = rows.remove(i);
                self.entries = rows;
                Some(row.value)
            },
            None => {
                assert(self@.remove(key@) =~= self@);
                None
            },
        }
    }
}

impl<V: Clone> Clone for Table<V> {
    /// A table with the same keys in the same order, each with a clone of
    /// its value.
    fn clone(&self) -> (copy: Self)
        ensures
            copy.rows().len() == self.rows().len(),
            forall|i: int|
                0 <= i < self.rows().len() ==> (#[trigger] copy.rows()[i]).key@
                    == self.rows()[i].key@,
    {
        proof {
            use_type_invariant(self);
        }
        let mut rows: Vec<Entry<V>> = Vec::new();
        let mut i: usize = 0;
        while i < self.entries.len()
            invariant
                i <= self.entries@.len(),
                rows@.len() == i,
                forall|j: int| 0 <= j < i ==> (#[trigger] rows@[j]).key@ == self.entries@[j].key@,
            decreases self.entries@.len() - i,
        {
            let key = self.entries[i].key.clone();
            let value = self.entries[i].value.clone();
            rows.push(Entry { key, value });
            i += 1;
        }
        Table { entries: rows }
    }
}

pub proof fn lemma_rows_finite<V>(rows: Seq<Entry<V>>)
    ensures
        rows_to_map(rows).dom().finite(),
    decreases rows.len(),
{
    if rows.len() > 0 {
        lemma_rows_finite(rows.drop_last());
    }
}

} // verus!
