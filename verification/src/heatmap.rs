//! Frequency tables: a count for each key, every key held once.

use vstd::prelude::*;

verus! {

/// What can key a [`Heatmap`]: a value with a view that two keys can be
/// compared by.
pub trait TableKey: View + Sized {
    /// Whether the two keys stand for the same thing.
    fn same(&self, other: &Self) -> (b: bool)
        ensures
            b == (self@ == other@),
    ;
}

impl<A: TableKey, B: TableKey> TableKey for (A, B) {
    fn same(&self, other: &Self) -> (b: bool) {
        self.0.same(&other.0) && self.1.same(&other.1)
    }
}

impl<A: TableKey, B: TableKey, C: TableKey> TableKey for (A, B, C) {
    fn same(&self, other: &Self) -> (b: bool) {
        self.0.same(&other.0) && self.1.same(&other.1) && self.2.same(&other.2)
    }
}

/// A count after one more occurrence: it stops at the largest `u32`.
pub open spec fn bumped(count: u32) -> u32 {
    if count < u32::MAX {
        (count + 1) as u32
    } else {
        count
    }
}

/// The mapping `table` after one more occurrence of `key`: the key's count
/// goes up by one, from 0 where the key is new.
pub open spec fn recorded_in<KV>(table: Map<KV, u32>, key: KV) -> Map<KV, u32> {
    table.insert(
        key,
        bumped(
            if table.contains_key(key) {
                table[key]
            } else {
                0
            },
        ),
    )
}

/// No key stands in two rows.
pub open spec fn distinct_keys<KV>(rows: Seq<(KV, u32)>) -> bool {
    forall|i: int, j: int| 0 <= i < j < rows.len() ==> rows[i].0 != rows[j].0
}

/// Whether some row of `rows` is keyed by `key`.
pub open spec fn has_key<KV>(rows: Seq<(KV, u32)>, key: KV) -> bool {
    exists|i: int| 0 <= i < rows.len() && (#[trigger] rows[i]).0 == key
}

/// The index of a row keyed by `key`, if there is one.
pub open spec fn find_row<KV>(rows: Seq<(KV, u32)>, key: KV) -> Option<int> {
    if has_key(rows, key) {
        Some(choose|i: int| 0 <= i < rows.len() && (#[trigger] rows[i]).0 == key)
    } else {
        None
    }
}

/// With distinct keys `find_row` finds the one row of a key.
pub proof fn lemma_find_row<KV>(rows: Seq<(KV, u32)>, key: KV)
    requires
        distinct_keys(rows),
    ensures
        find_row(rows, key) matches Some(i) ==> 0 <= i < rows.len() && rows[i].0 == key,
        forall|i: int|
            0 <= i < rows.len() && (#[trigger] rows[i]).0 == key ==> find_row(rows, key) == Some(i),
{
}

/// The mapping that the rows spell out, key to count.
pub open spec fn rows_map<KV>(rows: Seq<(KV, u32)>) -> Map<KV, u32>
    decreases rows.len(),
{
    if rows.len() == 0 {
        Map::empty()
    } else {
        rows_map(rows.drop_last()).insert(rows.last().0, rows.last().1)
    }
}

/// The sum of the counts of all rows.
pub open spec fn rows_total<KV>(rows: Seq<(KV, u32)>) -> nat
    decreases rows.len(),
{
    if rows.len() == 0 {
        0
    } else {
        rows_total(rows.drop_last()) + rows.last().1 as nat
    }
}

/// The keys of `rows_map(rows)` are the keys of the rows, and they are
/// finitely many.
pub proof fn lemma_rows_map_dom<KV>(rows: Seq<(KV, u32)>)
    ensures
        rows_map(rows).dom().finite(),
        rows_map(rows).dom().len() <= rows.len(),
        forall|key: KV| #[trigger] rows_map(rows).contains_key(key) <==> has_key(rows, key),
    decreases rows.len(),
{
    if rows.len() > 0 {
        let front = rows.drop_last();
        lemma_rows_map_dom(front);
        assert forall|key: KV| #[trigger]
            rows_map(rows).contains_key(key) <==> has_key(rows, key) by {
            if has_key(rows, key) {
                let i = choose|i: int| 0 <= i < rows.len() && (#[trigger] rows[i]).0 == key;
                if i < rows.len() - 1 {
                    assert(front[i].0 == key);
                }
            }
            if rows_map(rows).contains_key(key) && key != rows.last().0 {
                let i = choose|i: int| 0 <= i < front.len() && (#[trigger] front[i]).0 == key;
                assert(rows[i].0 == key);
            }
            if key == rows.last().0 {
                assert(rows[rows.len() - 1].0 == key);
            }
        }
    }
}

/// With distinct keys, each row's key maps to that row's count, and there are
/// as many keys as rows.
pub proof fn lemma_rows_map_rows<KV>(rows: Seq<(KV, u32)>)
    requires
        distinct_keys(rows),
    ensures
        rows_map(rows).dom().len() == rows.len(),
        forall|i: int|
            0 <= i < rows.len() ==> rows_map(rows).contains_key((#[trigger] rows[i]).0)
                && rows_map(rows)[rows[i].0] == rows[i].1,
    decreases rows.len(),
{
    if rows.len() > 0 {
        let front = rows.drop_last();
        lemma_rows_map_rows(front);
        lemma_rows_map_dom(front);
        if has_key(front, rows.last().0) {
            let i = choose|i: int| 0 <= i < front.len() && (#[trigger] front[i]).0 == rows.last().0;
            assert(rows[i].0 == rows[rows.len() - 1].0);
        }
        assert forall|i: int| 0 <= i < rows.len() implies rows_map(rows).contains_key(
            (#[trigger] rows[i]).0,
        ) && rows_map(rows)[rows[i].0] == rows[i].1 by {
            if i < rows.len() - 1 {
                assert(front[i] == rows[i]);
                assert(rows[i].0 != rows[rows.len() - 1].0);
            }
        }
    }
}

/// With distinct keys, a new count in row `i` is a new count for that row's
/// key, and nothing else changes.
pub proof fn lemma_rows_map_update<KV>(rows: Seq<(KV, u32)>, i: int, count: u32)
    requires
        distinct_keys(rows),
        0 <= i < rows.len(),
    ensures
        distinct_keys(rows.update(i, (rows[i].0, count))),
        rows_map(rows.update(i, (rows[i].0, count))) == rows_map(rows).insert(rows[i].0, count),
        rows_total(rows.update(i, (rows[i].0, count))) + rows[i].1 == rows_total(rows) + count,
    decreases rows.len(),
{
    let after = rows.update(i, (rows[i].0, count));
    let front = rows.drop_last();
    if i == rows.len() - 1 {
        assert(after.drop_last() == front);
        assert(rows_map(after) == rows_map(rows).insert(rows[i].0, count));
    } else {
        lemma_rows_map_update(front, i, count);
        assert(after.drop_last() == front.update(i, (front[i].0, count)));
        assert(after.last() == rows.last());
        assert(rows[i].0 != rows[rows.len() - 1].0);
        assert(rows_map(after) == rows_map(rows).insert(rows[i].0, count));
    }
}

/// A row under a key that no row has yet is that key's entry in the mapping.
pub proof fn lemma_rows_map_push<KV>(rows: Seq<(KV, u32)>, key: KV, count: u32)
    requires
        distinct_keys(rows),
        !has_key(rows, key),
    ensures
        distinct_keys(rows.push((key, count))),
        rows_map(rows.push((key, count))) == rows_map(rows).insert(key, count),
        rows_total(rows.push((key, count))) == rows_total(rows) + count,
{
    let after = rows.push((key, count));
    assert(after.drop_last() == rows);
    assert forall|i: int, j: int| 0 <= i < j < after.len() implies after[i].0 != after[j].0 by {
        if j == rows.len() {
            assert(rows[i].0 != key);
        }
    }
}

/// A table of counts, one row for each key that was ever recorded, in the
/// order in which the keys first came.
pub struct Heatmap<K> {
    entries: Vec<(K, u32)>,
}

impl<K: TableKey> View for Heatmap<K> {
    type V = Map<K::V, u32>;

    /// The table as a mapping from key to count.
    open spec fn view(&self) -> Map<K::V, u32> {
        rows_map(self.rows())
    }
}

impl<K: TableKey> Heatmap<K> {
    /// The rows of the table in their order, each key by its view.
    pub closed spec fn rows(&self) -> Seq<(K::V, u32)> {
        self.entries@.map_values(|e: (K, u32)| (e.0@, e.1))
    }

    /// Every key has one row.
    pub open spec fn wf(&self) -> bool {
        distinct_keys(self.rows())
    }

    /// The sum of all counts.
    pub open spec fn total(&self) -> nat {
        rows_total(self.rows())
    }

    /// The count under `key`, 0 where the table has none.
    pub open spec fn count_of(&self, key: K::V) -> u32 {
        if self@.contains_key(key) {
            self@[key]
        } else {
            0
        }
    }

    /// An empty table.
    pub fn new() -> (table: Self)
        ensures
            table.wf(),
            table.rows() == Seq::<(K::V, u32)>::empty(),
            table@ == Map::<K::V, u32>::empty(),
    {
        let table = Heatmap { entries: Vec::new() };
        assert(table.rows() == Seq::<(K::V, u32)>::empty());
        table
    }

    /// The number of keys.
    pub fn len(&self) -> (n: usize)
        ensures
            n == self.rows().len(),
            self.wf() ==> n == self@.len(),
    {
        proof {
            if self.wf() {
                lemma_rows_map_rows(self.rows());
            }
        }
        self.entries.len()
    }

    /// The key of row `i`.
    pub fn key_at(&self, i: usize) -> (key: &K)
        requires
            i < self.rows().len(),
        ensures
            key@ == self.rows()[i as int].0,
    {
        &self.entries[i].0
    }

    /// The count of row `i`.
    pub fn count_at(&self, i: usize) -> (count: u32)
        requires
            i < self.rows().len(),
        ensures
            count == self.rows()[i as int].1,
    {
        self.entries[i].1
    }

    /// The row that `key` stands in, if it has one.
    pub fn position(&self, key: &K) -> (at: Option<usize>)
        ensures
            match at {
                Some(i) => i < self.rows().len() && self.rows()[i as int].0 == key@,
                None => !has_key(self.rows(), key@),
            },
    {
        let mut i: usize = 0;
        while i < self.entries.len()
            invariant
                i <= self.entries.len(),
                forall|j: int| 0 <= j < i ==> (#[trigger] self.rows()[j]).0 != key@,
            decreases self.entries.len() - i,
        {
            if self.entries[i].0.same(key) {
                return Some(i);
            }
            i = i + 1;
        }
        None
    }

    /// The count under `key`, if the table has one.
    pub fn get(&self, key: &K) -> (count: Option<u32>)
        requires
            self.wf(),
        ensures
            match count {
                Some(c) => self@.contains_key(key@) && self@[key@] == c,
                None => !self@.contains_key(key@),
            },
    {
        proof {
            lemma_rows_map_dom(self.rows());
            lemma_rows_map_rows(self.rows());
        }
        match self.position(key) {
            Some(i) => Some(self.entries[i].1),
            None => None,
        }
    }

    /// The count under `key`: 0 for a key that was never recorded.
    pub fn count(&self, key: &K) -> (count: u32)
        requires
            self.wf(),
        ensures
            count == self.count_of(key@),
    {
        match self.get(key) {
            Some(c) => c,
            None => 0,
        }
    }

    /// Whether `key` has a row.
    pub fn contains(&self, key: &K) -> (found: bool)
        requires
            self.wf(),
        ensures
            found == self@.contains_key(key@),
    {
        self.get(key).is_some()
    }

    /// Count one more occurrence of `key`: its count goes up by one, from 0
    /// where it has none, and stays where it is once it is the largest `u32`.
    /// A key that is new gets the last row; no other row moves or changes.
    pub fn record(&mut self, key: K)
        requires
            old(self).wf(),
        ensures
            final(self).wf(),
            final(self)@ == recorded_in(old(self)@, key@),
            final(self).total() + old(self).count_of(key@) == old(self).total() + bumped(
                old(self).count_of(key@),
            ),
            match old(self).row_of(key@) {
                Some(i) => final(self).rows() == old(self).rows().update(
                    i,
                    (key@, bumped(old(self).rows()[i].1)),
                ),
                None => final(self).rows() == old(self).rows().push((key@, 1u32)),
            },
    {
        proof {
            lemma_rows_map_dom(self.rows());
            lemma_rows_map_rows(self.rows());
            self.lemma_row_of(key@);
        }
        let ghost before = self.rows();
        match self.position(&key) {
            Some(i) => {
                let count = self.entries[i].1;
                let next = if count < u32::MAX {
                    count + 1
                } else {
                    count
                };
                self.entries[i].1 = next;
                proof {
                    assert(self.rows() == before.update(i as int, (before[i as int].0, next)));
                    lemma_rows_map_update(before, i as int, next);
                }
            },
            None => {
                self.entries.push((key, 1));
                proof {
                    assert(self.rows() == before.push((key@, 1u32)));
                    lemma_rows_map_push(before, key@, 1u32);
                }
            },
        }
    }

    /// Put `key` in with `count`, in the last row, unless the key has a row
    /// already: then nothing changes and the answer is `false`.
    pub fn insert_new(&mut self, key: K, count: u32) -> (done: bool)
        requires
            old(self).wf(),
        ensures
            final(self).wf(),
            done == !old(self)@.contains_key(key@),
            done ==> final(self).rows() == old(self).rows().push((key@, count)),
            done ==> final(self)@ == old(self)@.insert(key@, count),
            !done ==> final(self).rows() == old(self).rows(),
    {
        proof {
            lemma_rows_map_dom(self.rows());
        }
        let ghost before = self.rows();
        match self.position(&key) {
            Some(_) => false,
            None => {
                self.entries.push((key, count));
                proof {
                    assert(self.rows() == before.push((key@, count)));
                    lemma_rows_map_push(before, key@, count);
                }
                true
            },
        }
    }

    /// The index of the row keyed by `key`, if there is one.
    pub open spec fn row_of(&self, key: K::V) -> Option<int> {
        find_row(self.rows(), key)
    }

    /// `row_of` finds the one row of a key, and a key has a row exactly when
    /// the mapping holds it.
    pub proof fn lemma_row_of(&self, key: K::V)
        requires
            self.wf(),
        ensures
            self.row_of(key) is Some <==> self@.contains_key(key),
            self.row_of(key) matches Some(i) ==> 0 <= i < self.rows().len() && self.rows()[i]
                == (key, self@[key]),
            forall|i: int|
                0 <= i < self.rows().len() && (#[trigger] self.rows()[i]).0 == key
                    ==> self.row_of(key) == Some(i),
    {
        lemma_rows_map_dom(self.rows());
        lemma_rows_map_rows(self.rows());
    }
}

} // verus!
