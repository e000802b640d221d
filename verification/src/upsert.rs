//! Tables that are filled by bulk upsert. A row is found by its natural
//! key: the unit or nurse that owns it, a day and a shift. An item whose
//! key the table holds overwrites the value of that row; any other item
//! becomes a new row. A batch is applied in order, as a whole or not at all.

use crate::dates::Day;
use crate::errors::{ApiError, ApiErrorView};
use crate::models::UpsertCount;
use vstd::prelude::*;
use vstd::string::StringExecFns;

verus! {

/// The natural key of a row: its owner, a day and a shift.
#[derive(Clone, Copy, Debug, PartialEq, Eq, Structural)]
pub struct NaturalKey {
    pub owner_id: i64,
    pub day: Day,
    pub shift_id: i64,
}

/// A row of a table: its id, its natural key and its value.
#[derive(Clone, Debug, PartialEq, Eq)]
pub struct UpsertRow<V> {
    pub id: i64,
    pub key: NaturalKey,
    pub value: V,
}

/// Whether rows hold a key.
pub open spec fn has_key<V>(rows: Seq<UpsertRow<V>>, key: NaturalKey) -> bool {
    exists|i: int| 0 <= i < rows.len() && (#[trigger] rows[i]).key == key
}

/// The rows after one item was applied: the row with its key takes its
/// value, or a new row with the id `next_id` is added at the end.
pub open spec fn upserted<V>(
    rows: Seq<UpsertRow<V>>,
    next_id: int,
    key: NaturalKey,
    value: V,
) -> Seq<UpsertRow<V>> {
    if has_key(rows, key) {
        rows.map_values(
            |row: UpsertRow<V>|
                if row.key == key {
                    UpsertRow { id: row.id, key: row.key, value }
                } else {
                    row
                },
        )
    } else {
        rows.push(UpsertRow { id: next_id as i64, key, value })
    }
}

/// The rows after a batch was applied in its order. New rows get the ids
/// from `first_id` on.
pub open spec fn upserted_all<V>(
    rows: Seq<UpsertRow<V>>,
    first_id: int,
    items: Seq<(NaturalKey, V)>,
) -> Seq<UpsertRow<V>>
    decreases items.len(),
{
    if items.len() == 0 {
        rows
    } else {
        let so_far = upserted_all(rows, first_id, items.drop_last());
        upserted(so_far, first_id + so_far.len() - rows.len(), items.last().0, items.last().1)
    }
}

/// What rows hold, as a map from keys to values.
pub open spec fn contents<V>(rows: Seq<UpsertRow<V>>) -> Map<NaturalKey, V>
    decreases rows.len(),
{
    if rows.len() == 0 {
        Map::empty()
    } else {
        contents(rows.drop_last()).insert(rows.last().key, rows.last().value)
    }
}

/// A map after the items of a batch were written into it in their order,
/// so of two items with one key the later one stays.
pub open spec fn merged<V>(map: Map<NaturalKey, V>, items: Seq<(NaturalKey, V)>) -> Map<
    NaturalKey,
    V,
>
    decreases items.len(),
{
    if items.len() == 0 {
        map
    } else {
        merged(map, items.drop_last()).insert(items.last().0, items.last().1)
    }
}

/// No two rows share a key.
pub open spec fn keys_differ<V>(rows: Seq<UpsertRow<V>>) -> bool {
    forall|i: int, j: int|
        0 <= i < rows.len() && 0 <= j < rows.len() && i != j ==> (#[trigger] rows[i]).key != (
        #[trigger] rows[j]).key
}

/// The rows of a table and the id of its next new row.
pub struct UpsertRows<V> {
    pub rows: Seq<UpsertRow<V>>,
    pub next_id: int,
}

impl<V> UpsertRows<V> {
    /// What holds of every table: no two rows share a key, and all ids lie
    /// below the next one.
    pub open spec fn wf(self) -> bool {
        &&& 1 <= self.next_id <= i64::MAX
        &&& keys_differ(self.rows)
        &&& forall|i: int| 0 <= i < self.rows.len() ==> (#[trigger] self.rows[i]).id < self.next_id
    }

    /// The table after a batch was applied.
    pub open spec fn bulk_upsert(self, items: Seq<(NaturalKey, V)>) -> UpsertRows<V> {
        let rows = upserted_all(self.rows, self.next_id, items);
        UpsertRows { rows, next_id: self.next_id + rows.len() - self.rows.len() }
    }
}

/// What one item does to rows: it keeps the keys apart, adds at most one
/// row, and leaves the rows holding what they held, with the value of the
/// item under its key.
pub proof fn lemma_upserted<V>(rows: Seq<UpsertRow<V>>, next_id: int, key: NaturalKey, value: V)
    ensures
        rows.len() <= upserted(rows, next_id, key, value).len() <= rows.len() + 1,
        keys_differ(rows) ==> keys_differ(upserted(rows, next_id, key, value)),
        contents(upserted(rows, next_id, key, value)) == contents(rows).insert(key, value),
        forall|i: int|
            0 <= i < rows.len() ==> (#[trigger] upserted(rows, next_id, key, value)[i]).id
                == rows[i].id && upserted(rows, next_id, key, value)[i].key == rows[i].key,
        upserted(rows, next_id, key, value).len() == rows.len() + 1 ==> upserted(
            rows,
            next_id,
            key,
            value,
        ).last().id == next_id as i64,
    decreases rows.len(),
{
    let after = upserted(rows, next_id, key, value);
    if has_key(rows, key) {
        lemma_overwrite_contents(rows, key, value);
        if keys_differ(rows) {
            assert forall|i: int, j: int|
                0 <= i < after.len() && 0 <= j < after.len() && i != j implies (
            #[trigger] after[i]).key != (#[trigger] after[j]).key by {
                assert(after[i].key == rows[i].key && after[j].key == rows[j].key);
            }
        }
    } else {
        assert(after.drop_last() =~= rows);
        if keys_differ(rows) {
            assert forall|i: int, j: int|
                0 <= i < after.len() && 0 <= j < after.len() && i != j implies (
            #[trigger] after[i]).key != (#[trigger] after[j]).key by {
                if i < rows.len() {
                    assert(after[i] == rows[i]);
                }
                if j < rows.len() {
                    assert(after[j] == rows[j]);
                }
            }
        }
    }
}

/// Overwriting the value under a key leaves the rows holding what they
/// held, with the new value under that key.
proof fn lemma_overwrite_contents<V>(rows: Seq<UpsertRow<V>>, key: NaturalKey, value: V)
    ensures
        contents(
            rows.map_values(
                |row: UpsertRow<V>|
                    if row.key == key {
                        UpsertRow { id: row.id, key: row.key, value }
                    } else {
                        row
                    },
            ),
        ) == if has_key(rows, key) {
            contents(rows).insert(key, value)
        } else {
            contents(rows)
        },
    decreases rows.len(),
{
    let f = |row: UpsertRow<V>|
        if row.key == key {
            UpsertRow { id: row.id, key: row.key, value }
        } else {
            row
        };
    let after = rows.map_values(f);
    if rows.len() > 0 {
        let rest = rows.drop_last();
        lemma_overwrite_contents(rest, key, value);
        assert(after.drop_last() =~= rest.map_values(f));
        assert(after.last() == f(rows.last()));
        if has_key(rows, key) && !has_key(rest, key) {
            let i = choose|i: int| 0 <= i < rows.len() && (#[trigger] rows[i]).key == key;
            if i < rest.len() {
                assert(rest[i].key == key);
            }
            assert(rows.last().key == key);
        }
        if has_key(rest, key) {
            let i = choose|i: int| 0 <= i < rest.len() && (#[trigger] rest[i]).key == key;
            assert(rows[i].key == key);
        }
        if rows.last().key == key {
            assert(rows[rows.len() - 1].key == key);
            assert(contents(after) =~= contents(rows).insert(key, value));
        } else if has_key(rest, key) {
            assert(contents(after) =~= contents(rows).insert(key, value));
        } else {
            assert(contents(after) =~= contents(rows));
        }
    } else {
        assert(after =~= rows);
    }
}

/// What a batch does to a table: the table stays well formed, grows by no
/// more rows than the batch has items, and then holds what it held with the
/// items of the batch written over it in their order.
pub proof fn lemma_bulk_upsert<V>(table: UpsertRows<V>, items: Seq<(NaturalKey, V)>)
    requires
        table.wf(),
        table.next_id + items.len() <= i64::MAX,
    ensures
        table.bulk_upsert(items).wf(),
        table.rows.len() <= table.bulk_upsert(items).rows.len() <= table.rows.len() + items.len(),
        contents(table.bulk_upsert(items).rows) == merged(contents(table.rows), items),
    decreases items.len(),
{
    if items.len() > 0 {
        let rest = items.drop_last();
        lemma_bulk_upsert(table, rest);
        let so_far = table.bulk_upsert(rest);
        let next = table.next_id + so_far.rows.len() - table.rows.len();
        lemma_upserted(so_far.rows, next, items.last().0, items.last().1);
        let after = table.bulk_upsert(items);
        assert forall|i: int| 0 <= i < after.rows.len() implies (#[trigger] after.rows[i]).id
            < after.next_id by {
            if i < so_far.rows.len() {
                assert(after.rows[i].id == so_far.rows[i].id);
            }
        }
    }
}

/// Writing a batch into a map is the same as laying what the batch alone
/// holds over the map.
pub proof fn lemma_merged_lays_over<V>(map: Map<NaturalKey, V>, items: Seq<(NaturalKey, V)>)
    ensures
        merged(map, items) == map.union_prefer_right(merged(Map::empty(), items)),
    decreases items.len(),
{
    if items.len() > 0 {
        lemma_merged_lays_over(map, items.drop_last());
    }
    assert(merged(map, items) =~= map.union_prefer_right(merged(Map::empty(), items)));
}

/// Applying one batch twice leaves a table holding what it held after the
/// first time.
pub proof fn lemma_bulk_upsert_twice<V>(table: UpsertRows<V>, items: Seq<(NaturalKey, V)>)
    requires
        table.wf(),
        table.next_id + 2 * items.len() <= i64::MAX,
    ensures
        contents(table.bulk_upsert(items).bulk_upsert(items).rows) == contents(
            table.bulk_upsert(items).rows,
        ),
{
    let once = table.bulk_upsert(items);
    lemma_bulk_upsert(table, items);
    lemma_bulk_upsert(once, items);
    let held = contents(table.rows);
    let batch = merged(Map::empty(), items);
    lemma_merged_lays_over(held, items);
    lemma_merged_lays_over(contents(once.rows), items);
    assert(held.union_prefer_right(batch).union_prefer_right(batch) =~= held.union_prefer_right(
        batch,
    ));
}

/// A table filled by bulk upsert.
pub struct UpsertTable<V> {
    rows: Vec<UpsertRow<V>>,
    next_id: i64,
}

impl<V> View for UpsertTable<V> {
    type V = UpsertRows<V>;

    closed spec fn view(&self) -> UpsertRows<V> {
        UpsertRows { rows: self.rows@, next_id: self.next_id as int }
    }
}

/// The words of the failure when the ids that are left do not suffice for
/// a batch.
pub open spec fn row_ids_exhausted() -> Seq<char> {
    "row ids exhausted"@
}

impl<V> UpsertTable<V> {
    /// An empty table, whose first row gets the id 1.
    pub fn new() -> (table: UpsertTable<V>)
        ensures
            table@.wf(),
            table@.rows.len() == 0,
            table@.next_id == 1,
    {
        UpsertTable { rows: Vec::new(), next_id: 1 }
    }

    /// The number of rows.
    pub fn len(&self) -> (n: usize)
        ensures
            n == self@.rows.len(),
    {
        self.rows.len()
    }

    /// The place of the row with a key.
    fn position(&self, key: &NaturalKey) -> (r: Option<usize>)
        ensures
            match r {
                Some(i) => i < self@.rows.len() && self@.rows[i as int].key == *key,
                None => !has_key(self@.rows, *key),
            },
    {
        let mut i: usize = 0;
        while i < self.rows.len()
            invariant
                i <= self.rows.len(),
                forall|k: int| 0 <= k < i ==> (#[trigger] self@.rows[k]).key != *key,
            decreases self.rows.len() - i,
        {
            if self.rows[i].key == *key {
                return Some(i);
            }
            i += 1;
        }
        None
    }

    /// The value under a key, if the table holds the key.
    pub fn get(&self, key: &NaturalKey) -> (r: Option<&V>)
        ensures
            r is Some <==> has_key(self@.rows, *key),
            r matches Some(value) ==> exists|i: int|
                0 <= i < self@.rows.len() && (#[trigger] self@.rows[i]).key == *key
                    && self@.rows[i].value == *value,
    {
        match self.position(key) {
            Some(i) => Some(&self.rows[i].value),
            None => None,
        }
    }

    /// Applies one item.
    fn upsert(&mut self, key: NaturalKey, value: V)
        requires
            old(self)@.wf(),
            old(self)@.next_id < i64::MAX,
        ensures
            final(self)@.rows == upserted(old(self)@.rows, old(self)@.next_id, key, value),
            final(self)@.next_id == old(self)@.next_id + final(self)@.rows.len() - old(
                self,
            )@.rows.len(),
            final(self)@.wf(),
    {
        proof {
            lemma_upserted(self@.rows, self@.next_id, key, value);
        }
        match self.position(&key) {
            Some(i) => {
                let id = self.rows[i].id;
                self.rows.set(i, UpsertRow { id, key, value });
                proof {
                    let before = old(self)@.rows;
                    let after = upserted(before, old(self)@.next_id, key, value);
                    assert forall|k: int| 0 <= k < before.len() implies self@.rows[k]
                        == after[k] by {
                        if k != i {
                            assert(before[k].key != before[i as int].key);
                        }
                    }
                    assert(self@.rows =~= after);
                }
            },
            None => {
                self.rows.push(UpsertRow { id: self.next_id, key, value });
                self.next_id = self.next_id + 1;
            },
        }
    }

    /// Applies a batch in its order, as a whole or not at all.
    ///
    /// The batch is refused, and the table left as it was, only when the
    /// ids that are left do not suffice for one new row per item.
    pub fn bulk_upsert(&mut self, items: Vec<(NaturalKey, V)>) -> (r: Result<UpsertCount, ApiError>)
        requires
            old(self)@.wf(),
        ensures
            final(self)@.wf(),
            old(self)@.next_id + items@.len() > i64::MAX ==> r is Err && r->Err_0@ == (
            ApiErrorView::StoreFailed { cause: row_ids_exhausted() }) && final(self)@ == old(
                self,
            )@,
            old(self)@.next_id + items@.len() <= i64::MAX ==> r == Ok::<UpsertCount, ApiError>(
                UpsertCount { upserted: items@.len() as usize },
            ) && final(self)@ == old(self)@.bulk_upsert(items@),
    {
        if items.len() as u64 > (i64::MAX - self.next_id) as u64 {
            return Err(ApiError::StoreFailed { cause: String::from_str("row ids exhausted") });
        }
        let count: usize = items.len();
        let ghost all = items@;
        let ghost first = self@;
        for item in it: items
            invariant
                it.seq() == all,
                first.wf(),
                first.next_id + all.len() <= i64::MAX,
                self@.wf(),
                self@ == first.bulk_upsert(all.take(it.index() as int)),
        {
            proof {
                let i = it.index() as int;
                assert(all.take(i + 1).drop_last() =~= all.take(i));
                assert(all.take(i + 1).last() == item);
                lemma_bulk_upsert(first, all.take(i));
            }
            self.upsert(item.0, item.1);
        }
        proof {
            assert(all.take(all.len() as int) =~= all);
        }
        Ok(UpsertCount { upserted: count })
    }
}

} // verus!
