//! Availability: whether a nurse can take a shift of a day.

use crate::dates::Day;
use crate::errors::{ApiError, ApiErrorView};
use crate::models::UpsertCount;
use crate::upsert::{row_ids_exhausted, NaturalKey, UpsertTable};
use vstd::prelude::*;

verus! {

/// One availability of a batch: 1 where the nurse can take the shift, 0
/// where not.
#[derive(Clone, Copy, Debug, PartialEq, Eq, Structural)]
pub struct AvailabilityUpsertItem {
    pub staff_id: i64,
    pub day: Day,
    pub shift_id: i64,
    pub value: i32,
}

/// An item of a batch as a key and a value.
pub open spec fn availability_entry(item: AvailabilityUpsertItem) -> (NaturalKey, i32) {
    (NaturalKey { owner_id: item.staff_id, day: item.day, shift_id: item.shift_id }, item.value)
}

/// The items of a batch as keys and values, in their order.
pub open spec fn availability_entries(items: Seq<AvailabilityUpsertItem>) -> Seq<
    (NaturalKey, i32),
> {
    items.map_values(|item: AvailabilityUpsertItem| availability_entry(item))
}

/// Writes a batch of availabilities, as a whole or not at all. An
/// availability for a nurse, day and shift that the table has one for
/// replaces it.
pub fn bulk_upsert_availability(
    table: &mut UpsertTable<i32>,
    items: &Vec<AvailabilityUpsertItem>,
) -> (r: Result<UpsertCount, ApiError>)
    requires
        old(table)@.wf(),
    ensures
        final(table)@.wf(),
        old(table)@.next_id + items@.len() > i64::MAX ==> r is Err && r->Err_0@ == (
        ApiErrorView::StoreFailed { cause: row_ids_exhausted() }) && final(table)@ == old(table)@,
        old(table)@.next_id + items@.len() <= i64::MAX ==> r == Ok::<UpsertCount, ApiError>(
            UpsertCount { upserted: items@.len() as usize },
        ) && final(table)@ == old(table)@.bulk_upsert(availability_entries(items@)),
{
    let mut entries: Vec<(NaturalKey, i32)> = Vec::with_capacity(items.len());
    let mut i: usize = 0;
    while i < items.len()
        invariant
            i <= items.len(),
            entries@ == availability_entries(items@.take(i as int)),
        decreases items.len() - i,
    {
        proof {
            assert(availability_entries(items@.take(i + 1)) =~= availability_entries(
                items@.take(i as int),
            ).push(availability_entry(items[i as int])));
        }
        entries.push(
            (
                NaturalKey {
                    owner_id: items[i].staff_id,
                    day: items[i].day,
                    shift_id: items[i].shift_id,
                },
                items[i].value,
            ),
        );
        i += 1;
    }
    proof {
        assert(items@.take(items.len() as int) =~= items@);
    }
    table.bulk_upsert(entries)
}

} // verus!
