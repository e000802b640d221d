//! Coverage requirements: how many nurses, and with which skill, a shift of
//! a day needs in a unit.

use crate::dates::Day;
use crate::errors::{ApiError, ApiErrorView};
use crate::models::UpsertCount;
use crate::upsert::{row_ids_exhausted, NaturalKey, UpsertTable};
use vstd::prelude::*;

verus! {

/// One requirement of a batch. The required skill is a JSON text.
#[derive(Clone, Debug, PartialEq, Eq)]
pub struct CoverageItem {
    pub day: Day,
    pub shift_id: i64,
    pub required_count: i32,
    pub required_skill: String,
}

/// What is stored for a shift of a day in a unit.
#[derive(Clone, Debug, PartialEq, Eq)]
pub struct CoverageValue {
    pub required_count: i32,
    pub required_skill: String,
}

/// An item of a batch for a unit as a key and a value.
pub open spec fn coverage_entry(unit_id: i64, item: CoverageItem) -> (NaturalKey, CoverageValue) {
    (
        NaturalKey { owner_id: unit_id, day: item.day, shift_id: item.shift_id },
        CoverageValue { required_count: item.required_count, required_skill: item.required_skill },
    )
}

/// The items of a batch for a unit as keys and values, in their order.
pub open spec fn coverage_entries(unit_id: i64, items: Seq<CoverageItem>) -> Seq<
    (NaturalKey, CoverageValue),
> {
    items.map_values(|item: CoverageItem| coverage_entry(unit_id, item))
}

/// Writes a batch of requirements of a unit, as a whole or not at all. A
/// requirement for a day and shift that the unit has one for replaces it.
pub fn bulk_upsert_coverage(
    table: &mut UpsertTable<CoverageValue>,
    unit_id: i64,
    items: Vec<CoverageItem>,
) -> (r: Result<UpsertCount, ApiError>)
    requires
        old(table)@.wf(),
    ensures
        final(table)@.wf(),
        old(table)@.next_id + items@.len() > i64::MAX ==> r is Err && r->Err_0@ == (
        ApiErrorView::StoreFailed { cause: row_ids_exhausted() }) && final(table)@ == old(table)@,
        old(table)@.next_id + items@.len() <= i64::MAX ==> r == Ok::<UpsertCount, ApiError>(
            UpsertCount { upserted: items@.len() as usize },
        ) && final(table)@ == old(table)@.bulk_upsert(coverage_entries(unit_id, items@)),
{
    let ghost all = items@;
    let mut entries: Vec<(NaturalKey, CoverageValue)> = Vec::with_capacity(items.len());
    for item in it: items
        invariant
            it.seq() == all,
            entries@ == coverage_entries(unit_id, all.take(it.index() as int)),
    {
        proof {
            let i = it.index() as int;
            assert(coverage_entries(unit_id, all.take(i + 1)) =~= coverage_entries(
                unit_id,
                all.take(i),
            ).push(coverage_entry(unit_id, item)));
        }
        entries.push(
            (
                NaturalKey { owner_id: unit_id, day: item.day, shift_id: item.shift_id },
                CoverageValue {
                    required_count: item.required_count,
                    required_skill: item.required_skill,
                },
            ),
        );
    }
    proof {
        assert(all.take(all.len() as int) =~= all);
    }
    table.bulk_upsert(entries)
}

} // verus!
