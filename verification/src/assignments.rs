//! The list of the assignments of a run.

use crate::models::AssignmentView;
use crate::ordering::{in_order, lemma_in_order};
use vstd::prelude::*;
use vstd::relations::{sorted_by, strongly_connected, transitive};

verus! {

/// The run whose assignments a list shows.
#[derive(Clone, Copy, Debug, PartialEq, Eq, Structural)]
pub struct ListQ {
    pub solver_run_id: i64,
}

/// The order of the list: by day, and within a day by shift.
pub open spec fn by_day_and_shift() -> spec_fn(AssignmentView, AssignmentView) -> bool {
    |a: AssignmentView, b: AssignmentView|
        a.day.precedes(b.day) || (a.day == b.day && a.shift_id <= b.shift_id)
}

/// The assignments of a run, in the order of the table.
pub open spec fn run_rows(assignments: Seq<AssignmentView>, run_id: i64) -> Seq<AssignmentView> {
    assignments.filter(|a: AssignmentView| a.solver_run_id == run_id)
}

/// The assignments of a run as the list shows them: by day, and within a
/// day by shift. Assignments of one day and shift stay in the order of the
/// table.
pub open spec fn listed_rows(assignments: Seq<AssignmentView>, run_id: i64) -> Seq<
    AssignmentView,
> {
    in_order(run_rows(assignments, run_id), by_day_and_shift())
}

/// The order by day and shift relates any two assignments, and passes on.
pub proof fn lemma_by_day_and_shift_orders()
    ensures
        transitive(by_day_and_shift()),
        strongly_connected(by_day_and_shift()),
{
    let r = by_day_and_shift();
    assert forall|x: AssignmentView, y: AssignmentView, z: AssignmentView| #[trigger]
        r(x, y) && #[trigger] r(y, z) implies r(x, z) by {}
    assert forall|x: AssignmentView, y: AssignmentView| #[trigger]
        r(x, y) || #[trigger] r(y, x) by {
        if !r(x, y) && !r(y, x) {
            assert(x.day.year == y.day.year);
            assert(x.day.month == y.day.month);
            assert(x.day.day == y.day.day);
            assert(x.day == y.day);
        }
    }
}

/// The list of a run shows each of its assignments as often as the table
/// holds it, and none before one of an earlier day, or of the same day and
/// a lower shift.
pub proof fn lemma_listed_rows(assignments: Seq<AssignmentView>, run_id: i64)
    ensures
        sorted_by(listed_rows(assignments, run_id), by_day_and_shift()),
        listed_rows(assignments, run_id).to_multiset() == run_rows(
            assignments,
            run_id,
        ).to_multiset(),
        forall|i: int|
            0 <= i < listed_rows(assignments, run_id).len() ==> (#[trigger] listed_rows(
                assignments,
                run_id,
            )[i]).solver_run_id == run_id,
{
    broadcast use vstd::seq_lib::group_to_multiset_ensures;

    lemma_by_day_and_shift_orders();
    lemma_in_order(run_rows(assignments, run_id), by_day_and_shift());
    let listed = listed_rows(assignments, run_id);
    let rows = run_rows(assignments, run_id);
    assert forall|i: int| 0 <= i < listed.len() implies (#[trigger] listed[i]).solver_run_id
        == run_id by {
        assert(listed.contains(listed[i]));
        assert(rows.to_multiset().count(listed[i]) > 0);
        assert(rows.contains(listed[i]));
        let k = choose|k: int| 0 <= k < rows.len() && rows[k] == listed[i];
        assignments.lemma_filter_pred(|a: AssignmentView| a.solver_run_id == run_id, k);
    }
}

} // verus!
