//! Summary figures of a run, computed from the solver's per-nurse statistics
//! and its list of understaffed shifts.

use crate::solver_runs::{IngestKpiRow, SolveNurseStats, SolveUnder};
use vstd::prelude::*;

verus! {

/// A count as it enters a total: negative counts enter as zero.
pub open spec fn positive_part(x: int) -> int {
    if x > 0 {
        x
    } else {
        0
    }
}

/// The sum of all satisfaction scores.
pub open spec fn satisfaction_sum(stats: Seq<SolveNurseStats>) -> int
    decreases stats.len(),
{
    if stats.len() == 0 {
        0
    } else {
        satisfaction_sum(stats.drop_last()) + stats.last().satisfaction
    }
}

/// The sum of the positive overtime counts.
pub open spec fn overtime_sum(stats: Seq<SolveNurseStats>) -> int
    decreases stats.len(),
{
    if stats.len() == 0 {
        0
    } else {
        overtime_sum(stats.drop_last()) + positive_part(stats.last().overtime as int)
    }
}

/// The sum of the positive missing counts.
pub open spec fn understaff_sum(under: Seq<SolveUnder>) -> int
    decreases under.len(),
{
    if under.len() == 0 {
        0
    } else {
        understaff_sum(under.drop_last()) + positive_part(under.last().missing as int)
    }
}

/// The quotient `sum / count` rounded to the nearest integer, a tie going
/// away from zero; zero when there is nothing to average.
pub open spec fn rounded_mean(sum: int, count: int) -> int {
    if count <= 0 {
        0
    } else if sum >= 0 {
        (2 * sum + count) / (2 * count)
    } else {
        -((count - 2 * sum) / (2 * count))
    }
}

/// The average satisfaction of a list of nurses.
pub open spec fn average_satisfaction(stats: Seq<SolveNurseStats>) -> int {
    rounded_mean(satisfaction_sum(stats), stats.len() as int)
}

/// The summary of a run: `None` where a total does not fit the 32 bits of
/// its field.
pub open spec fn kpi_of(run_id: i64, stats: Seq<SolveNurseStats>, under: Seq<SolveUnder>) -> Option<
    IngestKpiRow,
> {
    if understaff_sum(under) > i32::MAX || overtime_sum(stats) > i32::MAX {
        None
    } else {
        Some(
            IngestKpiRow {
                solver_run_id: run_id,
                avg_satisfaction: average_satisfaction(stats) as i32,
                understaff_total: understaff_sum(under) as i32,
                overtime_total: overtime_sum(stats) as i32,
                night_violations: 0,
                senior_coverage_ok: true,
            },
        )
    }
}

/// The rounded mean is a nearest integer to the quotient, and of two
/// nearest integers it is the one farther from zero.
pub proof fn lemma_rounded_mean_is_nearest(sum: int, count: int)
    requires
        count > 0,
    ensures
        -count <= 2 * (count * rounded_mean(sum, count) - sum) <= count,
        sum >= 0 ==> -count < 2 * (count * rounded_mean(sum, count) - sum),
        sum < 0 ==> 2 * (count * rounded_mean(sum, count) - sum) < count,
{
    let d = 2 * count;
    if sum >= 0 {
        let n = 2 * sum + count;
        let q = n / d;
        assert(n == d * q + n % d && 0 <= n % d < d) by (nonlinear_arith)
            requires
                d > 0,
                q == n / d,
        ;
        assert(d * q == 2 * (count * q)) by (nonlinear_arith)
            requires
                d == 2 * count,
        ;
    } else {
        let n = count - 2 * sum;
        let q = n / d;
        assert(n == d * q + n % d && 0 <= n % d < d) by (nonlinear_arith)
            requires
                d > 0,
                q == n / d,
        ;
        assert(d * q == 2 * (count * q)) by (nonlinear_arith)
            requires
                d == 2 * count,
        ;
        assert(count * (-q) == -(count * q)) by (nonlinear_arith);
    }
}

/// The rounded mean of values between two bounds lies between the bounds.
pub proof fn lemma_rounded_mean_within(sum: int, count: int, low: int, high: int)
    requires
        count > 0,
        low <= high,
        count * low <= sum <= count * high,
    ensures
        low <= rounded_mean(sum, count) <= high,
{
    let r = rounded_mean(sum, count);
    lemma_rounded_mean_is_nearest(sum, count);
    assert(r <= high) by (nonlinear_arith)
        requires
            count > 0,
            2 * (count * r - sum) <= count,
            sum <= count * high,
    ;
    assert(low <= r) by (nonlinear_arith)
        requires
            count > 0,
            -count <= 2 * (count * r - sum),
            count * low <= sum,
    ;
}

/// Rounds the mean of `count` 32-bit values that add up to `sum`.
fn mean_rounded(sum: i128, count: usize) -> (r: i32)
    requires
        -(count as int) * 0x8000_0000 <= sum <= (count as int) * 0x7fff_ffff,
    ensures
        r == rounded_mean(sum as int, count as int),
{
    if count == 0 {
        return 0;
    }
    proof {
        lemma_rounded_mean_within(sum as int, count as int, -0x8000_0000, 0x7fff_ffff);
    }
    let c: u128 = count as u128;
    if sum >= 0 {
        let q: u128 = (2 * (sum as u128) + c) / (2 * c);
        q as i32
    } else {
        let m: u128 = (-sum) as u128;
        let q: u128 = (c + 2 * m) / (2 * c);
        (-(q as i64)) as i32
    }
}

/// Reduces the solver's statistics to the summary of run `run_id`.
///
/// The average satisfaction is the mean of the satisfaction scores, rounded
/// to the nearest integer, and zero for an empty list. The two totals add up
/// the positive counts only. Night violations and senior coverage are not
/// derived from the solver's answer: they are reported as zero and as
/// satisfied.
///
/// Returns `None` exactly when a total is too large for its field.
pub fn aggregate(
    run_id: i64,
    nurse_stats: &Vec<SolveNurseStats>,
    understaffed: &Vec<SolveUnder>,
) -> (r: Option<IngestKpiRow>)
    ensures
        r == kpi_of(run_id, nurse_stats@, understaffed@),
{
    let n: usize = nurse_stats.len();
    let mut satisfaction: i128 = 0;
    let mut overtime: i128 = 0;
    let mut i: usize = 0;
    while i < n
        invariant
            i <= n,
            n == nurse_stats.len(),
            satisfaction == satisfaction_sum(nurse_stats@.take(i as int)),
            overtime == overtime_sum(nurse_stats@.take(i as int)),
            -(i as int) * 0x8000_0000 <= satisfaction <= (i as int) * 0x7fff_ffff,
            0 <= overtime <= (i as int) * 0x7fff_ffff,
        decreases n - i,
    {
        proof {
            assert(nurse_stats@.take(i + 1).drop_last() =~= nurse_stats@.take(i as int));
        }
        satisfaction = satisfaction + nurse_stats[i].satisfaction as i128;
        if nurse_stats[i].overtime > 0 {
            overtime = overtime + nurse_stats[i].overtime as i128;
        }
        i += 1;
    }
    let m: usize = understaffed.len();
    let mut missing: i128 = 0;
    let mut j: usize = 0;
    while j < m
        invariant
            j <= m,
            m == understaffed.len(),
            missing == understaff_sum(understaffed@.take(j as int)),
            0 <= missing <= (j as int) * 0x7fff_ffff,
        decreases m - j,
    {
        proof {
            assert(understaffed@.take(j + 1).drop_last() =~= understaffed@.take(j as int));
        }
        if understaffed[j].missing > 0 {
            missing = missing + understaffed[j].missing as i128;
        }
        j += 1;
    }
    proof {
        assert(nurse_stats@.take(n as int) =~= nurse_stats@);
        assert(understaffed@.take(m as int) =~= understaffed@);
    }
    if missing > 0x7fff_ffff || overtime > 0x7fff_ffff {
        return None;
    }
    Some(
        IngestKpiRow {
            solver_run_id: run_id,
            avg_satisfaction: mean_rounded(satisfaction, n),
            understaff_total: missing as i32,
            overtime_total: overtime as i32,
            night_violations: 0,
            senior_coverage_ok: true,
        },
    )
}

/// An empty list of nurses has the average satisfaction zero.
pub proof fn lemma_average_of_nothing()
    ensures
        average_satisfaction(Seq::<SolveNurseStats>::empty()) == 0,
{
}

/// Where every score lies between two bounds, so does the average.
pub proof fn lemma_average_within(stats: Seq<SolveNurseStats>, low: int, high: int)
    requires
        stats.len() > 0,
        low <= high,
        forall|i: int| 0 <= i < stats.len() ==> low <= #[trigger] stats[i].satisfaction <= high,
    ensures
        low <= average_satisfaction(stats) <= high,
{
    lemma_satisfaction_sum_within(stats, low, high);
    lemma_rounded_mean_within(satisfaction_sum(stats), stats.len() as int, low, high);
}

proof fn lemma_satisfaction_sum_within(stats: Seq<SolveNurseStats>, low: int, high: int)
    requires
        forall|i: int| 0 <= i < stats.len() ==> low <= #[trigger] stats[i].satisfaction <= high,
    ensures
        stats.len() * low <= satisfaction_sum(stats) <= stats.len() * high,
    decreases stats.len(),
{
    if stats.len() > 0 {
        let rest = stats.drop_last();
        assert forall|i: int| 0 <= i < rest.len() implies low <= #[trigger] rest[i].satisfaction
            <= high by {
            assert(rest[i] == stats[i]);
        }
        lemma_satisfaction_sum_within(rest, low, high);
        assert(stats.len() * low == rest.len() * low + low) by (nonlinear_arith)
            requires
                stats.len() == rest.len() + 1,
        ;
        assert(stats.len() * high == rest.len() * high + high) by (nonlinear_arith)
            requires
                stats.len() == rest.len() + 1,
        ;
    }
}

/// The understaffing total does not change when the entries without a
/// positive missing count are left out: such entries count as zero.
pub proof fn lemma_understaff_ignores_nonpositive(under: Seq<SolveUnder>)
    ensures
        understaff_sum(under) == understaff_sum(under.filter(|u: SolveUnder| u.missing > 0)),
        understaff_sum(under) >= 0,
    decreases under.len(),
{
    reveal(Seq::filter);
    if under.len() > 0 {
        let keep = |u: SolveUnder| u.missing > 0;
        let rest = under.drop_last();
        lemma_understaff_ignores_nonpositive(rest);
        if under.last().missing > 0 {
            assert(under.filter(keep) == rest.filter(keep).push(under.last()));
            assert(rest.filter(keep).push(under.last()).drop_last() =~= rest.filter(keep));
        }
    }
}

/// The overtime total does not change when the nurses without a positive
/// overtime count are left out: such counts enter as zero.
pub proof fn lemma_overtime_ignores_nonpositive(stats: Seq<SolveNurseStats>)
    ensures
        overtime_sum(stats) == overtime_sum(stats.filter(|s: SolveNurseStats| s.overtime > 0)),
        overtime_sum(stats) >= 0,
    decreases stats.len(),
{
    reveal(Seq::filter);
    if stats.len() > 0 {
        let keep = |s: SolveNurseStats| s.overtime > 0;
        let rest = stats.drop_last();
        lemma_overtime_ignores_nonpositive(rest);
        if stats.last().overtime > 0 {
            assert(stats.filter(keep) == rest.filter(keep).push(stats.last()));
            assert(rest.filter(keep).push(stats.last()).drop_last() =~= rest.filter(keep));
        }
    }
}

} // verus!
